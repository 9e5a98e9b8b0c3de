//! The authoritative shape of a valid record: its fields, which are
//! required, and the enumerated audiences.  Immutable and exposed as a
//! structured document for external tooling.

use vstd::prelude::*;
use crate::report::SchemaField;

verus! {

/// The enumerated audience classifications a record may declare.
#[derive(Debug, Clone, Copy, PartialEq, Eq, Structural)]
pub enum Audience {
    NodeDev,
    RuntimeDev,
    NodeOperator,
    RuntimeUser,
}

/// The key naming a field in record content.
pub open spec fn field_name(f: SchemaField) -> Seq<u8> {
    match f {
        SchemaField::Number => seq![110u8, 117u8, 109u8, 98u8, 101u8, 114u8],
        SchemaField::Title => seq![116u8, 105u8, 116u8, 108u8, 101u8],
        SchemaField::Audience => seq![97u8, 117u8, 100u8, 105u8, 101u8, 110u8, 99u8, 101u8],
        SchemaField::Description => seq![
            100u8,
            101u8,
            115u8,
            99u8,
            114u8,
            105u8,
            112u8,
            116u8,
            105u8,
            111u8,
            110u8,
        ],
    }
}

/// The value naming an audience in record content.
pub open spec fn audience_name(a: Audience) -> Seq<u8> {
    match a {
        Audience::NodeDev => seq![110u8, 111u8, 100u8, 101u8, 95u8, 100u8, 101u8, 118u8],
        Audience::RuntimeDev => seq![
            114u8,
            117u8,
            110u8,
            116u8,
            105u8,
            109u8,
            101u8,
            95u8,
            100u8,
            101u8,
            118u8,
        ],
        Audience::NodeOperator => seq![
            110u8,
            111u8,
            100u8,
            101u8,
            95u8,
            111u8,
            112u8,
            101u8,
            114u8,
            97u8,
            116u8,
            111u8,
            114u8,
        ],
        Audience::RuntimeUser => seq![
            114u8,
            117u8,
            110u8,
            116u8,
            105u8,
            109u8,
            101u8,
            95u8,
            117u8,
            115u8,
            101u8,
            114u8,
        ],
    }
}

/// The audience a value denotes, if any.
pub open spec fn audience_of(v: Seq<u8>) -> Option<Audience> {
    if v == audience_name(Audience::NodeDev) {
        Some(Audience::NodeDev)
    } else if v == audience_name(Audience::RuntimeDev) {
        Some(Audience::RuntimeDev)
    } else if v == audience_name(Audience::NodeOperator) {
        Some(Audience::NodeOperator)
    } else if v == audience_name(Audience::RuntimeUser) {
        Some(Audience::RuntimeUser)
    } else {
        None
    }
}

/// Every audience's name denotes that audience: naming is injective.
pub proof fn lemma_audience_name_round_trip(a: Audience)
    ensures
        audience_of(audience_name(a)) == Some(a),
{
    match a {
        Audience::NodeDev => {},
        Audience::RuntimeDev => {
            assert(audience_name(Audience::RuntimeDev) != audience_name(Audience::NodeDev)) by {
                assert(audience_name(Audience::RuntimeDev).len() == 11);
                assert(audience_name(Audience::NodeDev).len() == 8);
            }
        },
        Audience::NodeOperator => {
            assert(audience_name(Audience::NodeOperator).len() == 13);
            assert(audience_name(Audience::NodeDev).len() == 8);
            assert(audience_name(Audience::RuntimeDev).len() == 11);
        },
        Audience::RuntimeUser => {
            assert(audience_name(Audience::RuntimeUser).len() == 12);
            assert(audience_name(Audience::NodeDev).len() == 8);
            assert(audience_name(Audience::RuntimeDev).len() == 11);
            assert(audience_name(Audience::NodeOperator).len() == 13);
        },
    }
}

/// Builds the bytes of a field's key.
pub fn field_name_bytes(f: SchemaField) -> (r: Vec<u8>)
    ensures
        r@ == field_name(f),
{
    let mut v: Vec<u8> = Vec::new();
    match f {
        SchemaField::Number => {
            v.push(110);
            v.push(117);
            v.push(109);
            v.push(98);
            v.push(101);
            v.push(114);
        },
        SchemaField::Title => {
            v.push(116);
            v.push(105);
            v.push(116);
            v.push(108);
            v.push(101);
        },
        SchemaField::Audience => {
            v.push(97);
            v.push(117);
            v.push(100);
            v.push(105);
            v.push(101);
            v.push(110);
            v.push(99);
            v.push(101);
        },
        SchemaField::Description => {
            v.push(100);
            v.push(101);
            v.push(115);
            v.push(99);
            v.push(114);
            v.push(105);
            v.push(112);
            v.push(116);
            v.push(105);
            v.push(111);
            v.push(110);
        },
    }
    proof {
        assert(v@ =~= field_name(f));
    }
    v
}

/// Builds the bytes of an audience's name.
pub fn audience_name_bytes(a: Audience) -> (r: Vec<u8>)
    ensures
        r@ == audience_name(a),
{
    let mut v: Vec<u8> = Vec::new();
    match a {
        Audience::NodeDev => {
            v.push(110);
            v.push(111);
            v.push(100);
            v.push(101);
            v.push(95);
            v.push(100);
            v.push(101);
            v.push(118);
        },
        Audience::RuntimeDev => {
            v.push(114);
            v.push(117);
            v.push(110);
            v.push(116);
            v.push(105);
            v.push(109);
            v.push(101);
            v.push(95);
            v.push(100);
            v.push(101);
            v.push(118);
        },
        Audience::NodeOperator => {
            v.push(110);
            v.push(111);
            v.push(100);
            v.push(101);
            v.push(95);
            v.push(111);
            v.push(112);
            v.push(101);
            v.push(114);
            v.push(97);
            v.push(116);
            v.push(111);
            v.push(114);
        },
        Audience::RuntimeUser => {
            v.push(114);
            v.push(117);
            v.push(110);
            v.push(116);
            v.push(105);
            v.push(109);
            v.push(101);
            v.push(95);
            v.push(117);
            v.push(115);
            v.push(101);
            v.push(114);
        },
    }
    proof {
        assert(v@ =~= audience_name(a));
    }
    v
}

/// Two byte strings are equal.
pub fn bytes_eq(a: &Vec<u8>, b: &Vec<u8>) -> (r: bool)
    ensures
        r == (a@ == b@),
{
    if a.len() != b.len() {
        return false;
    }
    let mut i: usize = 0;
    while i < a.len()
        invariant
            0 <= i <= a@.len(),
            a@.len() == b@.len(),
            forall|k: int| 0 <= k < i ==> a@[k] == b@[k],
        decreases a@.len() - i,
    {
        if a[i] != b[i] {
            return false;
        }
        i = i + 1;
    }
    proof {
        assert(a@ =~= b@);
    }
    true
}

/// Parses an audience value.
pub fn parse_audience(v: &Vec<u8>) -> (r: Option<Audience>)
    ensures
        r == audience_of(v@),
{
    let n = audience_name_bytes(Audience::NodeDev);
    if bytes_eq(v, &n) {
        return Some(Audience::NodeDev);
    }
    let n = audience_name_bytes(Audience::RuntimeDev);
    if bytes_eq(v, &n) {
        return Some(Audience::RuntimeDev);
    }
    let n = audience_name_bytes(Audience::NodeOperator);
    if bytes_eq(v, &n) {
        return Some(Audience::NodeOperator);
    }
    let n = audience_name_bytes(Audience::RuntimeUser);
    if bytes_eq(v, &n) {
        return Some(Audience::RuntimeUser);
    }
    None
}

/// Structural kind of a schema field.
#[derive(Debug, Clone, Copy, PartialEq, Eq, Structural)]
pub enum FieldKind {
    /// A positive integer.
    PositiveInteger,
    /// Nonempty free text.
    Text,
    /// One of the enumerated audiences.
    Enumerated,
}

/// The declaration of one field in the schema document.
#[derive(Debug, Clone, PartialEq, Eq)]
pub struct FieldSpec {
    /// The field's key in record content.
    pub name: Vec<u8>,
    /// Whether a record must declare the field.
    pub required: bool,
    /// The shape its value must have.
    pub kind: FieldKind,
}

/// The process-wide schema: a static, versioned description of a record's
/// fields.  Read-only after construction; `definition` computes the same
/// document on every call.
pub struct Schema;

impl Schema {
    /// The kind of each field in the schema.
    pub open spec fn kind_of(f: SchemaField) -> FieldKind {
        match f {
            SchemaField::Number => FieldKind::PositiveInteger,
            SchemaField::Title => FieldKind::Text,
            SchemaField::Audience => FieldKind::Enumerated,
            SchemaField::Description => FieldKind::Text,
        }
    }

    /// The schema as a structured document: all four fields, in declaration
    /// order, every one required.
    pub fn definition() -> (r: Vec<FieldSpec>)
        ensures
            r@.len() == 4,
            r@[0].name@ == field_name(SchemaField::Number),
            r@[1].name@ == field_name(SchemaField::Title),
            r@[2].name@ == field_name(SchemaField::Audience),
            r@[3].name@ == field_name(SchemaField::Description),
            forall|i: int| 0 <= i < 4 ==> r@[i].required,
            r@[0].kind == Self::kind_of(SchemaField::Number),
            r@[1].kind == Self::kind_of(SchemaField::Title),
            r@[2].kind == Self::kind_of(SchemaField::Audience),
            r@[3].kind == Self::kind_of(SchemaField::Description),
    {
        let mut r: Vec<FieldSpec> = Vec::new();
        r.push(
            FieldSpec {
                name: field_name_bytes(SchemaField::Number),
                required: true,
                kind: FieldKind::PositiveInteger,
            },
        );
        r.push(
            FieldSpec {
                name: field_name_bytes(SchemaField::Title),
                required: true,
                kind: FieldKind::Text,
            },
        );
        r.push(
            FieldSpec {
                name: field_name_bytes(SchemaField::Audience),
                required: true,
                kind: FieldKind::Enumerated,
            },
        );
        r.push(
            FieldSpec {
                name: field_name_bytes(SchemaField::Description),
                required: true,
                kind: FieldKind::Text,
            },
        );
        r
    }
}

} // verus!
