//! Record content: a line-oriented `key: value` document.
//!
//! A record's content is a sequence of lines separated by newlines.  Blank
//! lines are ignored; every other line must read `key: value` with a
//! schema-declared key.  Parsing collects *all* violations of one document
//! rather than stopping at the first, so a single call reports the complete
//! list of problems.  Generation produces a template that the schema itself
//! accepts.

use vstd::prelude::*;
use crate::common::{
    PRNumber, digits_of, digits_value, lemma_digits_of_all_digits, lemma_digits_value_of,
    parse_pr_number, pr_number_digits, valid_number_text,
};
use crate::report::{Reason, SchemaField, Violation};
use crate::schema::{
    Audience, audience_name, audience_name_bytes, audience_of, bytes_eq, field_name,
    field_name_bytes, parse_audience,
};
use crate::title::Title;

verus! {

/// Index of the first newline of `s`, or its length if none.
pub open spec fn first_nl(s: Seq<u8>) -> nat
    decreases s.len(),
{
    if s.len() == 0 {
        0
    } else if s[0] == 10 {
        0
    } else {
        1 + first_nl(s.drop_first())
    }
}

/// `s` split at newlines, the separators dropped: `""` is one empty line,
/// and a trailing newline yields a final empty line.
pub open spec fn split_lines(s: Seq<u8>) -> Seq<Seq<u8>>
    decreases s.len(),
{
    let k = first_nl(s);
    if k >= s.len() {
        seq![s]
    } else {
        seq![s.take(k as int)] + split_lines(s.skip(k as int + 1))
    }
}

/// The first newline is where the scan says: after `j` non-newline bytes a
/// newline or the end.
proof fn lemma_first_nl_scan(s: Seq<u8>, j: int)
    requires
        0 <= j <= s.len(),
        forall|k: int| 0 <= k < j ==> s[k] != 10,
        j == s.len() || s[j] == 10,
    ensures
        first_nl(s) == j,
    decreases j,
{
    if j > 0 {
        assert(s[0] != 10);
        assert(forall|k: int| 0 <= k < j - 1 ==> s.drop_first()[k] == s[k + 1]);
        if j < s.len() {
            assert(s.drop_first()[j - 1] == s[j]);
        }
        lemma_first_nl_scan(s.drop_first(), j - 1);
    }
}

/// Index of the first colon of `l`, or its length if none.
pub open spec fn first_colon(l: Seq<u8>) -> nat
    decreases l.len(),
{
    if l.len() == 0 {
        0
    } else if l[0] == 58 {
        0
    } else {
        1 + first_colon(l.drop_first())
    }
}

/// The first colon is where the scan says.
proof fn lemma_first_colon_scan(l: Seq<u8>, j: int)
    requires
        0 <= j <= l.len(),
        forall|k: int| 0 <= k < j ==> l[k] != 58,
        j == l.len() || l[j] == 58,
    ensures
        first_colon(l) == j,
    decreases j,
{
    if j > 0 {
        assert(l[0] != 58);
        assert(forall|k: int| 0 <= k < j - 1 ==> l.drop_first()[k] == l[k + 1]);
        if j < l.len() {
            assert(l.drop_first()[j - 1] == l[j]);
        }
        lemma_first_colon_scan(l.drop_first(), j - 1);
    }
}

/// The line reads `key: value`: a colon followed by a space, with the key
/// before and the value after.
pub open spec fn is_pair_line(l: Seq<u8>) -> bool {
    first_colon(l) + 1 < l.len() && l[first_colon(l) as int + 1] == 32
}

/// The key of a pair line: everything before its first colon.
pub open spec fn line_key(l: Seq<u8>) -> Seq<u8> {
    l.take(first_colon(l) as int)
}

/// The value of a pair line: everything after the colon and space.
pub open spec fn line_value(l: Seq<u8>) -> Seq<u8> {
    l.skip(first_colon(l) as int + 2)
}

/// The schema field a key names, if any.
pub open spec fn field_of_key(k: Seq<u8>) -> Option<SchemaField> {
    if k == field_name(SchemaField::Number) {
        Some(SchemaField::Number)
    } else if k == field_name(SchemaField::Title) {
        Some(SchemaField::Title)
    } else if k == field_name(SchemaField::Audience) {
        Some(SchemaField::Audience)
    } else if k == field_name(SchemaField::Description) {
        Some(SchemaField::Description)
    } else {
        None
    }
}

/// The line declares field `f`.
pub open spec fn is_field_line(l: Seq<u8>, f: SchemaField) -> bool {
    is_pair_line(l) && field_of_key(line_key(l)) == Some(f)
}

/// How often field `f` is declared among the lines.
pub open spec fn field_count(f: SchemaField, ls: Seq<Seq<u8>>) -> nat
    decreases ls.len(),
{
    if ls.len() == 0 {
        0
    } else {
        field_count(f, ls.drop_last()) + if is_field_line(ls.last(), f) {
            1nat
        } else {
            0nat
        }
    }
}

/// The value of the first declaration of field `f`, if any.
pub open spec fn first_field_value(f: SchemaField, ls: Seq<Seq<u8>>) -> Option<Seq<u8>>
    decreases ls.len(),
{
    if ls.len() == 0 {
        None
    } else {
        match first_field_value(f, ls.drop_last()) {
            Some(v) => Some(v),
            None => if is_field_line(ls.last(), f) {
                Some(line_value(ls.last()))
            } else {
                None
            },
        }
    }
}

/// The violations of the line at index `i`: none when blank or a known
/// field's declaration; otherwise malformed or unknown.
pub open spec fn line_viol(i: int, l: Seq<u8>) -> Seq<Violation> {
    if l.len() == 0 {
        Seq::empty()
    } else if !is_pair_line(l) {
        seq![Violation::MalformedLine(i as usize)]
    } else if field_of_key(line_key(l)).is_none() {
        seq![Violation::UnknownField(i as usize)]
    } else {
        Seq::empty()
    }
}

/// The line-level violations of all lines, in line order.
pub open spec fn line_viols(ls: Seq<Seq<u8>>) -> Seq<Violation>
    decreases ls.len(),
{
    if ls.len() == 0 {
        Seq::empty()
    } else {
        line_viols(ls.drop_last()) + line_viol(ls.len() - 1, ls.last())
    }
}

/// The violations of field `f`'s value.
pub open spec fn value_viols(f: SchemaField, v: Seq<u8>) -> Seq<Violation> {
    match f {
        SchemaField::Number => if valid_number_text(v) {
            Seq::empty()
        } else {
            seq![Violation::Schema(SchemaField::Number, Reason::BadNumber)]
        },
        SchemaField::Title => if v.len() > 0 {
            Seq::empty()
        } else {
            seq![Violation::Schema(SchemaField::Title, Reason::Empty)]
        },
        SchemaField::Audience => if audience_of(v).is_some() {
            Seq::empty()
        } else {
            seq![Violation::Schema(SchemaField::Audience, Reason::BadAudience)]
        },
        SchemaField::Description => if v.len() > 0 {
            Seq::empty()
        } else {
            seq![Violation::Schema(SchemaField::Description, Reason::Empty)]
        },
    }
}

/// The violations of field `f` over the whole document: missing, or a bad
/// first value, or declared more than once.
pub open spec fn field_viols(f: SchemaField, ls: Seq<Seq<u8>>) -> Seq<Violation> {
    match first_field_value(f, ls) {
        None => seq![Violation::Schema(f, Reason::Missing)],
        Some(v) => value_viols(f, v) + if field_count(f, ls) > 1 {
            seq![Violation::Schema(f, Reason::Duplicate)]
        } else {
            Seq::empty()
        },
    }
}

/// Every violation of a document's content, in reporting order: the four
/// schema fields in declaration order, then the offending lines in line
/// order.
pub open spec fn content_viols(s: Seq<u8>) -> Seq<Violation> {
    let ls = split_lines(s);
    field_viols(SchemaField::Number, ls) + field_viols(SchemaField::Title, ls) + field_viols(
        SchemaField::Audience,
        ls,
    ) + field_viols(SchemaField::Description, ls) + line_viols(ls)
}

/// The PR number a document declares: the value of its first `number`
/// field, when that value is a valid number.
pub open spec fn declared_number(s: Seq<u8>) -> Option<nat> {
    match first_field_value(SchemaField::Number, split_lines(s)) {
        Some(v) => if valid_number_text(v) {
            Some(digits_value(v))
        } else {
            None
        },
        None => None,
    }
}

/// The title a document declares.
pub open spec fn declared_title(s: Seq<u8>) -> Option<Seq<u8>> {
    first_field_value(SchemaField::Title, split_lines(s))
}

/// The audience a document declares, when its value is one of the
/// enumerated names.
pub open spec fn declared_audience(s: Seq<u8>) -> Option<Audience> {
    match first_field_value(SchemaField::Audience, split_lines(s)) {
        Some(v) => audience_of(v),
        None => None,
    }
}

/// The description a document declares.
pub open spec fn declared_description(s: Seq<u8>) -> Option<Seq<u8>> {
    first_field_value(SchemaField::Description, split_lines(s))
}

/// The typed content of one record.
#[derive(Debug, Clone, PartialEq, Eq)]
pub struct DocFile {
    /// The PR number the content declares.
    pub number: PRNumber,
    /// The record's title: free text, unlike the filename slug.
    pub title: Vec<u8>,
    /// The declared audience classification.
    pub audience: Audience,
    /// The record's description text.
    pub description: Vec<u8>,
}

/// The semantic violations of a typed record: what the schema rejects once
/// the syntax is gone.
pub open spec fn doc_viols(d: DocFile) -> Seq<Violation> {
    (if d.number < 1 {
        seq![Violation::Schema(SchemaField::Number, Reason::BadNumber)]
    } else {
        Seq::empty()
    }) + (if d.title@.len() == 0 {
        seq![Violation::Schema(SchemaField::Title, Reason::Empty)]
    } else {
        Seq::empty()
    }) + (if d.description@.len() == 0 {
        seq![Violation::Schema(SchemaField::Description, Reason::Empty)]
    } else {
        Seq::empty()
    })
}

/// A well-formed record: schema-clean, and its text fields hold no newline,
/// so rendering keeps one field per line.
pub open spec fn wf_doc(d: DocFile) -> bool {
    &&& 1 <= d.number
    &&& d.title@.len() > 0
    &&& d.description@.len() > 0
    &&& forall|i: int| 0 <= i < d.title@.len() ==> d.title@[i] != 10
    &&& forall|i: int| 0 <= i < d.description@.len() ==> d.description@[i] != 10
}

/// One rendered line, `<name>: <value>\n`.
pub open spec fn render_line(name: Seq<u8>, value: Seq<u8>) -> Seq<u8> {
    name + seq![58u8, 32u8] + value + seq![10u8]
}

/// The rendered content of a record: its four fields in schema order, one
/// line each, with a trailing newline.
pub open spec fn render_spec(d: DocFile) -> Seq<u8> {
    render_line(field_name(SchemaField::Number), digits_of(d.number as nat)) + render_line(
        field_name(SchemaField::Title),
        d.title@,
    ) + render_line(field_name(SchemaField::Audience), audience_name(d.audience)) + render_line(
        field_name(SchemaField::Description),
        d.description@,
    )
}

/// The placeholder text marking a field still to be written, `TODO`.
pub open spec fn todo_text() -> Seq<u8> {
    seq![84u8, 79u8, 68u8, 79u8]
}

impl DocFile {
    /// Checks a typed record against the schema; empty exactly when the
    /// record is schema-clean.
    pub fn check(&self) -> (r: Vec<Violation>)
        ensures
            r@ == doc_viols(*self),
    {
        let mut r: Vec<Violation> = Vec::new();
        if self.number < 1 {
            r.push(Violation::Schema(SchemaField::Number, Reason::BadNumber));
        }
        if self.title.len() == 0 {
            r.push(Violation::Schema(SchemaField::Title, Reason::Empty));
        }
        if self.description.len() == 0 {
            r.push(Violation::Schema(SchemaField::Description, Reason::Empty));
        }
        proof {
            assert(r@ =~= doc_viols(*self));
        }
        r
    }

    /// Generates the template record for a fresh PR: the given number, the
    /// title slug or a placeholder, a default audience, and a placeholder
    /// description.  The template always passes the schema's own validation:
    /// `doc_viols` of it is empty.
    pub fn generate(number: PRNumber, title: Option<&Title>) -> (d: DocFile)
        requires
            1 <= number,
            match title {
                Some(t) => t.wf(),
                None => true,
            },
        ensures
            d.number == number,
            d.title@ == match title {
                Some(t) => t@,
                None => todo_text(),
            },
            d.audience == Audience::RuntimeDev,
            d.description@ == todo_text(),
            wf_doc(d),
            doc_viols(d) == Seq::<Violation>::empty(),
    {
        let title_bytes: Vec<u8> = match title {
            Some(t) => t.as_bytes().clone(),
            None => {
                let mut v: Vec<u8> = Vec::new();
                v.push(84);
                v.push(79);
                v.push(68);
                v.push(79);
                proof {
                    assert(v@ =~= todo_text());
                }
                v
            },
        };
        let mut description: Vec<u8> = Vec::new();
        description.push(84);
        description.push(79);
        description.push(68);
        description.push(79);
        proof {
            assert(description@ =~= todo_text());
        }
        let d = DocFile { number, title: title_bytes, audience: Audience::RuntimeDev, description };
        proof {
            assert(doc_viols(d) =~= Seq::<Violation>::empty());
        }
        d
    }

    /// Renders the record as content bytes, one `key: value` line per field.
    pub fn render(&self) -> (r: Vec<u8>)
        ensures
            r@ == render_spec(*self),
    {
        let mut out: Vec<u8> = Vec::new();
        let mut name = field_name_bytes(SchemaField::Number);
        out.append(&mut name);
        out.push(58);
        out.push(32);
        let mut digits = pr_number_digits(self.number);
        out.append(&mut digits);
        out.push(10);
        proof {
            assert(out@ =~= render_line(
                field_name(SchemaField::Number),
                digits_of(self.number as nat),
            ));
        }
        let ghost part1 = out@;

        let mut name = field_name_bytes(SchemaField::Title);
        out.append(&mut name);
        out.push(58);
        out.push(32);
        out.extend_from_slice(self.title.as_slice());
        out.push(10);
        proof {
            assert(out@ =~= part1 + render_line(field_name(SchemaField::Title), self.title@));
        }
        let ghost part2 = out@;

        let mut name = field_name_bytes(SchemaField::Audience);
        out.append(&mut name);
        out.push(58);
        out.push(32);
        let mut aud = audience_name_bytes(self.audience);
        out.append(&mut aud);
        out.push(10);
        proof {
            assert(out@ =~= part2 + render_line(
                field_name(SchemaField::Audience),
                audience_name(self.audience),
            ));
        }
        let ghost part3 = out@;

        let mut name = field_name_bytes(SchemaField::Description);
        out.append(&mut name);
        out.push(58);
        out.push(32);
        out.extend_from_slice(self.description.as_slice());
        out.push(10);
        proof {
            assert(out@ =~= part3 + render_line(
                field_name(SchemaField::Description),
                self.description@,
            ));
            assert(out@ =~= render_spec(*self));
        }
        out
    }
}

/// Splitting takes one newline-free line off the front at its newline.
proof fn lemma_split_prepend(a: Seq<u8>, rest: Seq<u8>)
    requires
        forall|i: int| 0 <= i < a.len() ==> a[i] != 10,
    ensures
        split_lines(a + seq![10u8] + rest) == seq![a] + split_lines(rest),
{
    let s = a + seq![10u8] + rest;
    assert(forall|j: int| 0 <= j < a.len() ==> s[j] == a[j]);
    assert(s[a.len() as int] == 10);
    lemma_first_nl_scan(s, a.len() as int);
    assert(s.take(a.len() as int) =~= a);
    assert(s.skip(a.len() as int + 1) =~= rest);
}

/// A rendered `key: value` line is a pair line with that key and value.
proof fn lemma_pair_line(name: Seq<u8>, value: Seq<u8>)
    requires
        forall|i: int| 0 <= i < name.len() ==> name[i] != 58,
    ensures
        is_pair_line(name + seq![58u8, 32u8] + value),
        line_key(name + seq![58u8, 32u8] + value) == name,
        line_value(name + seq![58u8, 32u8] + value) == value,
{
    let l = name + seq![58u8, 32u8] + value;
    assert(forall|j: int| 0 <= j < name.len() ==> l[j] == name[j]);
    assert(l[name.len() as int] == 58);
    lemma_first_colon_scan(l, name.len() as int);
    assert(l[name.len() as int + 1] == 32);
    assert(l.take(name.len() as int) =~= name);
    assert(l.skip(name.len() as int + 2) =~= value);
}

/// Field names hold neither colon nor newline, and each names its field.
proof fn lemma_field_name_facts(f: SchemaField)
    ensures
        forall|i: int|
            0 <= i < field_name(f).len() ==> #[trigger] field_name(f)[i] != 58 && field_name(f)[i]
                != 10,
        field_of_key(field_name(f)) == Some(f),
{
    assert(field_name(SchemaField::Number).len() == 6);
    assert(field_name(SchemaField::Title).len() == 5);
    assert(field_name(SchemaField::Audience).len() == 8);
    assert(field_name(SchemaField::Description).len() == 11);
}

/// Audience names hold no newline.
proof fn lemma_audience_name_no_nl(a: Audience)
    ensures
        forall|i: int| 0 <= i < audience_name(a).len() ==> #[trigger] audience_name(a)[i] != 10,
{
}

/// Appending one line shifts the extraction by that line.
proof fn lemma_push_line(f: SchemaField, ls: Seq<Seq<u8>>, l: Seq<u8>)
    ensures
        field_count(f, ls.push(l)) == field_count(f, ls) + (if is_field_line(l, f) {
            1nat
        } else {
            0nat
        }),
        first_field_value(f, ls.push(l)) == (match first_field_value(f, ls) {
            Some(v) => Some(v),
            None => if is_field_line(l, f) {
                Some(line_value(l))
            } else {
                None
            },
        }),
        line_viols(ls.push(l)) == line_viols(ls) + line_viol(ls.len() as int, l),
{
    assert(ls.push(l).drop_last() =~= ls);
    assert(ls.push(l).last() == l);
}

/// A field is declared at most once per line.
proof fn lemma_field_count_le(f: SchemaField, ls: Seq<Seq<u8>>)
    ensures
        field_count(f, ls) <= ls.len(),
    decreases ls.len(),
{
    if ls.len() > 0 {
        lemma_field_count_le(f, ls.drop_last());
    }
}

/// Rendering round-trips through parsing: the rendered content of any
/// well-formed record is violation-free, and parsing it back recovers
/// every field.  In particular every generated template passes the
/// schema's content validation.
#[verifier::rlimit(100)]
pub proof fn lemma_render_parses_back(d: DocFile)
    requires
        wf_doc(d),
    ensures
        content_viols(render_spec(d)).len() == 0,
        declared_number(render_spec(d)) == Some(d.number as nat),
        declared_title(render_spec(d)) == Some(d.title@),
        declared_audience(render_spec(d)) == Some(d.audience),
        declared_description(render_spec(d)) == Some(d.description@),
{
    let n1 = field_name(SchemaField::Number);
    let n2 = field_name(SchemaField::Title);
    let n3 = field_name(SchemaField::Audience);
    let n4 = field_name(SchemaField::Description);
    let v1 = digits_of(d.number as nat);
    let v2 = d.title@;
    let v3 = audience_name(d.audience);
    let v4 = d.description@;
    let l1 = n1 + seq![58u8, 32u8] + v1;
    let l2 = n2 + seq![58u8, 32u8] + v2;
    let l3 = n3 + seq![58u8, 32u8] + v3;
    let l4 = n4 + seq![58u8, 32u8] + v4;

    lemma_field_name_facts(SchemaField::Number);
    lemma_field_name_facts(SchemaField::Title);
    lemma_field_name_facts(SchemaField::Audience);
    lemma_field_name_facts(SchemaField::Description);
    lemma_audience_name_no_nl(d.audience);
    crate::schema::lemma_audience_name_round_trip(d.audience);
    lemma_digits_of_all_digits(d.number as nat);
    lemma_digits_value_of(d.number as nat);

    lemma_pair_line(n1, v1);
    lemma_pair_line(n2, v2);
    lemma_pair_line(n3, v3);
    lemma_pair_line(n4, v4);
    assert(is_field_line(l1, SchemaField::Number));
    assert(is_field_line(l2, SchemaField::Title));
    assert(is_field_line(l3, SchemaField::Audience));
    assert(is_field_line(l4, SchemaField::Description));

    assert forall|i: int| 0 <= i < l1.len() implies l1[i] != 10 by {
        if i >= n1.len() + 2 {
            assert(l1[i] == v1[i - n1.len() - 2]);
        }
    }
    assert forall|i: int| 0 <= i < l2.len() implies l2[i] != 10 by {
        if i >= n2.len() + 2 {
            assert(l2[i] == v2[i - n2.len() - 2]);
        }
    }
    assert forall|i: int| 0 <= i < l3.len() implies l3[i] != 10 by {
        if i >= n3.len() + 2 {
            assert(l3[i] == v3[i - n3.len() - 2]);
        }
    }
    assert forall|i: int| 0 <= i < l4.len() implies l4[i] != 10 by {
        if i >= n4.len() + 2 {
            assert(l4[i] == v4[i - n4.len() - 2]);
        }
    }

    let e = Seq::<u8>::empty();
    let r4 = l4 + seq![10u8] + e;
    let r3 = l3 + seq![10u8] + r4;
    let r2 = l2 + seq![10u8] + r3;
    let r1 = l1 + seq![10u8] + r2;
    assert(render_spec(d) =~= r1);
    lemma_split_prepend(l4, e);
    lemma_split_prepend(l3, r4);
    lemma_split_prepend(l2, r3);
    lemma_split_prepend(l1, r2);
    assert(split_lines(e) == seq![e]);
    let ls = seq![l1, l2, l3, l4, e];
    assert(split_lines(r1) =~= ls);
    assert(split_lines(render_spec(d)) == ls);

    let s0 = Seq::<Seq<u8>>::empty();
    let s1 = s0.push(l1);
    let s2 = s1.push(l2);
    let s3 = s2.push(l3);
    let s4 = s3.push(l4);
    let s5 = s4.push(e);
    assert(ls =~= s5);
    assert(!is_pair_line(e));

    lemma_push_line(SchemaField::Number, s0, l1);
    lemma_push_line(SchemaField::Number, s1, l2);
    lemma_push_line(SchemaField::Number, s2, l3);
    lemma_push_line(SchemaField::Number, s3, l4);
    lemma_push_line(SchemaField::Number, s4, e);
    assert(field_count(SchemaField::Number, s5) == 1);
    assert(first_field_value(SchemaField::Number, s5) == Some(v1));

    lemma_push_line(SchemaField::Title, s0, l1);
    lemma_push_line(SchemaField::Title, s1, l2);
    lemma_push_line(SchemaField::Title, s2, l3);
    lemma_push_line(SchemaField::Title, s3, l4);
    lemma_push_line(SchemaField::Title, s4, e);
    assert(field_count(SchemaField::Title, s5) == 1);
    assert(first_field_value(SchemaField::Title, s5) == Some(v2));

    lemma_push_line(SchemaField::Audience, s0, l1);
    lemma_push_line(SchemaField::Audience, s1, l2);
    lemma_push_line(SchemaField::Audience, s2, l3);
    lemma_push_line(SchemaField::Audience, s3, l4);
    lemma_push_line(SchemaField::Audience, s4, e);
    assert(field_count(SchemaField::Audience, s5) == 1);
    assert(first_field_value(SchemaField::Audience, s5) == Some(v3));

    lemma_push_line(SchemaField::Description, s0, l1);
    lemma_push_line(SchemaField::Description, s1, l2);
    lemma_push_line(SchemaField::Description, s2, l3);
    lemma_push_line(SchemaField::Description, s3, l4);
    lemma_push_line(SchemaField::Description, s4, e);
    assert(field_count(SchemaField::Description, s5) == 1);
    assert(first_field_value(SchemaField::Description, s5) == Some(v4));

    assert(line_viols(s5) =~= Seq::<Violation>::empty()) by {
        assert(line_viol(0, l1) =~= Seq::<Violation>::empty());
        assert(line_viol(1, l2) =~= Seq::<Violation>::empty());
        assert(line_viol(2, l3) =~= Seq::<Violation>::empty());
        assert(line_viol(3, l4) =~= Seq::<Violation>::empty());
        assert(line_viol(4, e) =~= Seq::<Violation>::empty());
    }

    assert(valid_number_text(v1));
    assert(field_viols(SchemaField::Number, s5) =~= Seq::<Violation>::empty());
    assert(field_viols(SchemaField::Title, s5) =~= Seq::<Violation>::empty());
    assert(field_viols(SchemaField::Audience, s5) =~= Seq::<Violation>::empty());
    assert(field_viols(SchemaField::Description, s5) =~= Seq::<Violation>::empty());
    assert(content_viols(render_spec(d)) =~= Seq::<Violation>::empty());
}

/// Splits content into its lines; element `i` of the result is line `i`.
fn split_content(content: &Vec<u8>) -> (r: Vec<Vec<u8>>)
    ensures
        r@.len() == split_lines(content@).len(),
        forall|i: int| 0 <= i < r@.len() ==> r@[i]@ == split_lines(content@)[i],
{
    let s = content;
    let mut lines: Vec<Vec<u8>> = Vec::new();
    let ghost mut processed: Seq<Seq<u8>> = Seq::empty();
    let mut p: usize = 0;
    proof {
        assert(s@.skip(0) =~= s@);
    }
    loop
        invariant_except_break
            0 <= p <= s@.len(),
            processed.len() == lines@.len(),
            forall|i: int| 0 <= i < lines@.len() ==> lines@[i]@ == processed[i],
            split_lines(s@) == processed + split_lines(s@.skip(p as int)),
        ensures
            processed.len() == lines@.len(),
            forall|i: int| 0 <= i < lines@.len() ==> lines@[i]@ == processed[i],
            split_lines(s@) == processed,
        decreases s@.len() - p,
    {
        let mut q: usize = p;
        while q < s.len() && s[q] != 10
            invariant
                p <= q <= s@.len(),
                forall|k: int| p <= k < q ==> s@[k] != 10,
            decreases s@.len() - q,
        {
            q = q + 1;
        }
        let mut line: Vec<u8> = Vec::new();
        let mut t: usize = p;
        while t < q
            invariant
                p <= t <= q <= s@.len(),
                line@ == s@.subrange(p as int, t as int),
            decreases q - t,
        {
            line.push(s[t]);
            proof {
                assert(s@.subrange(p as int, t as int + 1) =~= s@.subrange(
                    p as int,
                    t as int,
                ).push(s@[t as int]));
            }
            t = t + 1;
        }
        proof {
            let body = s@.skip(p as int);
            assert(forall|k: int| 0 <= k < q - p ==> body[k] == s@[k + p]);
            if q < s@.len() {
                assert(body[q - p] == s@[q as int]);
            }
            lemma_first_nl_scan(body, q - p);
            if q == s@.len() {
                assert(split_lines(body) == seq![body]);
                assert(line@ =~= body);
            } else {
                assert(split_lines(body) == seq![body.take(q - p)] + split_lines(
                    body.skip(q - p + 1),
                ));
                assert(line@ =~= body.take(q - p));
                assert(body.skip(q - p + 1) =~= s@.skip(q as int + 1));
            }
        }
        lines.push(line);
        proof {
            processed = processed.push(lines@.last()@);
            assert(split_lines(s@) == processed + if q < s@.len() {
                split_lines(s@.skip(q as int + 1))
            } else {
                Seq::<Seq<u8>>::empty()
            }) by {
                if q == s@.len() {
                    assert((processed.drop_last() + seq![processed.last()]) =~= processed);
                } else {
                    assert((processed.drop_last() + (seq![processed.last()] + split_lines(
                        s@.skip(q as int + 1),
                    ))) =~= processed + split_lines(s@.skip(q as int + 1)));
                }
            }
        }
        if q == s.len() {
            proof {
                assert(processed + Seq::<Seq<u8>>::empty() =~= processed);
            }
            break ;
        }
        p = q + 1;
    }
    lines
}

/// What one line of content is: blank, malformed, a known field's
/// declaration, or an unknown key's.
enum LineScan {
    Blank,
    Bad,
    Known(SchemaField, Vec<u8>),
    Unknown,
}

/// Classifies one line of content.
fn scan_line(l: &Vec<u8>) -> (r: LineScan)
    ensures
        match r {
            LineScan::Blank => l@.len() == 0,
            LineScan::Bad => l@.len() > 0 && !is_pair_line(l@),
            LineScan::Known(f, v) => is_field_line(l@, f) && v@ == line_value(l@),
            LineScan::Unknown => is_pair_line(l@) && field_of_key(line_key(l@)).is_none(),
        },
{
    let mut c: usize = 0;
    while c < l.len() && l[c] != 58
        invariant
            0 <= c <= l@.len(),
            forall|k: int| 0 <= k < c ==> l@[k] != 58,
        decreases l@.len() - c,
    {
        c = c + 1;
    }
    proof {
        lemma_first_colon_scan(l@, c as int);
    }
    if l.len() == 0 {
        return LineScan::Blank;
    }
    if c >= l.len() - 1 || l[c + 1] != 32 {
        return LineScan::Bad;
    }
    let mut key: Vec<u8> = Vec::new();
    let mut t: usize = 0;
    while t < c
        invariant
            0 <= t <= c <= l@.len(),
            key@ == l@.subrange(0, t as int),
        decreases c - t,
    {
        key.push(l[t]);
        proof {
            assert(l@.subrange(0, t as int + 1) =~= l@.subrange(0, t as int).push(l@[t as int]));
        }
        t = t + 1;
    }
    proof {
        assert(key@ =~= line_key(l@));
    }
    let mut value: Vec<u8> = Vec::new();
    let mut t: usize = c + 2;
    while t < l.len()
        invariant
            c + 2 <= t <= l@.len(),
            value@ == l@.subrange(c as int + 2, t as int),
        decreases l@.len() - t,
    {
        value.push(l[t]);
        proof {
            assert(l@.subrange(c as int + 2, t as int + 1) =~= l@.subrange(
                c as int + 2,
                t as int,
            ).push(l@[t as int]));
        }
        t = t + 1;
    }
    proof {
        assert(value@ =~= line_value(l@));
        assert(is_pair_line(l@));
    }

    let name = field_name_bytes(SchemaField::Number);
    if bytes_eq(&key, &name) {
        return LineScan::Known(SchemaField::Number, value);
    }
    let name = field_name_bytes(SchemaField::Title);
    if bytes_eq(&key, &name) {
        return LineScan::Known(SchemaField::Title, value);
    }
    let name = field_name_bytes(SchemaField::Audience);
    if bytes_eq(&key, &name) {
        return LineScan::Known(SchemaField::Audience, value);
    }
    let name = field_name_bytes(SchemaField::Description);
    if bytes_eq(&key, &name) {
        return LineScan::Known(SchemaField::Description, value);
    }
    LineScan::Unknown
}

/// What one pass over the lines collects: each field's first value and
/// declaration count, and the line-level violations.
struct FieldScan {
    num_val: Option<Vec<u8>>,
    num_cnt: usize,
    title_val: Option<Vec<u8>>,
    title_cnt: usize,
    aud_val: Option<Vec<u8>>,
    aud_cnt: usize,
    desc_val: Option<Vec<u8>>,
    desc_cnt: usize,
    lviols: Vec<Violation>,
}

/// Scans every line once, collecting first values, counts and line-level
/// violations.
fn scan_lines(lines: &Vec<Vec<u8>>, Ghost(gls): Ghost<Seq<Seq<u8>>>) -> (r: FieldScan)
    requires
        lines@.len() == gls.len(),
        forall|k: int| 0 <= k < lines@.len() ==> lines@[k]@ == gls[k],
    ensures
        r.num_cnt == field_count(SchemaField::Number, gls),
        r.title_cnt == field_count(SchemaField::Title, gls),
        r.aud_cnt == field_count(SchemaField::Audience, gls),
        r.desc_cnt == field_count(SchemaField::Description, gls),
        match r.num_val {
            Some(v) => first_field_value(SchemaField::Number, gls) == Some(v@),
            None => first_field_value(SchemaField::Number, gls).is_none(),
        },
        match r.title_val {
            Some(v) => first_field_value(SchemaField::Title, gls) == Some(v@),
            None => first_field_value(SchemaField::Title, gls).is_none(),
        },
        match r.aud_val {
            Some(v) => first_field_value(SchemaField::Audience, gls) == Some(v@),
            None => first_field_value(SchemaField::Audience, gls).is_none(),
        },
        match r.desc_val {
            Some(v) => first_field_value(SchemaField::Description, gls) == Some(v@),
            None => first_field_value(SchemaField::Description, gls).is_none(),
        },
        r.lviols@ == line_viols(gls),
{
        let mut num_val: Option<Vec<u8>> = None;
        let mut num_cnt: usize = 0;
        let mut title_val: Option<Vec<u8>> = None;
        let mut title_cnt: usize = 0;
        let mut aud_val: Option<Vec<u8>> = None;
        let mut aud_cnt: usize = 0;
        let mut desc_val: Option<Vec<u8>> = None;
        let mut desc_cnt: usize = 0;
        let mut lviols: Vec<Violation> = Vec::new();

        let mut i: usize = 0;
        while i < lines.len()
            invariant
                0 <= i <= lines@.len(),
                lines@.len() == gls.len(),
                forall|k: int| 0 <= k < lines@.len() ==> lines@[k]@ == gls[k],
                num_cnt == field_count(SchemaField::Number, gls.take(i as int)),
                title_cnt == field_count(SchemaField::Title, gls.take(i as int)),
                aud_cnt == field_count(SchemaField::Audience, gls.take(i as int)),
                desc_cnt == field_count(SchemaField::Description, gls.take(i as int)),
                match num_val {
                    Some(v) => first_field_value(SchemaField::Number, gls.take(i as int)) == Some(
                        v@,
                    ),
                    None => first_field_value(SchemaField::Number, gls.take(i as int)).is_none(),
                },
                match title_val {
                    Some(v) => first_field_value(SchemaField::Title, gls.take(i as int)) == Some(
                        v@,
                    ),
                    None => first_field_value(SchemaField::Title, gls.take(i as int)).is_none(),
                },
                match aud_val {
                    Some(v) => first_field_value(SchemaField::Audience, gls.take(i as int)) == Some(
                        v@,
                    ),
                    None => first_field_value(SchemaField::Audience, gls.take(i as int)).is_none(),
                },
                match desc_val {
                    Some(v) => first_field_value(SchemaField::Description, gls.take(i as int))
                        == Some(v@),
                    None => first_field_value(
                        SchemaField::Description,
                        gls.take(i as int),
                    ).is_none(),
                },
                lviols@ == line_viols(gls.take(i as int)),
            decreases lines@.len() - i,
        {
            proof {
                lemma_field_count_le(SchemaField::Number, gls.take(i as int));
                lemma_field_count_le(SchemaField::Title, gls.take(i as int));
                lemma_field_count_le(SchemaField::Audience, gls.take(i as int));
                lemma_field_count_le(SchemaField::Description, gls.take(i as int));
                assert(gls.take(i as int + 1).drop_last() =~= gls.take(i as int));
                assert(gls.take(i as int + 1).last() == gls[i as int]);
            }
            let l = &lines[i];
            match scan_line(l) {
                LineScan::Blank => {
                    proof {
                        assert(line_viol(i as int, gls[i as int]) =~= Seq::<Violation>::empty());
                        assert(lviols@ + Seq::<Violation>::empty() =~= lviols@);
                    }
                },
                LineScan::Bad => {
                    lviols.push(Violation::MalformedLine(i));
                    proof {
                        assert(line_viols(gls.take(i as int + 1)) =~= line_viols(
                            gls.take(i as int),
                        ).push(Violation::MalformedLine(i)));
                    }
                },
                LineScan::Unknown => {
                    lviols.push(Violation::UnknownField(i));
                    proof {
                        assert(line_viols(gls.take(i as int + 1)) =~= line_viols(
                            gls.take(i as int),
                        ).push(Violation::UnknownField(i)));
                    }
                },
                LineScan::Known(f, value) => {
                    if matches!(f, SchemaField::Number) {
                        if num_val.is_none() {
                            num_val = Some(value);
                        }
                        num_cnt = num_cnt + 1;
                    } else if matches!(f, SchemaField::Title) {
                        if title_val.is_none() {
                            title_val = Some(value);
                        }
                        title_cnt = title_cnt + 1;
                    } else if matches!(f, SchemaField::Audience) {
                        if aud_val.is_none() {
                            aud_val = Some(value);
                        }
                        aud_cnt = aud_cnt + 1;
                    } else {
                        if desc_val.is_none() {
                            desc_val = Some(value);
                        }
                        desc_cnt = desc_cnt + 1;
                    }
                    proof {
                        assert(line_viol(i as int, gls[i as int]) =~= Seq::<Violation>::empty());
                        assert(lviols@ + Seq::<Violation>::empty() =~= lviols@);
                    }
                },
            }
            i = i + 1;
        }
        proof {
            assert(gls.take(gls.len() as int) =~= gls);
        }
        FieldScan {
            num_val,
            num_cnt,
            title_val,
            title_cnt,
            aud_val,
            aud_cnt,
            desc_val,
            desc_cnt,
            lviols,
        }
}

/// Appends the `number` field's violations and yields its parsed value.
fn check_number_field(
    viols: &mut Vec<Violation>,
    val: &Option<Vec<u8>>,
    cnt: usize,
    Ghost(gls): Ghost<Seq<Seq<u8>>>,
) -> (r: Option<PRNumber>)
    requires
        match val {
            Some(v) => first_field_value(SchemaField::Number, gls) == Some(v@),
            None => first_field_value(SchemaField::Number, gls).is_none(),
        },
        cnt == field_count(SchemaField::Number, gls),
    ensures
        final(viols)@ == old(viols)@ + field_viols(SchemaField::Number, gls),
        match r {
            Some(n) => match first_field_value(SchemaField::Number, gls) {
                Some(v) => valid_number_text(v) && n == digits_value(v),
                None => false,
            },
            None => match first_field_value(SchemaField::Number, gls) {
                Some(v) => !valid_number_text(v),
                None => true,
            },
        },
{
    let ghost pre = viols@;
    let mut r: Option<PRNumber> = None;
    match val {
        None => {
            viols.push(Violation::Schema(SchemaField::Number, Reason::Missing));
        },
        Some(v) => {
            match parse_pr_number(v) {
                Ok(n) => {
                    r = Some(n);
                },
                Err(_) => {
                    viols.push(Violation::Schema(SchemaField::Number, Reason::BadNumber));
                },
            }
            if cnt > 1 {
                viols.push(Violation::Schema(SchemaField::Number, Reason::Duplicate));
            }
        },
    }
    proof {
        assert(viols@ =~= pre + field_viols(SchemaField::Number, gls));
    }
    r
}

/// Appends a text field's violations (`title` or `description`).
fn check_text_field(
    viols: &mut Vec<Violation>,
    f: SchemaField,
    val: &Option<Vec<u8>>,
    cnt: usize,
    Ghost(gls): Ghost<Seq<Seq<u8>>>,
)
    requires
        f == SchemaField::Title || f == SchemaField::Description,
        match val {
            Some(v) => first_field_value(f, gls) == Some(v@),
            None => first_field_value(f, gls).is_none(),
        },
        cnt == field_count(f, gls),
    ensures
        final(viols)@ == old(viols)@ + field_viols(f, gls),
{
    let ghost pre = viols@;
    match val {
        None => {
            viols.push(Violation::Schema(f, Reason::Missing));
        },
        Some(v) => {
            if v.len() == 0 {
                viols.push(Violation::Schema(f, Reason::Empty));
            }
            if cnt > 1 {
                viols.push(Violation::Schema(f, Reason::Duplicate));
            }
        },
    }
    proof {
        assert(viols@ =~= pre + field_viols(f, gls));
    }
}

/// Appends the `audience` field's violations and yields its parsed value.
fn check_audience_field(
    viols: &mut Vec<Violation>,
    val: &Option<Vec<u8>>,
    cnt: usize,
    Ghost(gls): Ghost<Seq<Seq<u8>>>,
) -> (r: Option<Audience>)
    requires
        match val {
            Some(v) => first_field_value(SchemaField::Audience, gls) == Some(v@),
            None => first_field_value(SchemaField::Audience, gls).is_none(),
        },
        cnt == field_count(SchemaField::Audience, gls),
    ensures
        final(viols)@ == old(viols)@ + field_viols(SchemaField::Audience, gls),
        match r {
            Some(a) => match first_field_value(SchemaField::Audience, gls) {
                Some(v) => audience_of(v) == Some(a),
                None => false,
            },
            None => match first_field_value(SchemaField::Audience, gls) {
                Some(v) => audience_of(v).is_none(),
                None => true,
            },
        },
{
    let ghost pre = viols@;
    let mut r: Option<Audience> = None;
    match val {
        None => {
            viols.push(Violation::Schema(SchemaField::Audience, Reason::Missing));
        },
        Some(v) => {
            match parse_audience(v) {
                Some(a) => {
                    r = Some(a);
                },
                None => {
                    viols.push(Violation::Schema(SchemaField::Audience, Reason::BadAudience));
                },
            }
            if cnt > 1 {
                viols.push(Violation::Schema(SchemaField::Audience, Reason::Duplicate));
            }
        },
    }
    proof {
        assert(viols@ =~= pre + field_viols(SchemaField::Audience, gls));
    }
    r
}

impl DocFile {
    /// Full validation of content bytes: every violation in reporting
    /// order, the declared PR number when one is readable, and the typed
    /// record exactly when there is no violation.
    #[verifier::rlimit(100)]
    pub fn check_content(content: &Vec<u8>) -> (r: (Vec<Violation>, Option<PRNumber>, Option<
        DocFile,
    >))
        ensures
            r.0@ == content_viols(content@),
            match r.1 {
                Some(n) => declared_number(content@) == Some(n as nat),
                None => declared_number(content@).is_none(),
            },
            r.0@.len() == 0 <==> r.2.is_some(),
            match r.2 {
                Some(d) => {
                    &&& declared_number(content@) == Some(d.number as nat)
                    &&& declared_title(content@) == Some(d.title@)
                    &&& declared_audience(content@) == Some(d.audience)
                    &&& declared_description(content@) == Some(d.description@)
                    &&& 1 <= d.number
                    &&& d.title@.len() > 0
                    &&& d.description@.len() > 0
                },
                None => true,
            },
    {
        let lines = split_content(content);
        let ghost gls = split_lines(content@);
        let scan = scan_lines(&lines, Ghost(gls));
        let FieldScan {
            num_val,
            num_cnt,
            title_val,
            title_cnt,
            aud_val,
            aud_cnt,
            desc_val,
            desc_cnt,
            mut lviols,
        } = scan;

        let mut viols: Vec<Violation> = Vec::new();
        let doc_number = check_number_field(&mut viols, &num_val, num_cnt, Ghost(gls));
        check_text_field(&mut viols, SchemaField::Title, &title_val, title_cnt, Ghost(gls));
        let doc_aud = check_audience_field(&mut viols, &aud_val, aud_cnt, Ghost(gls));
        check_text_field(&mut viols, SchemaField::Description, &desc_val, desc_cnt, Ghost(gls));
        viols.append(&mut lviols);
        proof {
            assert(viols@ =~= content_viols(content@));
        }

        if viols.len() == 0 {
            let number = match doc_number {
                Some(n) => n,
                None => {
                    proof {
                        assert(false);
                    }
                    1
                },
            };
            let title = match title_val {
                Some(v) => v,
                None => {
                    proof {
                        assert(false);
                    }
                    Vec::new()
                },
            };
            let audience = match doc_aud {
                Some(a) => a,
                None => {
                    proof {
                        assert(false);
                    }
                    Audience::RuntimeDev
                },
            };
            let description = match desc_val {
                Some(v) => v,
                None => {
                    proof {
                        assert(false);
                    }
                    Vec::new()
                },
            };
            let d = DocFile { number, title, audience, description };
            (viols, doc_number, Some(d))
        } else {
            (viols, doc_number, None)
        }
    }

    /// Parses content into a typed record, or reports every violation of
    /// it: the result is `Ok` exactly when the content is clean.
    pub fn parse(content: &Vec<u8>) -> (r: Result<DocFile, Vec<Violation>>)
        ensures
            match r {
                Ok(d) => {
                    &&& content_viols(content@).len() == 0
                    &&& declared_number(content@) == Some(d.number as nat)
                    &&& declared_title(content@) == Some(d.title@)
                    &&& declared_audience(content@) == Some(d.audience)
                    &&& declared_description(content@) == Some(d.description@)
                    &&& 1 <= d.number
                },
                Err(vs) => {
                    &&& vs@ == content_viols(content@)
                    &&& vs@.len() > 0
                },
            },
    {
        let (viols, _, doc) = Self::check_content(content);
        match doc {
            Some(d) => Ok(d),
            None => Err(viols),
        }
    }
}

} // verus!
