//! Generating a fresh record: the compute part of the generate command.
//! The shell decides whether the result is printed or saved; writing it to
//! disk, and finding the conventional directory, stay outside.

use vstd::prelude::*;
use crate::common::PRNumber;
use crate::doc_filename::{DocFileName, encode_spec, placeholder_slug, wf_name, name_number};
use crate::docfile::{DocFile, doc_viols, render_spec, todo_text, wf_doc};
use crate::doc_filename::lemma_name_round_trip;
use crate::report::Violation;
use crate::title::Title;

verus! {

/// A freshly generated record, ready to print or save: its identity, its
/// typed content, and both rendered to bytes.
#[derive(Debug, Clone, PartialEq, Eq)]
pub struct GeneratedRecord {
    /// The record's canonical identity.
    pub name: DocFileName,
    /// The template content, typed.
    pub doc: DocFile,
    /// The canonical filename, rendered.
    pub filename: Vec<u8>,
    /// The template content, rendered.
    pub content: Vec<u8>,
}

/// The generate command's core: builds the template record for a PR.
pub struct GenerateCmd;

impl GenerateCmd {
    /// Builds the record for `number` and an optional title: a canonical
    /// filename that decodes back to `number`, and template content that
    /// passes the schema's own validation.
    pub fn build(number: PRNumber, title: Option<&Title>) -> (r: GeneratedRecord)
        requires
            1 <= number,
            match title {
                Some(t) => t.wf(),
                None => true,
            },
        ensures
            r.name.number == number,
            r.name.title@ == match title {
                Some(t) => t@,
                None => placeholder_slug(),
            },
            r.filename@ == encode_spec(number as nat, r.name.title@),
            wf_name(r.filename@),
            name_number(r.filename@) == number as nat,
            r.doc.number == number,
            r.doc.title@ == match title {
                Some(t) => t@,
                None => todo_text(),
            },
            wf_doc(r.doc),
            doc_viols(r.doc) == Seq::<Violation>::empty(),
            r.content@ == render_spec(r.doc),
    {
        let name = DocFileName::new(number, title);
        let filename = name.filename();
        let doc = DocFile::generate(number, title);
        let content = doc.render();
        proof {
            lemma_name_round_trip(number as nat, name.title@);
        }
        GeneratedRecord { name, doc, filename, content }
    }
}

} // verus!
