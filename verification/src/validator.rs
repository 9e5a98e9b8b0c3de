//! Batch validation: one file's name against its content, and a whole
//! batch against duplicate PR numbers.
//!
//! Per-file checks are independent; the duplicate-number check is a
//! batch-level violation and marks *every* file sharing a number.  A batch
//! with violations still yields a complete report: validation never aborts
//! a run.

use vstd::prelude::*;
use crate::common::PRNumber;
use crate::doc_filename::{DocFileName, name_number, wf_name};
use crate::docfile::{DocFile, content_viols, declared_number, wf_doc};
use crate::report::{FileReport, Violation};

verus! {

/// One candidate file handed to the validator: its name and its content,
/// or no content where reading the file failed.
#[derive(Debug, Clone, PartialEq, Eq)]
pub struct FileEntry {
    /// The file's name, as it stands in the directory.
    pub name: Vec<u8>,
    /// The file's bytes; `None` records that the file could not be read.
    pub content: Option<Vec<u8>>,
}

/// The number-mismatch violation of one file: present exactly when the
/// content declares a readable number different from the one the filename
/// encodes.
pub open spec fn mismatch_viols(e: FileEntry) -> Seq<Violation> {
    match e.content {
        Some(c) => match declared_number(c@) {
            Some(n) => if n != name_number(e.name@) {
                seq![Violation::NumberMismatch]
            } else {
                Seq::empty()
            },
            None => Seq::empty(),
        },
        None => Seq::empty(),
    }
}

/// Every violation of one file on its own: a malformed name stops further
/// checks for that file; otherwise the content's violations plus a
/// number mismatch, and an unreadable file is one `IoFailure`.
pub open spec fn file_viols(e: FileEntry) -> Seq<Violation> {
    if !wf_name(e.name@) {
        seq![Violation::MalformedFilename]
    } else {
        match e.content {
            None => seq![Violation::IoFailure],
            Some(c) => content_viols(c@) + mismatch_viols(e),
        }
    }
}

/// Some other file of the batch encodes the same PR number as file `i`.
pub open spec fn has_dup(files: Seq<FileEntry>, i: int) -> bool {
    exists|j: int|
        0 <= j < files.len() && j != i && wf_name(files[i].name@) && wf_name(files[j].name@)
            && name_number(files[j].name@) == name_number(files[i].name@)
}

/// Every violation of file `i` within the batch: its own, then the
/// batch-level duplicate.
pub open spec fn batch_viols(files: Seq<FileEntry>, i: int) -> Seq<Violation> {
    file_viols(files[i]) + if has_dup(files, i) {
        seq![Violation::DuplicateNumber]
    } else {
        Seq::empty()
    }
}

/// A generated record validates clean: a file whose name is the canonical
/// encoding of a well-formed record's number and whose content is that
/// record's rendering has no violation at all — saving a generated record
/// and checking that same file reports nothing.
pub proof fn lemma_generated_record_valid(d: DocFile, slug: Seq<u8>, e: FileEntry)
    requires
        wf_doc(d),
        e.name@ == crate::doc_filename::encode_spec(d.number as nat, slug),
        match e.content {
            Some(c) => c@ == crate::docfile::render_spec(d),
            None => false,
        },
    ensures
        file_viols(e).len() == 0,
{
    crate::doc_filename::lemma_name_round_trip(d.number as nat, slug);
    crate::docfile::lemma_render_parses_back(d);
    assert(content_viols(e.content.unwrap()@) + mismatch_viols(e) =~= Seq::<Violation>::empty());
}

/// A number mismatch is reported exactly on top of the content's own
/// violations: a well-named file whose content declares a different number
/// gets `NumberMismatch` and nothing else beyond what the content earns.
pub proof fn lemma_number_mismatch_reported(e: FileEntry, c: Vec<u8>, n: nat)
    requires
        e.content == Some(c),
        wf_name(e.name@),
        declared_number(c@) == Some(n),
        n != name_number(e.name@),
    ensures
        file_viols(e) == content_viols(c@) + seq![Violation::NumberMismatch],
{
}

/// Duplicate numbers are a batch-level violation: when two distinct files
/// of a batch encode the same PR number, the batch marks *both* with
/// `DuplicateNumber`, and neither file is reported valid.
pub proof fn lemma_duplicate_number_reported(files: Seq<FileEntry>, i: int, j: int)
    requires
        0 <= i < files.len(),
        0 <= j < files.len(),
        i != j,
        wf_name(files[i].name@),
        wf_name(files[j].name@),
        name_number(files[i].name@) == name_number(files[j].name@),
    ensures
        batch_viols(files, i).contains(Violation::DuplicateNumber),
        batch_viols(files, j).contains(Violation::DuplicateNumber),
        batch_viols(files, i).len() > 0,
        batch_viols(files, j).len() > 0,
{
    assert(has_dup(files, i)) by {
        assert(0 <= j < files.len() && j != i && wf_name(files[i].name@) && wf_name(
            files[j].name@,
        ) && name_number(files[j].name@) == name_number(files[i].name@));
    }
    assert(has_dup(files, j)) by {
        assert(0 <= i < files.len() && i != j && wf_name(files[j].name@) && wf_name(
            files[i].name@,
        ) && name_number(files[i].name@) == name_number(files[j].name@));
    }
    let vi = batch_viols(files, i);
    assert(vi[vi.len() - 1] == Violation::DuplicateNumber);
    assert(vi.contains(Violation::DuplicateNumber));
    let vj = batch_viols(files, j);
    assert(vj[vj.len() - 1] == Violation::DuplicateNumber);
    assert(vj.contains(Violation::DuplicateNumber));
}

/// The aggregated outcome of one validation run: one report per file, in
/// input order.
#[derive(Debug, Clone, PartialEq, Eq)]
pub struct ValidationReport {
    /// One entry per candidate file.
    pub files: Vec<FileReport>,
}

impl ValidationReport {
    /// No file produced a violation.
    pub open spec fn spec_all_valid(&self) -> bool {
        forall|i: int| 0 <= i < self.files@.len() ==> self.files@[i].violations@.len() == 0
    }

    /// Whether every file of the run is valid.
    pub fn all_valid(&self) -> (r: bool)
        ensures
            r == self.spec_all_valid(),
    {
        let mut i: usize = 0;
        while i < self.files.len()
            invariant
                0 <= i <= self.files@.len(),
                forall|k: int| 0 <= k < i ==> self.files@[k].violations@.len() == 0,
            decreases self.files@.len() - i,
        {
            if self.files[i].violations.len() > 0 {
                return false;
            }
            i = i + 1;
        }
        true
    }
}

/// Entry `k` of the decoded-number table is right about file `k`.
pub open spec fn num_entry_ok(nums: Seq<Option<PRNumber>>, files: Seq<FileEntry>, k: int) -> bool {
    match nums[k] {
        Some(n) => wf_name(files[k].name@) && n as nat == name_number(files[k].name@),
        None => !wf_name(files[k].name@),
    }
}

/// Checks one file on its own: name, content, and their cross-check.
pub(crate) fn check_one(e: &FileEntry) -> (vs: Vec<Violation>)
    ensures
        vs@ == file_viols(*e),
{
    match DocFileName::decode(&e.name) {
        Err(_) => {
            let mut vs: Vec<Violation> = Vec::new();
            vs.push(Violation::MalformedFilename);
            proof {
                assert(vs@ =~= file_viols(*e));
            }
            vs
        },
        Ok(d) => {
            match &e.content {
                None => {
                    let mut vs: Vec<Violation> = Vec::new();
                    vs.push(Violation::IoFailure);
                    proof {
                        assert(vs@ =~= file_viols(*e));
                    }
                    vs
                },
                Some(c) => {
                    let (mut vs, declared, _) = DocFile::check_content(c);
                    match declared {
                        Some(n) => if n != d.number {
                            vs.push(Violation::NumberMismatch);
                        },
                        None => {},
                    }
                    proof {
                        assert(vs@ =~= file_viols(*e));
                    }
                    vs
                },
            }
        },
    }
}

/// Decodes every filename up front: entry `i` holds the number file `i`
/// encodes, where its name is well formed.
pub(crate) fn decode_numbers(files: &Vec<FileEntry>) -> (nums: Vec<Option<PRNumber>>)
    ensures
        nums@.len() == files@.len(),
        forall|k: int| 0 <= k < files@.len() ==> num_entry_ok(nums@, files@, k),
{
    let mut nums: Vec<Option<PRNumber>> = Vec::new();
    let mut i: usize = 0;
    while i < files.len()
        invariant
            0 <= i <= files@.len(),
            nums@.len() == i,
            forall|k: int| 0 <= k < i ==> num_entry_ok(nums@, files@, k),
        decreases files@.len() - i,
    {
        let ghost prev = nums@;
        match DocFileName::decode(&files[i].name) {
            Ok(d) => nums.push(Some(d.number)),
            Err(_) => nums.push(None),
        }
        proof {
            assert forall|k: int| 0 <= k < i + 1 implies num_entry_ok(nums@, files@, k) by {
                if k < i {
                    assert(nums@[k] == prev[k]);
                    assert(num_entry_ok(prev, files@, k));
                }
            }
        }
        i = i + 1;
    }
    nums
}

/// Whether some other file of the batch shares file `i`'s number.
fn find_dup(nums: &Vec<Option<PRNumber>>, i: usize, Ghost(files): Ghost<Seq<FileEntry>>) -> (r:
    bool)
    requires
        nums@.len() == files.len(),
        0 <= i < files.len(),
        forall|k: int| 0 <= k < files.len() ==> num_entry_ok(nums@, files, k),
    ensures
        r == has_dup(files, i as int),
{
    proof {
        assert(num_entry_ok(nums@, files, i as int));
    }
    let mine = match nums[i] {
        Some(n) => n,
        None => {
            return false;
        },
    };
    let mut j: usize = 0;
    while j < nums.len()
        invariant
            0 <= j <= files.len(),
            nums@.len() == files.len(),
            i < files.len(),
            wf_name(files[i as int].name@),
            mine as nat == name_number(files[i as int].name@),
            forall|k: int| 0 <= k < files.len() ==> num_entry_ok(nums@, files, k),
            forall|k: int|
                0 <= k < j ==> !(k != i && wf_name(files[k].name@) && name_number(files[k].name@)
                    == name_number(files[i as int].name@)),
        decreases files.len() - j,
    {
        proof {
            assert(num_entry_ok(nums@, files, j as int));
        }
        if j != i {
            match nums[j] {
                Some(n) => if n == mine {
                    assert(has_dup(files, i as int)) by {
                        assert(wf_name(files[j as int].name@) && name_number(files[j as int].name@)
                            == name_number(files[i as int].name@));
                    }
                    return true;
                },
                None => {},
            }
        }
        j = j + 1;
    }
    false
}

/// Report entry `k` is correct about file `k` of the batch.
spec fn report_entry_ok(out: Seq<FileReport>, files: Seq<FileEntry>, k: int) -> bool {
    out[k].name@ == files[k].name@ && out[k].violations@ == batch_viols(files, k)
}

/// The validator: checks a batch of candidate files against the schema,
/// the naming convention, and each other.  It never mutates what it
/// inspects, and a batch full of violations is still a completed run.
pub struct Validator;

impl Validator {
    /// Validates the whole batch: report `i` is about file `i` and holds
    /// exactly its violations, per-file ones first, then the batch-level
    /// duplicate-number mark.
    pub fn validate(files: &Vec<FileEntry>) -> (r: ValidationReport)
        ensures
            r.files@.len() == files@.len(),
            forall|i: int| 0 <= i < files@.len() ==> r.files@[i].name@ == files@[i].name@,
            forall|i: int|
                0 <= i < files@.len() ==> r.files@[i].violations@ == batch_viols(files@, i),
    {
        let nums = decode_numbers(files);
        let mut out: Vec<FileReport> = Vec::new();
        let mut i: usize = 0;
        while i < files.len()
            invariant
                0 <= i <= files@.len(),
                nums@.len() == files@.len(),
                forall|k: int| 0 <= k < files@.len() ==> num_entry_ok(nums@, files@, k),
                out@.len() == i,
                forall|k: int| 0 <= k < i ==> report_entry_ok(out@, files@, k),
            decreases files@.len() - i,
        {
            let mut vs = check_one(&files[i]);
            if find_dup(&nums, i, Ghost(files@)) {
                vs.push(Violation::DuplicateNumber);
                proof {
                    assert(vs@ =~= batch_viols(files@, i as int));
                }
            } else {
                proof {
                    assert(vs@ + Seq::<Violation>::empty() =~= vs@);
                    assert(vs@ =~= batch_viols(files@, i as int));
                }
            }
            let name = files[i].name.clone();
            proof {
                assert(name@ =~= files@[i as int].name@);
            }
            let ghost gname = name@;
            let ghost gvs = vs@;
            let ghost prev_out = out@;
            out.push(FileReport { name, violations: vs });
            proof {
                assert(out@.last().name@ == gname);
                assert(out@.last().violations@ == gvs);
                assert(gvs == batch_viols(files@, i as int));
                assert forall|k: int| 0 <= k < i + 1 implies report_entry_ok(out@, files@, k) by {
                    if k < i {
                        assert(out@[k] == prev_out[k]);
                        assert(report_entry_ok(prev_out, files@, k));
                    } else {
                        assert(out@[k] == out@.last());
                    }
                }
            }
            i = i + 1;
        }
        let rep = ValidationReport { files: out };
        proof {
            assert forall|k: int| 0 <= k < files@.len() implies rep.files@[k].name@
                == files@[k].name@ by {
                assert(report_entry_ok(rep.files@, files@, k));
            }
            assert forall|k: int| 0 <= k < files@.len() implies rep.files@[k].violations@
                == batch_viols(files@, k) by {
                assert(report_entry_ok(rep.files@, files@, k));
            }
        }
        rep
    }
}

} // verus!
