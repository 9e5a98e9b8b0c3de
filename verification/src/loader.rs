//! Loading a directory of records: target selection, listing, and
//! aggregated validation.
//!
//! The three ways of picking work — one file, a whole directory, one PR
//! number — are a tagged selection, so an invocation can never combine
//! them.  The I/O shell enumerates the directory and reads each file; this
//! module does everything after that.  A file whose name fails decoding is
//! reported, never silently skipped.

use vstd::prelude::*;
use crate::common::PRNumber;
use crate::doc_filename::{DocFileName, name_number, name_title, wf_name};
use crate::report::{FileReport, Violation};
use crate::schema::bytes_eq;
use crate::validator::{
    FileEntry, check_one, decode_numbers, file_viols, num_entry_ok, ValidationReport,
};

verus! {

/// Failure to read a directory at all.  Per-file read failures are not
/// this: they become an `IoFailure` violation of that one file.
#[derive(Debug, Clone, Copy, PartialEq, Eq, Structural)]
pub enum LoadError {
    /// The directory does not exist.
    DirectoryNotFound,
    /// The directory exists but could not be read.
    IoFailure,
}

/// What one invocation works on: a single file, every file of the
/// directory, or the files encoding one PR number.  The variants are
/// mutually exclusive by construction.
#[derive(Debug, Clone, PartialEq, Eq)]
pub enum Target {
    /// The one file with this name.
    File(Vec<u8>),
    /// Every file of the directory.
    Directory,
    /// Every file whose name encodes this number.
    Number(PRNumber),
}

/// Entry `e` falls under target `t`.
pub open spec fn matches_target(e: FileEntry, t: Target) -> bool {
    match t {
        Target::File(name) => e.name@ == name@,
        Target::Directory => true,
        Target::Number(n) => wf_name(e.name@) && name_number(e.name@) == n as nat,
    }
}

/// The indices of the entries falling under `t`, in order.
pub open spec fn selected_idxs(files: Seq<FileEntry>, t: Target) -> Seq<int>
    decreases files.len(),
{
    if files.len() == 0 {
        Seq::empty()
    } else {
        selected_idxs(files.drop_last(), t) + if matches_target(files.last(), t) {
            seq![files.len() - 1]
        } else {
            Seq::empty()
        }
    }
}

/// Another entry under the same target shares entry `i`'s number.
pub open spec fn sel_dup(files: Seq<FileEntry>, t: Target, i: int) -> bool {
    exists|j: int|
        0 <= j < files.len() && j != i && matches_target(files[j], t) && wf_name(files[i].name@)
            && wf_name(files[j].name@) && name_number(files[j].name@) == name_number(
            files[i].name@,
        )
}

/// Every violation of selected entry `i`: its own, then the duplicate mark
/// judged among the selected entries alone.
pub open spec fn sel_viols(files: Seq<FileEntry>, t: Target, i: int) -> Seq<Violation> {
    file_viols(files[i]) + if sel_dup(files, t, i) {
        seq![Violation::DuplicateNumber]
    } else {
        Seq::empty()
    }
}

/// Report entry `k` of a load is right about the `k`-th selected file.
pub open spec fn sel_entry_ok(
    out: Seq<FileReport>,
    files: Seq<FileEntry>,
    t: Target,
    idxs: Seq<int>,
    k: int,
) -> bool {
    &&& 0 <= idxs[k] < files.len()
    &&& out[k].name@ == files[idxs[k]].name@
    &&& out[k].violations@ == sel_viols(files, t, idxs[k])
}

/// The indices of the entries whose names decode, in order.
pub open spec fn decodable_idxs(files: Seq<FileEntry>) -> Seq<int>
    decreases files.len(),
{
    if files.len() == 0 {
        Seq::empty()
    } else {
        decodable_idxs(files.drop_last()) + if wf_name(files.last().name@) {
            seq![files.len() - 1]
        } else {
            Seq::empty()
        }
    }
}

/// The indices of the entries whose names do not decode, in order.
pub open spec fn undecodable_idxs(files: Seq<FileEntry>) -> Seq<int>
    decreases files.len(),
{
    if files.len() == 0 {
        Seq::empty()
    } else {
        undecodable_idxs(files.drop_last()) + if !wf_name(files.last().name@) {
            seq![files.len() - 1]
        } else {
            Seq::empty()
        }
    }
}

/// Listed identity `k` is the decoded name of the `k`-th decodable file.
pub open spec fn listed_ok(
    names: Seq<DocFileName>,
    files: Seq<FileEntry>,
    idxs: Seq<int>,
    k: int,
) -> bool {
    &&& 0 <= idxs[k] < files.len()
    &&& wf_name(files[idxs[k]].name@)
    &&& names[k].number as nat == name_number(files[idxs[k]].name@)
    &&& names[k].title@ == name_title(files[idxs[k]].name@)
}

/// Listing report `k` marks the `k`-th undecodable file, and only as such.
pub open spec fn list_bad_ok(
    reps: Seq<FileReport>,
    files: Seq<FileEntry>,
    idxs: Seq<int>,
    k: int,
) -> bool {
    &&& 0 <= idxs[k] < files.len()
    &&& reps[k].name@ == files[idxs[k]].name@
    &&& reps[k].violations@ == seq![Violation::MalformedFilename]
}

/// Whether an entry falls under a target.
fn matches_target_exec(e: &FileEntry, t: &Target) -> (r: bool)
    ensures
        r == matches_target(*e, *t),
{
    match t {
        Target::File(name) => bytes_eq(&e.name, name),
        Target::Directory => true,
        Target::Number(n) => match DocFileName::decode(&e.name) {
            Ok(d) => d.number == *n,
            Err(_) => false,
        },
    }
}

/// Whether another selected entry shares entry `i`'s number.
fn find_sel_dup(
    nums: &Vec<Option<PRNumber>>,
    mask: &Vec<bool>,
    i: usize,
    Ghost(files): Ghost<Seq<FileEntry>>,
    Ghost(t): Ghost<Target>,
) -> (r: bool)
    requires
        nums@.len() == files.len(),
        mask@.len() == files.len(),
        0 <= i < files.len(),
        forall|k: int| 0 <= k < files.len() ==> num_entry_ok(nums@, files, k),
        forall|k: int| 0 <= k < files.len() ==> mask@[k] == matches_target(files[k], t),
    ensures
        r == sel_dup(files, t, i as int),
{
    proof {
        assert(num_entry_ok(nums@, files, i as int));
    }
    let mine = match nums[i] {
        Some(n) => n,
        None => {
            return false;
        },
    };
    let mut j: usize = 0;
    while j < nums.len()
        invariant
            0 <= j <= files.len(),
            nums@.len() == files.len(),
            mask@.len() == files.len(),
            i < files.len(),
            wf_name(files[i as int].name@),
            mine as nat == name_number(files[i as int].name@),
            forall|k: int| 0 <= k < files.len() ==> num_entry_ok(nums@, files, k),
            forall|k: int| 0 <= k < files.len() ==> mask@[k] == matches_target(files[k], t),
            forall|k: int|
                0 <= k < j ==> !(k != i && matches_target(files[k], t) && wf_name(files[k].name@)
                    && name_number(files[k].name@) == name_number(files[i as int].name@)),
        decreases files.len() - j,
    {
        proof {
            assert(num_entry_ok(nums@, files, j as int));
        }
        if j != i && mask[j] {
            match nums[j] {
                Some(n) => if n == mine {
                    assert(sel_dup(files, t, i as int)) by {
                        assert(matches_target(files[j as int], t) && wf_name(files[j as int].name@)
                            && name_number(files[j as int].name@) == name_number(
                            files[i as int].name@,
                        ));
                    }
                    return true;
                },
                None => {},
            }
        }
        j = j + 1;
    }
    false
}

/// The loader: picks the files a target names out of a directory listing
/// and validates them, or lists the directory's identities without content
/// validation.
pub struct Loader;

impl Loader {
    /// Validates the entries the target selects, in input order: report
    /// `k` is about the `k`-th selected entry and holds exactly its
    /// violations, the duplicate-number check judged among the selected
    /// entries alone.
    pub fn load(files: &Vec<FileEntry>, target: &Target) -> (r: ValidationReport)
        ensures
            r.files@.len() == selected_idxs(files@, *target).len(),
            forall|k: int|
                0 <= k < r.files@.len() ==> sel_entry_ok(
                    r.files@,
                    files@,
                    *target,
                    selected_idxs(files@, *target),
                    k,
                ),
    {
        let nums = decode_numbers(files);
        let mut mask: Vec<bool> = Vec::new();
        let mut i: usize = 0;
        while i < files.len()
            invariant
                0 <= i <= files@.len(),
                mask@.len() == i,
                forall|k: int| 0 <= k < i ==> mask@[k] == matches_target(files@[k], *target),
            decreases files@.len() - i,
        {
            let m = matches_target_exec(&files[i], target);
            mask.push(m);
            i = i + 1;
        }

        let mut out: Vec<FileReport> = Vec::new();
        let mut i: usize = 0;
        while i < files.len()
            invariant
                0 <= i <= files@.len(),
                nums@.len() == files@.len(),
                mask@.len() == files@.len(),
                forall|k: int| 0 <= k < files@.len() ==> num_entry_ok(nums@, files@, k),
                forall|k: int| 0 <= k < files@.len() ==> mask@[k] == matches_target(files@[k], *target),
                out@.len() == selected_idxs(files@.take(i as int), *target).len(),
                forall|k: int|
                    0 <= k < out@.len() ==> sel_entry_ok(
                        out@,
                        files@,
                        *target,
                        selected_idxs(files@.take(i as int), *target),
                        k,
                    ),
            decreases files@.len() - i,
        {
            let ghost pidxs = selected_idxs(files@.take(i as int), *target);
            proof {
                assert(files@.take(i as int + 1).drop_last() =~= files@.take(i as int));
                assert(files@.take(i as int + 1).last() == files@[i as int]);
            }
            let ghost nidxs = selected_idxs(files@.take(i as int + 1), *target);
            if mask[i] {
                let mut vs = check_one(&files[i]);
                if find_sel_dup(&nums, &mask, i, Ghost(files@), Ghost(*target)) {
                    vs.push(Violation::DuplicateNumber);
                    proof {
                        assert(vs@ =~= sel_viols(files@, *target, i as int));
                    }
                } else {
                    proof {
                        assert(vs@ + Seq::<Violation>::empty() =~= vs@);
                        assert(vs@ =~= sel_viols(files@, *target, i as int));
                    }
                }
                let name = files[i].name.clone();
                proof {
                    assert(name@ =~= files@[i as int].name@);
                }
                let ghost gname = name@;
                let ghost gvs = vs@;
                let ghost prev_out = out@;
                out.push(FileReport { name, violations: vs });
                proof {
                    assert(nidxs =~= pidxs + seq![i as int]);
                    assert(out@.last().name@ == gname);
                    assert(out@.last().violations@ == gvs);
                    assert forall|k: int| 0 <= k < out@.len() implies sel_entry_ok(
                        out@,
                        files@,
                        *target,
                        nidxs,
                        k,
                    ) by {
                        if k < prev_out.len() {
                            assert(out@[k] == prev_out[k]);
                            assert(nidxs[k] == pidxs[k]);
                            assert(sel_entry_ok(prev_out, files@, *target, pidxs, k));
                        } else {
                            assert(out@[k] == out@.last());
                            assert(nidxs[k] == i as int);
                        }
                    }
                }
            } else {
                proof {
                    assert(nidxs =~= pidxs + Seq::<int>::empty());
                    assert(nidxs =~= pidxs);
                    assert forall|k: int| 0 <= k < out@.len() implies sel_entry_ok(
                        out@,
                        files@,
                        *target,
                        nidxs,
                        k,
                    ) by {
                        assert(sel_entry_ok(out@, files@, *target, pidxs, k));
                    }
                }
            }
            i = i + 1;
        }
        proof {
            assert(files@.take(files@.len() as int) =~= files@);
        }
        ValidationReport { files: out }
    }

    /// Lists a directory's records without content validation: the decoded
    /// identity of every well-named file, and a malformed-filename report
    /// for every other.  An empty directory yields an empty collection and
    /// zero violations.
    pub fn list(files: &Vec<FileEntry>) -> (r: (Vec<DocFileName>, Vec<FileReport>))
        ensures
            r.0@.len() == decodable_idxs(files@).len(),
            forall|k: int|
                0 <= k < r.0@.len() ==> listed_ok(r.0@, files@, decodable_idxs(files@), k),
            r.1@.len() == undecodable_idxs(files@).len(),
            forall|k: int|
                0 <= k < r.1@.len() ==> list_bad_ok(r.1@, files@, undecodable_idxs(files@), k),
            files@.len() == 0 ==> r.0@.len() == 0 && r.1@.len() == 0,
    {
        let mut names: Vec<DocFileName> = Vec::new();
        let mut bad: Vec<FileReport> = Vec::new();
        let mut i: usize = 0;
        while i < files.len()
            invariant
                0 <= i <= files@.len(),
                names@.len() == decodable_idxs(files@.take(i as int)).len(),
                forall|k: int|
                    0 <= k < names@.len() ==> listed_ok(
                        names@,
                        files@,
                        decodable_idxs(files@.take(i as int)),
                        k,
                    ),
                bad@.len() == undecodable_idxs(files@.take(i as int)).len(),
                forall|k: int|
                    0 <= k < bad@.len() ==> list_bad_ok(
                        bad@,
                        files@,
                        undecodable_idxs(files@.take(i as int)),
                        k,
                    ),
            decreases files@.len() - i,
        {
            let ghost pgood = decodable_idxs(files@.take(i as int));
            let ghost pbad = undecodable_idxs(files@.take(i as int));
            proof {
                assert(files@.take(i as int + 1).drop_last() =~= files@.take(i as int));
                assert(files@.take(i as int + 1).last() == files@[i as int]);
            }
            let ghost ngood = decodable_idxs(files@.take(i as int + 1));
            let ghost nbad = undecodable_idxs(files@.take(i as int + 1));
            match DocFileName::decode(&files[i].name) {
                Ok(d) => {
                    let ghost prev = names@;
                    names.push(d);
                    proof {
                        assert(ngood =~= pgood + seq![i as int]);
                        assert(nbad =~= pbad + Seq::<int>::empty());
                        assert(nbad =~= pbad);
                        assert forall|k: int| 0 <= k < names@.len() implies listed_ok(
                            names@,
                            files@,
                            ngood,
                            k,
                        ) by {
                            if k < prev.len() {
                                assert(names@[k] == prev[k]);
                                assert(ngood[k] == pgood[k]);
                                assert(listed_ok(prev, files@, pgood, k));
                            } else {
                                assert(names@[k] == names@.last());
                                assert(ngood[k] == i as int);
                            }
                        }
                        assert forall|k: int| 0 <= k < bad@.len() implies list_bad_ok(
                            bad@,
                            files@,
                            nbad,
                            k,
                        ) by {
                            assert(list_bad_ok(bad@, files@, pbad, k));
                        }
                    }
                },
                Err(_) => {
                    let name = files[i].name.clone();
                    proof {
                        assert(name@ =~= files@[i as int].name@);
                    }
                    let mut vs: Vec<Violation> = Vec::new();
                    vs.push(Violation::MalformedFilename);
                    proof {
                        assert(vs@ =~= seq![Violation::MalformedFilename]);
                    }
                    let ghost gname = name@;
                    let ghost gvs = vs@;
                    let ghost prev = bad@;
                    bad.push(FileReport { name, violations: vs });
                    proof {
                        assert(nbad =~= pbad + seq![i as int]);
                        assert(ngood =~= pgood + Seq::<int>::empty());
                        assert(ngood =~= pgood);
                        assert(bad@.last().name@ == gname);
                        assert(bad@.last().violations@ == gvs);
                        assert forall|k: int| 0 <= k < bad@.len() implies list_bad_ok(
                            bad@,
                            files@,
                            nbad,
                            k,
                        ) by {
                            if k < prev.len() {
                                assert(bad@[k] == prev[k]);
                                assert(nbad[k] == pbad[k]);
                                assert(list_bad_ok(prev, files@, pbad, k));
                            } else {
                                assert(bad@[k] == bad@.last());
                                assert(nbad[k] == i as int);
                            }
                        }
                        assert forall|k: int| 0 <= k < names@.len() implies listed_ok(
                            names@,
                            files@,
                            ngood,
                            k,
                        ) by {
                            assert(listed_ok(names@, files@, pgood, k));
                        }
                    }
                },
            }
            i = i + 1;
        }
        proof {
            assert(files@.take(files@.len() as int) =~= files@);
        }
        (names, bad)
    }
}

} // verus!
