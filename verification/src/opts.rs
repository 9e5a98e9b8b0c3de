//! The option types the command shell fills in: plain data, one struct per
//! sub-command.  The shell parses arguments into these; the only logic here
//! is resolving the mutually exclusive check targets into one tagged
//! selection.

use vstd::prelude::*;
use crate::common::PRNumber;
use crate::loader::Target;

verus! {

/// Options of the record-generation command.
#[derive(Debug, Clone, PartialEq, Eq)]
pub struct GenOpts {
    /// The PR number the new record documents.
    pub number: PRNumber,
    /// The record's title, if one is given.
    pub title: Option<Vec<u8>>,
    /// Save the record to disk instead of printing it.
    pub save: bool,
    /// Where to save it; the conventional directory when absent.
    pub output_dir: Option<Vec<u8>>,
}

/// Options of the check command: at most one of the three selectors.
#[derive(Debug, Clone, PartialEq, Eq)]
pub struct CheckOpts {
    /// Check this one file.
    pub file: Option<Vec<u8>>,
    /// Check every record of this directory.
    pub directory: Option<Vec<u8>>,
    /// Check the records encoding this number.
    pub number: Option<PRNumber>,
}

/// Options of the scan command.
#[derive(Debug, Clone, PartialEq, Eq)]
pub struct ScanOpts {
    /// The directory to scan.
    pub directory: Vec<u8>,
    /// Scan files regardless of extension.
    pub all: bool,
}

/// Options of the load command.
#[derive(Debug, Clone, PartialEq, Eq)]
pub struct LoadOpts {
    /// The directory to load; the current one when absent.
    pub directory: Option<Vec<u8>>,
}

/// Options of the schema command: none.
#[derive(Debug, Clone, PartialEq, Eq)]
pub struct SchemaOpts {}

/// The sub-commands the shell dispatches on.
#[derive(Debug, Clone, PartialEq, Eq)]
pub enum SubCommand {
    Generate(GenOpts),
    Check(CheckOpts),
    Scan(ScanOpts),
    Load(LoadOpts),
    Schema(SchemaOpts),
}

/// The top-level options.
#[derive(Debug, Clone, PartialEq, Eq)]
pub struct Opts {
    /// Output as structured, machine-readable text.
    pub json: bool,
    /// The chosen sub-command, if any.
    pub subcmd: Option<SubCommand>,
    /// Show version information instead of running a sub-command.
    pub version: bool,
}

impl CheckOpts {
    /// More than one selector is set: the modes are mutually exclusive and
    /// such an invocation is refused.
    pub open spec fn conflicting(&self) -> bool {
        ||| (self.file.is_some() && self.directory.is_some())
        ||| (self.file.is_some() && self.number.is_some())
        ||| (self.directory.is_some() && self.number.is_some())
    }

    /// Resolves the selectors into one tagged target before any validation
    /// work begins: a file when one is named, the records of one number
    /// when one is given, the whole directory otherwise.  Conflicting
    /// selectors yield no target.
    pub fn target(&self) -> (r: Option<Target>)
        ensures
            r.is_some() <==> !self.conflicting(),
            match r {
                Some(t) => match t {
                    Target::File(name) => self.number.is_none() && match self.file {
                        Some(f) => name@ == f@,
                        None => false,
                    },
                    Target::Number(n) => self.number == Some(n) && self.file.is_none(),
                    Target::Directory => self.file.is_none() && self.number.is_none(),
                },
                None => self.conflicting(),
            },
    {
        if self.file.is_some() && self.directory.is_some() {
            return None;
        }
        if self.file.is_some() && self.number.is_some() {
            return None;
        }
        if self.directory.is_some() && self.number.is_some() {
            return None;
        }
        match &self.file {
            Some(f) => {
                let name = f.clone();
                proof {
                    assert(name@ =~= f@);
                }
                Some(Target::File(name))
            },
            None => match &self.number {
                Some(n) => Some(Target::Number(*n)),
                None => Some(Target::Directory),
            },
        }
    }
}

} // verus!
