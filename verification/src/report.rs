//! Validation outcomes: the structured violations a record can exhibit and
//! the per-file reports a validation run aggregates.

use vstd::prelude::*;

verus! {

/// A schema-declared field of a record.
#[derive(Debug, Clone, Copy, PartialEq, Eq, Structural)]
pub enum SchemaField {
    Number,
    Title,
    Audience,
    Description,
}

/// Why a field's declaration violates the schema.
#[derive(Debug, Clone, Copy, PartialEq, Eq, Structural)]
pub enum Reason {
    /// The field does not appear in the content.
    Missing,
    /// The field appears more than once.
    Duplicate,
    /// The field's value is empty.
    Empty,
    /// The value is not a positive integer that fits the number type.
    BadNumber,
    /// The value is not one of the enumerated audiences.
    BadAudience,
}

/// One structured violation found while validating a record.
#[derive(Debug, Clone, Copy, PartialEq, Eq, Structural)]
pub enum Violation {
    /// The filename does not follow the naming convention.
    MalformedFilename,
    /// A field is missing, duplicated, or carries a bad value.
    Schema(SchemaField, Reason),
    /// The line at this index is neither blank nor `key: value`.
    MalformedLine(usize),
    /// The line at this index declares a field the schema does not know.
    UnknownField(usize),
    /// The number declared in the content differs from the one the filename
    /// encodes.
    NumberMismatch,
    /// Another file in the batch encodes the same number.
    DuplicateNumber,
    /// The file could not be read.
    IoFailure,
}

/// The validation outcome for one file: its name and every violation found.
/// The file is valid exactly when `violations` is empty.
#[derive(Debug, Clone, PartialEq, Eq)]
pub struct FileReport {
    /// The filename the outcome is about.
    pub name: Vec<u8>,
    /// Every violation of this file, in reporting order.
    pub violations: Vec<Violation>,
}

impl FileReport {
    /// The file produced no violation.
    pub open spec fn is_valid(&self) -> bool {
        self.violations@.len() == 0
    }

    /// Exec mirror of `is_valid`.
    pub fn valid(&self) -> (r: bool)
        ensures
            r == self.is_valid(),
    {
        self.violations.len() == 0
    }
}

} // verus!
