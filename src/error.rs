//! The records and errors that validation produces.
use vstd::prelude::*;

verus! {

/// A fatal error: it stops the file, or the batch, it occurs in.
#[derive(Debug, Clone, PartialEq, Eq)]
pub enum NdJsonError {
    /// Reading or writing a file failed; the text describes why.
    Io(String),
    /// A line of a file failed to parse.
    JsonParse { file: String, line: usize, error: String },
    /// A directory held no NDJSON file; the text names the directory.
    NoFilesFound(String),
    /// The output directory could not be created; the text names it.
    FailedToCreateOutputDir(String),
    /// Walking a directory failed; the text describes why.
    Walkdir(String),
}

/// One line of a file that is not valid JSON.
#[derive(Debug, Clone, PartialEq, Eq)]
pub struct ValidationError {
    /// The file the line belongs to.
    pub file_path: String,
    /// The line's number, counted from 1 over every line of the file.
    pub line_number: usize,
    /// The line as it stands in the file, without its line ending.
    pub line_content: String,
    /// The parser's description of the failure.
    pub error: String,
}

/// A validation error seen as plain values.
pub struct ErrorRecord {
    pub file_path: Seq<char>,
    pub line_number: nat,
    pub line_content: Seq<char>,
    pub error: Seq<char>,
}

impl View for ValidationError {
    type V = ErrorRecord;

    open spec fn view(&self) -> ErrorRecord {
        ErrorRecord {
            file_path: self.file_path@,
            line_number: self.line_number as nat,
            line_content: self.line_content@,
            error: self.error@,
        }
    }
}

/// The views of a sequence of validation errors.
pub open spec fn records(errors: Seq<ValidationError>) -> Seq<ErrorRecord> {
    errors.map_values(|e: ValidationError| e@)
}

/// Counts over a batch of files.
#[derive(Debug, Clone, Copy, PartialEq, Eq, Structural)]
pub struct ValidationSummary {
    /// The number of files in the batch.
    pub total_files: usize,
    /// The number of distinct files that have at least one error.
    pub files_with_errors: usize,
    /// The number of errors over all files.
    pub total_errors: usize,
}

} // verus!
