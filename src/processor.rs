//! The processor: one file under a configuration.
use vstd::prelude::*;

use crate::cleaner::{clean_content, cleaned, invalid_line_numbers};
use crate::config::ValidatorConfig;
use crate::error::{records, ValidationError};
use crate::syntax::Backend;
use crate::validator::{file_errors, validate_content};

verus! {

/// What is to become of a file's cleaned copy.
#[derive(Debug, Clone, PartialEq, Eq)]
pub enum CleanAction {
    /// Cleaning is off: nothing is written.
    Skip,
    /// The cleaned copy is to hold this text.
    Write(String),
    /// No line is left: no cleaned copy is to stand.
    Remove,
}

/// The outcome of processing one file.
#[derive(Debug, Clone, PartialEq, Eq)]
pub struct FileReport {
    /// The file's errors, in line order.
    pub errors: Vec<ValidationError>,
    /// What to do with the file's cleaned copy.
    pub action: CleanAction,
}

/// Validates the text `content` of the file `file_path` and, when `config`
/// asks for cleaning, works out the cleaned copy. The errors are those that
/// validation alone gives; a file with no error is copied whole.
pub fn process_content(
    file_path: &str,
    content: &str,
    config: &ValidatorConfig,
    backend: Backend,
) -> (r: FileReport)
    ensures
        records(r.errors@) == file_errors(file_path@, content@, backend),
        match r.action {
            CleanAction::Skip => !config.cleans(),
            CleanAction::Write(text) => config.cleans() && cleaned(
                content@,
                invalid_line_numbers(r.errors@),
            ) == Some(text@),
            CleanAction::Remove => config.cleans() && cleaned(
                content@,
                invalid_line_numbers(r.errors@),
            ) is None,
        },
{
    let errors = validate_content(file_path, content, backend);
    let action = if config.clean_files && config.output_dir.is_some() {
        match clean_content(content, errors.as_slice()) {
            Some(text) => CleanAction::Write(text),
            None => CleanAction::Remove,
        }
    } else {
        CleanAction::Skip
    };
    FileReport { errors, action }
}

} // verus!
