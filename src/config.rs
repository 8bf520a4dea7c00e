//! How a batch is run.
use std::path::PathBuf;
use vstd::prelude::*;

verus! {

/// A file-system path, carried through the library as it stands.
#[verifier::external_type_specification]
#[verifier::external_body]
pub struct ExPathBuf(PathBuf);

/// Options of a validation run.
///
/// `clean_files` without an `output_dir` is a caller's mistake that the
/// command line rejects; the library then simply does not clean.
#[derive(Debug, Clone)]
pub struct ValidatorConfig {
    /// Whether to write each file again without its invalid lines.
    pub clean_files: bool,
    /// Where the cleaned files go, each under its own base name.
    pub output_dir: Option<PathBuf>,
    /// Whether the files of a batch are processed in parallel.
    pub parallel: bool,
}

impl ValidatorConfig {
    /// Whether cleaned files are to be written.
    pub open spec fn cleans(&self) -> bool {
        self.clean_files && self.output_dir is Some
    }
}

impl Default for ValidatorConfig {
    /// No cleaning, in parallel.
    fn default() -> (r: Self)
        ensures
            !r.clean_files,
            r.output_dir is None,
            r.parallel,
    {
        ValidatorConfig { clean_files: false, output_dir: None, parallel: true }
    }
}

} // verus!
