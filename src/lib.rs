//! Validation and cleaning of newline-delimited JSON (NDJSON) text.
//!
//! A text is split into lines ([`scan_lines`]); each line that is not blank
//! is handed to a JSON parser ([`check_line`]); the lines it rejects become
//! [`ValidationError`]s ([`validate_content`]). Cleaning rewrites a text
//! without the lines that errors name ([`clean_content`]). A batch merges the
//! outcomes of its files in file order and sums them up
//! ([`merge_with_summary`]). Reading and writing files is left to the caller.
mod aggregate;
mod cleaner;
mod config;
mod error;
mod lines;
mod listing;
mod processor;
mod syntax;
mod text;
mod validator;

pub use aggregate::{
    batch_counts_files_and_errors, batch_ignores_completion_order, batch_result, distinct_files,
    erring_files, error_total, error_files, has_tag, in_order, is_tagging,
    merge_in_order, merge_with_summary, merged, names_one_file, one_file_each, merged_upto, outcome_at, summarize, summary_of,
    FileOutcome,
};
pub use cleaner::{
    clean_content, cleaned, cleaning_all_invalid_leaves_nothing, cleaning_keeps_unnamed_lines,
    cleaning_without_errors_copies, invalid_line_numbers, keeps_open_end, kept_lines, kept_upto,
};
pub use config::ValidatorConfig;
pub use error::{records, ErrorRecord, NdJsonError, ValidationError, ValidationSummary};
pub use lines::{
    ends_open, ends_with_cr, has_crlf, join_lines, join_lines_of, join_lines_of_open,
    last_line_open, lines_hold_no_newline, lines_of, lines_of_join, lines_of_join_open, scan,
    scan_lines, strip_cr, views,
};
pub use listing::{is_ndjson_name, is_ndjson_path, select_ndjson_files, selected, Candidate};
pub use processor::{process_content, CleanAction, FileReport};
pub use syntax::{
    bracket_scan, check_line, nesting_depth, nesting_exceeds, opt_view, serde_json_verdict,
    sonic_rs_verdict, verdict, Backend, SONIC_MAX_NESTING,
};
pub use text::{
    blank, chars_of, contains_text, is_blank, is_white_space, occurs_at, same_text, text_contains,
};
pub use validator::{
    error_line_numbers_are_positions, errors_from_verdicts, errors_upto, file_errors,
    is_invalid_line, line_errors, opt_views, validate_content, validate_lines, validation_is_repeatable,
    verdicts_of,
};
