use std::path::PathBuf;

use ndjson_validator::{
    is_ndjson_path, merge_in_order, merge_with_summary, process_content, select_ndjson_files, summarize, Backend,
    Candidate, CleanAction, FileOutcome, NdJsonError, ValidationError, ValidatorConfig,
};

const VALID: &str = "{\"name\": \"Alice\", \"age\": 30}\n{\"name\": \"Bob\", \"age\": 25}\n{\"name\": \"Charlie\", \"age\": 35}\n";
const INVALID1: &str = "{\"name\": \"Alice\", \"age\": }\n{\"name\": \"Bob\", \"age\": 25}\n{\"name\": \"Charlie\", \"age\": 35}\n";
const INVALID2: &str = "{\"id\": 1}\n{\"id\": 2,}\n{id: 3}\n[1, 2\n\"open\n{\"id\": 5} x\ntrue false\n{\"id\": 7\n}\n{\"id\": 10}\n";

fn outcomes(files: &[(&str, &str)], config: &ValidatorConfig) -> Vec<(usize, FileOutcome)> {
    files
        .iter()
        .enumerate()
        .map(|(i, (path, content))| (i, Ok(process_content(path, content, config, Backend::Serde).errors)))
        .collect()
}

fn candidate(path: &str, extension: Option<&str>) -> Candidate {
    Candidate {
        path: PathBuf::from(path),
        extension: extension.map(|e| e.to_string()),
        text: path.to_string(),
    }
}

#[test]
fn test_cleaning_ndjson() {
    let config = ValidatorConfig {
        clean_files: true,
        output_dir: Some(PathBuf::from("out")),
        parallel: false,
    };
    let report = process_content("tests/invalid1.ndjson", INVALID1, &config, Backend::Serde);
    assert_eq!(report.errors.len(), 1);
    let content = match report.action {
        CleanAction::Write(text) => text,
        other => panic!("expected a cleaned copy, got {:?}", other),
    };
    assert_eq!(content.lines().count(), 2);
    assert!(!content.contains("Alice"));
    assert!(content.contains("Bob"));
    assert!(content.contains("Charlie"));
}

#[test]
fn test_no_cleaning_when_disabled() {
    let config = ValidatorConfig {
        clean_files: false,
        output_dir: Some(PathBuf::from("out")),
        parallel: false,
    };
    let report = process_content("tests/invalid1.ndjson", INVALID1, &config, Backend::Serde);
    assert_eq!(report.errors.len(), 1);
    assert_eq!(report.action, CleanAction::Skip);
}

#[test]
fn test_copy_valid_file_when_cleaning_enabled() {
    let config = ValidatorConfig {
        clean_files: true,
        output_dir: Some(PathBuf::from("out")),
        parallel: false,
    };
    let report = process_content("tests/valid.ndjson", VALID, &config, Backend::Serde);
    assert_eq!(report.errors.len(), 0);
    assert_eq!(report.action, CleanAction::Write(VALID.to_string()));
}

#[test]
fn test_process_file_all_invalid_cleans_to_nothing() {
    let config = ValidatorConfig {
        clean_files: true,
        output_dir: Some(PathBuf::from("out")),
        parallel: false,
    };
    let report = process_content("all_invalid.ndjson", "{\"key\": value}\n[1,2\n", &config, Backend::Serde);
    assert_eq!(report.errors.len(), 2, "Should find two errors in the input file");
    assert_eq!(report.action, CleanAction::Remove);
}

#[test]
fn cleaning_needs_an_output_directory() {
    let config = ValidatorConfig { clean_files: true, output_dir: None, parallel: false };
    let report = process_content("f", INVALID1, &config, Backend::Sonic);
    assert_eq!(report.errors.len(), 1);
    assert_eq!(report.action, CleanAction::Skip);
}

#[test]
fn default_config_validates_in_parallel_without_cleaning() {
    let config = ValidatorConfig::default();
    assert!(!config.clean_files);
    assert!(config.output_dir.is_none());
    assert!(config.parallel);
}

#[test]
fn test_validate_multiple_files() {
    let config = ValidatorConfig::default();
    let files = [("tests/valid.ndjson", VALID), ("tests/invalid1.ndjson", INVALID1)];
    let errors = merge_in_order(files.len(), outcomes(&files, &config)).unwrap();
    assert_eq!(errors.len(), 1);
    assert!(errors[0].file_path.ends_with("invalid1.ndjson"));
}

#[test]
fn test_parallel_vs_sequential() {
    let config = ValidatorConfig { clean_files: false, output_dir: None, parallel: true };
    let files = [
        ("tests/valid.ndjson", VALID),
        ("tests/invalid1.ndjson", INVALID1),
        ("tests/invalid2.ndjson", INVALID2),
    ];
    let errors = merge_in_order(files.len(), outcomes(&files, &config)).unwrap();
    assert_eq!(errors.len(), 1 + 8);
}

#[test]
fn test_validation_summary() {
    let config = ValidatorConfig::default();
    let files = [
        ("tests/valid.ndjson", VALID),
        ("tests/invalid1.ndjson", INVALID1),
        ("tests/invalid2.ndjson", INVALID2),
    ];
    let (summary, errors) = merge_with_summary(files.len(), outcomes(&files, &config)).unwrap();
    assert_eq!(summary.total_files, 3);
    assert_eq!(summary.files_with_errors, 2);
    assert_eq!(summary.total_errors, errors.len());
}

#[test]
fn test_directory_summary() {
    let config = ValidatorConfig::default();
    let listing = vec![
        candidate("tests/integration.rs", Some("rs")),
        candidate("tests/invalid1.ndjson", Some("ndjson")),
        candidate("tests/invalid2.ndjson", Some("ndjson")),
        candidate("tests/valid.ndjson", Some("ndjson")),
    ];
    let paths = select_ndjson_files("tests", listing).unwrap();
    assert_eq!(paths.len(), 3);
    let contents = [INVALID1, INVALID2, VALID];
    let files: Vec<(String, &str)> = paths
        .iter()
        .zip(contents.iter())
        .map(|(p, c)| (p.to_string_lossy().into_owned(), *c))
        .collect();
    let tagged: Vec<(usize, FileOutcome)> = files
        .iter()
        .enumerate()
        .map(|(i, (p, c))| (i, Ok(process_content(p, c, &config, Backend::Serde).errors)))
        .collect();
    let (summary, errors) = merge_with_summary(files.len(), tagged).unwrap();
    assert_eq!(summary.total_files, 3);
    assert_eq!(summary.files_with_errors, 2);
    assert_eq!(summary.total_errors, errors.len());
}

#[test]
fn scenario_single_file_batch_summary() {
    let config = ValidatorConfig::default();
    let files = [("f.ndjson", "{\"a\":1}\nnot json\n\n{\"b\":2}\n")];
    let (summary, errors) = merge_with_summary(1, outcomes(&files, &config)).unwrap();
    assert_eq!((summary.total_files, summary.files_with_errors, summary.total_errors), (1, 1, 1));
    assert_eq!(errors[0].line_number, 2);
}

#[test]
fn scenario_three_files_with_zero_one_and_eight_errors() {
    let config = ValidatorConfig::default();
    let files = [("a.ndjson", VALID), ("b.ndjson", INVALID1), ("c.ndjson", INVALID2)];
    let (summary, _) = merge_with_summary(3, outcomes(&files, &config)).unwrap();
    assert_eq!((summary.total_files, summary.files_with_errors, summary.total_errors), (3, 2, 9));
}

#[test]
fn merge_restores_file_order_whatever_the_finishing_order() {
    let config = ValidatorConfig::default();
    let files = [("a.ndjson", INVALID2), ("b.ndjson", VALID), ("c.ndjson", INVALID1)];
    let in_order = outcomes(&files, &config);
    let mut shuffled = outcomes(&files, &config);
    shuffled.reverse();
    shuffled.swap(0, 1);
    let first = merge_with_summary(3, in_order).unwrap();
    let second = merge_with_summary(3, shuffled).unwrap();
    assert_eq!(first, second);
    let paths: Vec<&str> = first.1.iter().map(|e| e.file_path.as_str()).collect();
    assert_eq!(paths.first(), Some(&"a.ndjson"));
    assert_eq!(paths.last(), Some(&"c.ndjson"));
}

#[test]
fn merge_reports_the_first_failure_in_file_order() {
    let tagged: Vec<(usize, FileOutcome)> = vec![
        (2, Err(NdJsonError::Io("third".to_string()))),
        (0, Ok(vec![])),
        (1, Err(NdJsonError::FailedToCreateOutputDir("second".to_string()))),
    ];
    assert_eq!(
        merge_in_order(3, tagged),
        Err(NdJsonError::FailedToCreateOutputDir("second".to_string()))
    );
}

#[test]
fn merge_of_no_files_is_empty() {
    assert_eq!(merge_in_order(0, vec![]), Ok(vec![]));
    let (summary, errors) = merge_with_summary(0, vec![]).unwrap();
    assert_eq!((summary.total_files, summary.files_with_errors, summary.total_errors), (0, 0, 0));
    assert!(errors.is_empty());
}

#[test]
fn summary_counts_a_repeated_file_once() {
    let error = |path: &str, line: usize| ValidationError {
        file_path: path.to_string(),
        line_number: line,
        line_content: "x".to_string(),
        error: "e".to_string(),
    };
    let errors = vec![error("a", 1), error("b", 1), error("a", 3), error("c", 2), error("b", 5)];
    let summary = summarize(4, &errors);
    assert_eq!((summary.total_files, summary.files_with_errors, summary.total_errors), (4, 3, 5));
}

#[test]
fn directory_without_ndjson_files_is_an_error() {
    let listing = vec![candidate("d/a.json", Some("json")), candidate("d/b", None)];
    assert_eq!(select_ndjson_files("d", listing), Err(NdJsonError::NoFilesFound("d".to_string())));
}

#[test]
fn ndjson_names_by_extension_or_infix() {
    assert!(is_ndjson_path(&Some("ndjson".to_string()), "d/x.ndjson"));
    assert!(is_ndjson_path(&Some("jsonl".to_string()), "d/x.jsonl"));
    assert!(is_ndjson_path(&Some("json".to_string()), "d/x.nd.json"));
    assert!(!is_ndjson_path(&Some("json".to_string()), "d/x.json"));
    assert!(!is_ndjson_path(&Some("NDJSON".to_string()), "d/x.NDJSON"));
    assert!(!is_ndjson_path(&None, "d/ndjson"));
}

#[test]
fn clean_file_without_errors_is_copied_byte_for_byte() {
    let config = ValidatorConfig {
        clean_files: true,
        output_dir: Some(PathBuf::from("out")),
        parallel: false,
    };
    for text in [" ", "{\"a\":1}", "{\"a\":1}\n\n[2]", "{}\n"] {
        let report = process_content("f.ndjson", text, &config, Backend::Serde);
        assert!(report.errors.is_empty());
        assert_eq!(report.action, CleanAction::Write(text.to_string()));
    }
}

#[test]
fn files_with_errors_never_exceed_files_or_errors() {
    let config = ValidatorConfig::default();
    let files = [("a", INVALID2), ("b", INVALID1), ("c", VALID), ("d", "x\ny\n")];
    let (summary, errors) = merge_with_summary(4, outcomes(&files, &config)).unwrap();
    assert_eq!(summary.files_with_errors, 3);
    assert!(summary.files_with_errors <= summary.total_files);
    assert!(summary.files_with_errors <= summary.total_errors);
    assert_eq!(summary.total_errors, errors.len());
}
