use ndjson_validator::{check_line, errors_from_verdicts, is_blank, nesting_exceeds, scan_lines, validate_content, validate_lines, Backend};

const VALID: &str = "{\"name\": \"Alice\", \"age\": 30}\n{\"name\": \"Bob\", \"age\": 25}\n{\"name\": \"Charlie\", \"age\": 35}\n";
const INVALID1: &str = "{\"name\": \"Alice\", \"age\": }\n{\"name\": \"Bob\", \"age\": 25}\n{\"name\": \"Charlie\", \"age\": 35}\n";
const INVALID2: &str = "{\"id\": 1}\n{\"id\": 2,}\n{id: 3}\n[1, 2\n\"open\n{\"id\": 5} x\ntrue false\n{\"id\": 7\n}\n{\"id\": 10}\n";

#[test]
fn test_valid_ndjson() {
    let errors = validate_content("tests/valid.ndjson", VALID, Backend::Serde);
    assert_eq!(errors.len(), 0);
}

#[test]
fn test_invalid_ndjson1() {
    let errors = validate_content("tests/invalid1.ndjson", INVALID1, Backend::Serde);
    assert_eq!(errors.len(), 1);
    assert_eq!(errors[0].line_number, 1);
}

#[test]
fn test_invalid_ndjson2() {
    let errors = validate_content("tests/invalid2.ndjson", INVALID2, Backend::Serde);
    assert_eq!(errors.len(), 8); // All lines except first and last are invalid
}

#[test]
fn scenario_one_bad_line_among_valid_and_blank() {
    let content = "{\"a\":1}\nnot json\n\n{\"b\":2}\n";
    let errors = validate_content("f.ndjson", content, Backend::Serde);
    assert_eq!(errors.len(), 1);
    assert_eq!(errors[0].line_number, 2);
    assert_eq!(errors[0].line_content, "not json");
    assert_eq!(errors[0].file_path, "f.ndjson");
    assert!(!errors[0].error.is_empty());
}

#[test]
fn line_numbers_count_blank_lines() {
    let content = "\n   \n{\"a\":1}\n\t\nbad\n\nalso bad";
    let errors = validate_content("f", content, Backend::Serde);
    let numbers: Vec<usize> = errors.iter().map(|e| e.line_number).collect();
    assert_eq!(numbers, vec![5, 7]);
    assert_eq!(errors[1].line_content, "also bad");
}

#[test]
fn validation_is_repeatable_on_same_text() {
    let first = validate_content("f", INVALID2, Backend::Sonic);
    let second = validate_content("f", INVALID2, Backend::Sonic);
    assert_eq!(first, second);
}

#[test]
fn any_json_value_is_accepted() {
    let content = "[1,2,3]\n\"text\"\n42\nnull\ntrue\n  {\"k\": [ ]}  \n";
    assert!(validate_content("f", content, Backend::Serde).is_empty());
    assert!(validate_content("f", content, Backend::Sonic).is_empty());
}

#[test]
fn backends_agree_on_pass_or_fail() {
    let lines = [
        "{\"a\":1}", "not json", "[1,2", "{}", "[]", "1 2", "{\"a\":1}}", "\"x\"", "nul", "{\"a\":1,}",
        "-0.5e3", "{\"a\" 1}", "\"\\u00e9\"", "[true, false, null]",
    ];
    for line in lines {
        let serde = check_line(Backend::Serde, line);
        let sonic = check_line(Backend::Sonic, line);
        assert_eq!(serde.is_none(), sonic.is_none(), "{}", line);
    }
}

#[test]
fn check_line_reports_a_message_on_failure() {
    assert_eq!(check_line(Backend::Serde, "{\"a\":1}"), None);
    assert!(check_line(Backend::Serde, "not json").map_or(false, |m| !m.is_empty()));
    assert_eq!(check_line(Backend::Sonic, "{\"a\":1}"), None);
    assert!(check_line(Backend::Sonic, "not json").map_or(false, |m| !m.is_empty()));
}

#[test]
fn validate_lines_takes_scanned_lines() {
    let lines = vec!["{}".to_string(), "".to_string(), "x".to_string()];
    let errors = validate_lines("p", &lines, Backend::Serde);
    assert_eq!(errors.len(), 1);
    assert_eq!(errors[0].line_number, 3);
    assert_eq!(errors[0].line_content, "x");
}

#[test]
fn scan_lines_follows_line_endings() {
    assert_eq!(scan_lines(""), Vec::<String>::new());
    assert_eq!(scan_lines("a"), vec!["a"]);
    assert_eq!(scan_lines("a\n"), vec!["a"]);
    assert_eq!(scan_lines("a\n\nb"), vec!["a", "", "b"]);
    assert_eq!(scan_lines("\n"), vec![""]);
    assert_eq!(scan_lines("a\r\nb\r\n"), vec!["a", "b"]);
    assert_eq!(scan_lines("a\rb\n"), vec!["a\rb"]);
    assert_eq!(scan_lines("a\r\r\n"), vec!["a\r"]);
    assert_eq!(scan_lines("a\r"), vec!["a\r"]);
    assert_eq!(scan_lines("é\u{3000}\nü"), vec!["é\u{3000}", "ü"]);
}

#[test]
fn blank_means_only_white_space() {
    assert!(is_blank(""));
    assert!(is_blank(" \t\u{b}\u{c}\r"));
    assert!(is_blank("\u{85}\u{a0}\u{1680}\u{2000}\u{200a}\u{2028}\u{2029}\u{202f}\u{205f}\u{3000}"));
    assert!(!is_blank(" x "));
    assert!(!is_blank("\u{200b}"));
}

#[test]
fn unicode_blank_line_is_not_an_error() {
    let errors = validate_content("f", "{}\n\u{3000}\u{a0}\n", Backend::Serde);
    assert!(errors.is_empty());
}

#[test]
fn errors_follow_the_given_verdicts() {
    let lines = vec!["a".to_string(), "".to_string(), " ".to_string(), "b".to_string(), "c".to_string()];
    let verdicts = vec![
        Some("bad a".to_string()),
        Some("ignored".to_string()),
        Some("ignored too".to_string()),
        None,
        Some("bad c".to_string()),
    ];
    let errors = errors_from_verdicts("p.ndjson", &lines, &verdicts);
    assert_eq!(errors.len(), 2);
    assert_eq!(errors[0].line_number, 1);
    assert_eq!(errors[0].error, "bad a");
    assert_eq!(errors[0].line_content, "a");
    assert_eq!(errors[1].line_number, 5);
    assert_eq!(errors[1].error, "bad c");
    assert_eq!(errors[1].file_path, "p.ndjson");
}

#[test]
fn deep_nesting_is_refused_without_a_crash() {
    let deep = "[".repeat(100_000);
    let message = check_line(Backend::Sonic, &deep);
    assert_eq!(message, Some("nesting deeper than 128 levels".to_string()));
    assert!(check_line(Backend::Serde, &deep).is_some());
    let nested_ok = format!("{}{}", "[".repeat(100), "]".repeat(100));
    assert_eq!(check_line(Backend::Sonic, &nested_ok), None);
    let limit = format!("{}{}", "[".repeat(128), "]".repeat(128));
    assert_eq!(check_line(Backend::Sonic, &limit), None);
    let over = format!("{}{}", "[".repeat(129), "]".repeat(129));
    assert!(check_line(Backend::Sonic, &over).is_some());
    let brackets_in_string = format!("[\"{}\"]", "[".repeat(1000));
    assert_eq!(check_line(Backend::Sonic, &brackets_in_string), None);
}

#[test]
fn nesting_ignores_brackets_inside_strings() {
    assert!(!nesting_exceeds("[\"[[[[\"]", 1));
    assert!(!nesting_exceeds("[\"\\\"[[[\"]", 1));
    assert!(nesting_exceeds("[[\"x\"]]", 1));
    assert!(!nesting_exceeds("]]]][", 1));
    assert!(nesting_exceeds("{[", 1));
}
