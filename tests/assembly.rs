use harness_driver::compose::compose_script;
use harness_driver::error::HarnessError;
use harness_driver::frontmatter::{
    extract_frontmatter, find_marker, normalize_line_endings, strip_newlines, text_chars,
};
use harness_driver::metadata::{declared_includes, resolved_includes};
use harness_driver::pipeline::{plan_test, FileOutcome, RunReport};
use harness_driver::frontmatter::nesting_within;
use harness_driver::yaml::MAX_NESTING_DEPTH;

fn strings(v: &[&str]) -> Vec<String> {
    v.iter().map(|s| s.to_string()).collect()
}

fn chars(s: &str) -> Vec<char> {
    s.chars().collect()
}

#[test]
fn scenario_single_support_file() {
    let test = "/*---\nincludes: [foo.js]\n---*/\nvar x = 1;";
    let names = plan_test(test).unwrap().unwrap();
    assert_eq!(names, strings(&["foo.js", "assert.js", "sta.js"]));
    let parts = strings(&["var y = 2;", "// assert", "// sta"]);
    assert_eq!(
        compose_script(&parts, test),
        "var y = 2;\n// assert\n// sta\n/*---\nincludes: [foo.js]\n---*/\nvar x = 1;"
    );
}

#[test]
fn scenario_no_includes_key() {
    let test = "/*---\nflags: [onlyStrict]\nfeatures: [Symbol]\n---*/\nbody();";
    assert_eq!(plan_test(test), Ok(Some(strings(&["assert.js", "sta.js"]))));
}

#[test]
fn scenario_run_goes_on_after_failure() {
    let files = [
        ("good.js", "/*---\ndescription: fine\n---*/\n1;"),
        ("bad.js", "/*---\ndescription: no end\n1;"),
    ];
    let mut report = RunReport::new();
    for (path, text) in files.iter() {
        let outcome = match plan_test(text) {
            Ok(Some(_)) => FileOutcome::Dispatched,
            Ok(None) => FileOutcome::Skipped,
            Err(e) => FileOutcome::Failed(e),
        };
        report.record(path.to_string(), outcome);
    }
    assert_eq!(report.entries.len(), 2);
    assert_eq!(report.entries[0], ("good.js".to_string(), FileOutcome::Dispatched));
    assert_eq!(
        report.entries[1],
        ("bad.js".to_string(), FileOutcome::Failed(HarnessError::MalformedInput))
    );
    assert_eq!(report.failure_count(), 1);
}

#[test]
fn scenario_non_string_element_becomes_empty() {
    let test = "/*---\nincludes: [1, foo.js, true]\n---*/\n";
    assert_eq!(
        plan_test(test),
        Ok(Some(strings(&["", "foo.js", "", "assert.js", "sta.js"])))
    );
}

#[test]
fn extraction_is_repeatable() {
    let test = "x\n/*---\nincludes: [a.js, b.js]\nflags: [raw]\n---*/\nbody";
    let first = extract_frontmatter(test).unwrap();
    let second = extract_frontmatter(test).unwrap();
    assert_eq!(first, second);
}

#[test]
fn rewrapped_block_gives_same_metadata() {
    let test = "// head\n/*---\r\nincludes: [a.js]\r\n---*/ tail ---*/";
    let block = "\r\nincludes: [a.js]\r\n";
    let rewrapped = format!("/*---{}---*/", block);
    assert_eq!(
        extract_frontmatter(test).unwrap(),
        extract_frontmatter(&rewrapped).unwrap()
    );
}

#[test]
fn missing_close_marker_is_malformed() {
    assert_eq!(
        extract_frontmatter("/*---\nincludes: []\n").unwrap_err(),
        HarnessError::MalformedInput
    );
}

#[test]
fn missing_open_marker_is_malformed() {
    assert_eq!(
        extract_frontmatter("includes: []\n---*/").unwrap_err(),
        HarnessError::MalformedInput
    );
}

#[test]
fn close_before_open_is_malformed() {
    assert_eq!(
        extract_frontmatter("---*/\n/*---\nincludes: []\n").unwrap_err(),
        HarnessError::MalformedInput
    );
}

#[test]
fn invalid_yaml_is_parse_error() {
    assert_eq!(
        extract_frontmatter("/*---\nincludes: [a.js\n---*/").unwrap_err(),
        HarnessError::ParseError
    );
}

#[test]
fn empty_block_is_parse_error() {
    assert_eq!(
        extract_frontmatter("/*---\n\n---*/").unwrap_err(),
        HarnessError::ParseError
    );
}

#[test]
fn sequence_document_is_skipped() {
    assert_eq!(plan_test("/*---\n- a.js\n- b.js\n---*/"), Ok(None));
}

#[test]
fn scalar_includes_gives_bootstrap_only() {
    assert_eq!(
        plan_test("/*---\nincludes: a.js\n---*/"),
        Ok(Some(strings(&["assert.js", "sta.js"])))
    );
}

#[test]
fn crlf_block_is_read() {
    assert_eq!(
        plan_test("/*---\r\nincludes:\r\n  - x.js\r\n  - y.js\r\n---*/\r\nbody"),
        Ok(Some(strings(&["x.js", "y.js", "assert.js", "sta.js"])))
    );
}

#[test]
fn declared_and_resolved_lists() {
    let doc = extract_frontmatter("/*---\nincludes: [p.js, q.js]\n---*/").unwrap();
    assert_eq!(declared_includes(&doc), Some(strings(&["p.js", "q.js"])));
    assert_eq!(
        resolved_includes(&doc),
        Some(strings(&["p.js", "q.js", "assert.js", "sta.js"]))
    );
    let list = extract_frontmatter("/*---\n[1, 2]\n---*/").unwrap();
    assert_eq!(declared_includes(&list), None);
    assert_eq!(resolved_includes(&list), None);
}

#[test]
fn bootstrap_files_end_the_preamble() {
    let none = compose_script(&strings(&["A", "S"]), "T");
    assert_eq!(none, "A\nS\nT");
    let two = compose_script(&strings(&["x", "y", "A", "S"]), "T");
    assert!(two.ends_with("A\nS\nT"));
}

#[test]
fn preamble_keeps_order() {
    let script = compose_script(&strings(&["ca", "cb", "cassert", "csta"]), "");
    assert_eq!(script, "ca\ncb\ncassert\ncsta\n");
}

#[test]
fn compose_with_nothing_to_load() {
    assert_eq!(compose_script(&Vec::new(), "body\r\n"), "body\r\n");
}

#[test]
fn line_endings_are_normalized() {
    assert_eq!(normalize_line_endings(&chars("a\r\nb\rc\n\r\r\n")), chars("a\nb\nc\n\n\n"));
}

#[test]
fn outer_newlines_are_stripped() {
    assert_eq!(strip_newlines(&chars("\n\na\n b\n\n")), chars("a\n b"));
    assert_eq!(strip_newlines(&chars("\n\n")), chars(""));
    assert_eq!(strip_newlines(&chars(" a ")), chars(" a "));
}

#[test]
fn marker_search_finds_first_at_or_after_start() {
    let t = chars("ab---*/cd---*/");
    let m = chars("---*/");
    assert_eq!(find_marker(&t, &m, 0), Some(2));
    assert_eq!(find_marker(&t, &m, 3), Some(9));
    assert_eq!(find_marker(&t, &m, 10), None);
    assert_eq!(find_marker(&t, &m, 100), None);
}

#[test]
fn text_chars_keeps_every_char() {
    assert_eq!(text_chars("a\u{e9}\r\n"), vec!['a', '\u{e9}', '\r', '\n']);
}

#[test]
fn report_counts_failures() {
    let mut report = RunReport::new();
    assert_eq!(report.failure_count(), 0);
    report.record("a".to_string(), FileOutcome::Skipped);
    report.record("b".to_string(), FileOutcome::Failed(HarnessError::ParseError));
    report.record(
        "c".to_string(),
        FileOutcome::Failed(HarnessError::IncludeNotFound("x.js".to_string())),
    );
    assert_eq!(report.failure_count(), 2);
}

#[test]
fn deeply_nested_block_is_parse_error() {
    let test = format!("/*---\n{}x\n---*/", "- ".repeat(1_000_000));
    assert_eq!(extract_frontmatter(&test).unwrap_err(), HarnessError::ParseError);
}

#[test]
fn long_flat_block_is_parsed() {
    let flat = format!(
        "/*---\nincludes: [a.js]\ninfo: |\n{}---*/",
        "  a - b: [c] {d} ? e\n".repeat(5 * MAX_NESTING_DEPTH)
    );
    assert_eq!(plan_test(&flat), Ok(Some(strings(&["a.js", "assert.js", "sta.js"]))));
}

#[test]
fn nesting_just_past_the_bound_is_parse_error() {
    let deep = format!("/*---\n{}x\n---*/", "- ".repeat(MAX_NESTING_DEPTH + 1));
    assert_eq!(extract_frontmatter(&deep).unwrap_err(), HarnessError::ParseError);
}

#[test]
fn moderate_nesting_is_parsed() {
    let nested = format!("/*---\nincludes: [a.js]\nother:\n  {}x\n---*/", "- ".repeat(200));
    assert_eq!(plan_test(&nested), Ok(Some(strings(&["a.js", "assert.js", "sta.js"]))));
}

#[test]
fn nesting_depth_is_measured() {
    assert!(nesting_within(&chars("[[a]]"), 2));
    assert!(!nesting_within(&chars("[[a]]"), 1));
    assert!(nesting_within(&chars("- - x"), 2));
    assert!(!nesting_within(&chars("- - x"), 1));
    assert!(nesting_within(&chars("a: 1\nb: 2\nc: [1, 2]\n"), 2));
    assert!(!nesting_within(&chars("a: 1\nb: 2\nc: [1, 2]\n"), 1));
    assert!(nesting_within(&chars("plain - text: here"), 1));
}
