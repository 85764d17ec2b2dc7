//! The response parser: acceptance, fuzzy matching, markers, and the
//! never-failing fallback.

use gitai::summary::SummaryResponseParser;

fn files(names: &[&str]) -> Vec<String> {
    names.iter().map(|s| s.to_string()).collect()
}

#[test]
fn well_formed_response_parses_every_line() {
    let expected = files(&["src/a.rs", "src/b.rs"]);
    let r = SummaryResponseParser::parse(
        "src/a.rs: add retry logic\nsrc/b.rs: update dependencies\n",
        &expected,
    );
    assert_eq!(r.len(), 2);
    assert_eq!(r[0].filename, "src/a.rs");
    assert_eq!(r[0].summary, "add retry logic");
    assert_eq!(r[1].filename, "src/b.rs");
    assert_eq!(r[1].summary, "update dependencies");
}

#[test]
fn empty_response_falls_back_to_placeholders() {
    let expected = files(&["a.rs", "b.rs", "c.rs"]);
    let r = SummaryResponseParser::parse("", &expected);
    assert_eq!(r.len(), 3);
    for (i, name) in ["a.rs", "b.rs", "c.rs"].iter().enumerate() {
        assert_eq!(r[i].filename, *name);
        assert_eq!(r[i].summary, "file updated");
    }
}

#[test]
fn garbage_response_falls_back_to_placeholders() {
    let expected = files(&["a.rs"]);
    let r = SummaryResponseParser::parse("\u{0}\u{1}\u{2} binary junk \u{7f}\n\n\n", &expected);
    assert_eq!(r.len(), 1);
    assert_eq!(r[0].filename, "a.rs");
    assert_eq!(r[0].summary, "file updated");
}

#[test]
fn result_length_stays_between_one_and_expected() {
    let expected = files(&["a.rs", "b.rs"]);
    for text in ["", "nonsense", "a.rs: one\nb.rs: two\na.rs: three\nb.rs: four\n"] {
        let r = SummaryResponseParser::parse(text, &expected);
        assert!(1 <= r.len() && r.len() <= expected.len());
    }
}

#[test]
fn template_echo_lines_are_discarded() {
    let expected = files(&["a.rs"]);
    let r = SummaryResponseParser::parse(
        "Format:\nExample:\na.rs: real change\n",
        &expected,
    );
    assert_eq!(r.len(), 1);
    assert_eq!(r[0].summary, "real change");
}

#[test]
fn fuzzy_match_tolerates_path_drift() {
    let expected = files(&["src/main.rs"]);
    let r = SummaryResponseParser::parse("main.rs: trims the path\n", &expected);
    assert_eq!(r.len(), 1);
    assert_eq!(r[0].filename, "main.rs");
    assert_eq!(r[0].summary, "trims the path");
}

#[test]
fn each_expected_file_justifies_at_most_one_pair() {
    let expected = files(&["a.rs"]);
    let r = SummaryResponseParser::parse("a.rs: first\na.rs: second\n", &expected);
    assert_eq!(r.len(), 1);
    assert_eq!(r[0].summary, "first");
}

#[test]
fn unmatched_candidates_are_dropped() {
    let expected = files(&["a.rs"]);
    let r = SummaryResponseParser::parse("zzz.py: unrelated\na.rs: kept\n", &expected);
    assert_eq!(r.len(), 1);
    assert_eq!(r[0].filename, "a.rs");
}

#[test]
fn no_expected_files_means_no_fallback() {
    let expected: Vec<String> = Vec::new();
    let r = SummaryResponseParser::parse("whatever text", &expected);
    assert!(r.is_empty());
}

#[test]
fn candidate_and_summary_are_trimmed() {
    let expected = files(&["a.rs"]);
    let r = SummaryResponseParser::parse("   a.rs  :   does things   \n", &expected);
    assert_eq!(r.len(), 1);
    assert_eq!(r[0].filename, "a.rs");
    assert_eq!(r[0].summary, "does things");
}
