//! Rendering statistics, bullet lists and the final request.

use gitai::compose::{dec_str, CommitMessageComposer};
use gitai::diff::DiffStats;
use gitai::summary::FileSummary;

fn summaries(pairs: &[(&str, &str)]) -> Vec<FileSummary> {
    pairs
        .iter()
        .map(|(f, s)| FileSummary { filename: f.to_string(), summary: s.to_string() })
        .collect()
}

#[test]
fn decimal_rendering_is_exact() {
    assert_eq!(dec_str(0), "0");
    assert_eq!(dec_str(7), "7");
    assert_eq!(dec_str(42), "42");
    assert_eq!(dec_str(1000), "1000");
    assert_eq!(dec_str(90210), "90210");
}

#[test]
fn stats_render_as_one_line() {
    let stats = DiffStats { files_changed: 2, lines_added: 10, lines_deleted: 3 };
    let line = CommitMessageComposer::render_stats(&stats);
    assert_eq!(line, "2 files changed, 10 insertions(+), 3 deletions(-)");
}

#[test]
fn request_contains_bullets_and_stats_line() {
    let stats = DiffStats { files_changed: 2, lines_added: 10, lines_deleted: 3 };
    let ss = summaries(&[("a.rs", "adds retry logic"), ("b.rs", "updates deps")]);
    let req = CommitMessageComposer::compose_request(&stats, &ss);
    assert!(req.contains("- a.rs: adds retry logic"));
    assert!(req.contains("- b.rs: updates deps"));
    assert!(req.contains("2 files changed, 10 insertions(+), 3 deletions(-)"));
}

#[test]
fn twelve_summaries_render_ten_bullets_and_a_trailer() {
    let names: Vec<String> = (1..=12).map(|i| format!("f{}.rs", i)).collect();
    let pairs: Vec<FileSummary> = names
        .iter()
        .map(|n| FileSummary { filename: n.clone(), summary: "changed".to_string() })
        .collect();
    let details = CommitMessageComposer::render_file_details(&pairs);
    for n in names.iter().take(10) {
        assert!(details.contains(&format!("- {}: changed", n)));
    }
    assert!(!details.contains("- f11.rs"));
    assert!(!details.contains("- f12.rs"));
    assert!(details.contains("- ... and 2 more files"));
}

#[test]
fn ten_or_fewer_summaries_render_without_a_trailer() {
    let pairs = summaries(&[("a.rs", "x"), ("b.rs", "y")]);
    let details = CommitMessageComposer::render_file_details(&pairs);
    assert_eq!(details, "- a.rs: x\n- b.rs: y\n");
    assert!(!details.contains("more files"));
}
