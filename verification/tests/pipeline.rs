//! End-to-end behavior of the commit-message pipeline on concrete diffs.

use gitai::compose::CommitMessageComposer;
use gitai::diff::DiffStatAnalyzer;
use gitai::prompt::build_segment_prompt;
use gitai::segment::DiffSegmenter;
use gitai::summarize::{BoundedSummarizer, UnitOutcome};

fn sample_diff() -> String {
    let mut d = String::new();
    d.push_str("diff --git a/a.rs b/a.rs\n");
    d.push_str("index 111..222 100644\n");
    d.push_str("--- a/a.rs\n");
    d.push_str("+++ b/a.rs\n");
    d.push_str("@@ -1,2 +1,3 @@\n");
    d.push_str("+fn new_line() {}\n");
    d.push_str("+fn another() {}\n");
    d.push_str("-fn old_line() {}\n");
    d.push_str(" fn kept() {}\n");
    d.push_str("diff --git a/b.rs b/b.rs\n");
    d.push_str("--- a/b.rs\n");
    d.push_str("+++ b/b.rs\n");
    d.push_str("@@ -1 +1 @@\n");
    d.push_str("+use std::fmt;\n");
    d
}

#[test]
fn stats_count_headers_and_lines() {
    let d = sample_diff();
    let stats = DiffStatAnalyzer::analyze(&d);
    assert_eq!(stats.files_changed, 2);
    assert_eq!(stats.lines_added, 3);
    assert_eq!(stats.lines_deleted, 1);
}

#[test]
fn stats_on_empty_input_are_zero() {
    let stats = DiffStatAnalyzer::analyze("");
    assert_eq!(stats.files_changed, 0);
    assert_eq!(stats.lines_added, 0);
    assert_eq!(stats.lines_deleted, 0);
}

#[test]
fn stats_tolerate_malformed_input() {
    let stats = DiffStatAnalyzer::analyze("not a diff at all\njust text\n");
    assert_eq!(stats.files_changed, 0);
    assert_eq!(stats.lines_added, 0);
    assert_eq!(stats.lines_deleted, 0);
}

#[test]
fn stats_exclude_file_markers() {
    let stats = DiffStatAnalyzer::analyze("+++ b/a.rs\n--- a/a.rs\n+x\n-y\n");
    assert_eq!(stats.files_changed, 0);
    assert_eq!(stats.lines_added, 1);
    assert_eq!(stats.lines_deleted, 1);
}

#[test]
fn one_segment_when_everything_fits() {
    let d = sample_diff();
    let segs = DiffSegmenter::segment(&d, 10_000);
    assert_eq!(segs.len(), 1);
    assert_eq!(segs[0].content, d);
    assert_eq!(segs[0].files, vec!["a.rs".to_string(), "b.rs".to_string()]);
}

#[test]
fn segmentation_is_lossless_under_a_small_bound() {
    let d = sample_diff();
    let segs = DiffSegmenter::segment(&d, 150);
    assert!(segs.len() >= 2);
    let mut rebuilt = String::new();
    for s in &segs {
        rebuilt.push_str(&s.content);
    }
    assert_eq!(rebuilt, d);
    // No segment's file list overlaps another segment's file list.
    let mut all_files: Vec<String> = Vec::new();
    for s in &segs {
        for f in &s.files {
            assert!(!all_files.contains(f));
            all_files.push(f.clone());
        }
    }
    assert_eq!(all_files, vec!["a.rs".to_string(), "b.rs".to_string()]);
}

#[test]
fn small_blocks_keep_segments_within_the_bound() {
    let d = sample_diff();
    // Each file block is well under 200 characters.
    let segs = DiffSegmenter::segment(&d, 200);
    for s in &segs {
        assert!(s.content.chars().count() <= 200);
    }
}

#[test]
fn oversized_block_stands_alone() {
    let mut d = String::new();
    d.push_str("diff --git a/big.rs b/big.rs\n");
    for _ in 0..50 {
        d.push_str("+some very long added line of code for the big file\n");
    }
    d.push_str("diff --git a/small.rs b/small.rs\n");
    d.push_str("+tiny\n");
    let segs = DiffSegmenter::segment(&d, 100);
    assert_eq!(segs.len(), 2);
    assert_eq!(segs[0].files, vec!["big.rs".to_string()]);
    assert!(segs[0].content.chars().count() > 100);
    assert_eq!(segs[1].files, vec!["small.rs".to_string()]);
}

#[test]
fn empty_diff_yields_no_segments() {
    let segs = DiffSegmenter::segment("", 100);
    assert!(segs.is_empty());
}

#[test]
fn preamble_before_first_header_is_kept() {
    let d = "some preamble line\ndiff --git a/x.rs b/x.rs\n+line\n";
    let segs = DiffSegmenter::segment(d, 10_000);
    let rebuilt: String = segs.iter().map(|s| s.content.clone()).collect();
    assert_eq!(rebuilt, d);
    assert_eq!(segs[0].files, vec!["x.rs".to_string()]);
}

#[test]
fn header_filename_drops_the_b_path_marker() {
    let d = "diff --git a/src/deep/path.rs b/src/deep/path.rs\n+x\n";
    let segs = DiffSegmenter::segment(d, 10_000);
    assert_eq!(segs[0].files, vec!["src/deep/path.rs".to_string()]);
}

#[test]
fn header_without_path_markers_takes_the_last_word() {
    let d = "diff --git oddly formed header\n+x\n";
    let segs = DiffSegmenter::segment(d, 10_000);
    assert_eq!(segs[0].files, vec!["header".to_string()]);
}

#[test]
fn zero_bound_puts_every_block_in_a_segment_of_its_own() {
    let d = sample_diff();
    let segs = DiffSegmenter::segment(&d, 0);
    assert_eq!(segs.len(), 2);
    let rebuilt: String = segs.iter().map(|s| s.content.clone()).collect();
    assert_eq!(rebuilt, d);
}

#[test]
fn whole_pipeline_from_diff_to_request() {
    let d = sample_diff();
    let stats = DiffStatAnalyzer::analyze(&d);
    let segments = BoundedSummarizer::plan(&d, 150).unwrap();
    assert!(segments.len() >= 2);
    // Each unit's request embeds that segment's diff text.
    for s in &segments {
        assert!(build_segment_prompt(s).contains(&s.content));
    }
    // Pretend the provider answered every unit in the expected shape.
    let outcomes: Vec<UnitOutcome> = segments
        .iter()
        .map(|s| {
            let lines: String =
                s.files.iter().map(|f| format!("{}: reworked\n", f)).collect();
            UnitOutcome::Completed(lines)
        })
        .collect();
    let summaries = BoundedSummarizer::assemble(&segments, &outcomes, 30).unwrap();
    assert_eq!(summaries.len(), 2);
    assert_eq!(summaries[0].filename, "a.rs");
    assert_eq!(summaries[1].filename, "b.rs");
    let request = CommitMessageComposer::compose_request(&stats, &summaries);
    assert!(request.contains("2 files changed, 3 insertions(+), 1 deletions(-)"));
    assert!(request.contains("- a.rs: reworked"));
    assert!(request.contains("- b.rs: reworked"));
}

#[test]
fn text_without_a_trailing_newline_is_still_lossless() {
    let d = "diff --git a/a.rs b/a.rs\n+no newline at the end";
    let segs = DiffSegmenter::segment(d, 5);
    let rebuilt: String = segs.iter().map(|s| s.content.clone()).collect();
    assert_eq!(rebuilt, d);
}
