//! Fail-fast assembly of unit outcomes, planning, and the concurrency gate.

use gitai::segment::DiffSegment;
use gitai::summarize::{BoundedSummarizer, ConcurrencyGate, PipelineError, UnitOutcome};

fn seg(content: &str, files: &[&str]) -> DiffSegment {
    DiffSegment {
        content: content.to_string(),
        files: files.iter().map(|s| s.to_string()).collect(),
    }
}

#[test]
fn timeout_of_one_unit_fails_the_whole_run() {
    let segments = vec![
        seg("diff --git a/a.rs b/a.rs\n+1\n", &["a.rs"]),
        seg("diff --git a/b.rs b/b.rs\n+2\n", &["b.rs"]),
        seg("diff --git a/c.rs b/c.rs\n+3\n", &["c.rs"]),
    ];
    let outcomes = vec![
        UnitOutcome::Completed("a.rs: one\n".to_string()),
        UnitOutcome::TimedOut,
        UnitOutcome::Completed("c.rs: three\n".to_string()),
    ];
    let r = BoundedSummarizer::assemble(&segments, &outcomes, 30);
    // The whole pipeline fails; no partial summary list comes back.
    assert_eq!(r, Err(PipelineError::Timeout(30)));
}

#[test]
fn upstream_failure_carries_the_provider_text() {
    let segments = vec![seg("x", &["a.rs"])];
    let outcomes = vec![UnitOutcome::Failed("connection refused".to_string())];
    let r = BoundedSummarizer::assemble(&segments, &outcomes, 5);
    assert_eq!(
        r,
        Err(PipelineError::UpstreamFailure("connection refused".to_string()))
    );
}

#[test]
fn first_failure_wins_under_fail_fast() {
    let segments = vec![seg("x", &["a.rs"]), seg("y", &["b.rs"])];
    let outcomes = vec![
        UnitOutcome::TimedOut,
        UnitOutcome::Failed("later failure".to_string()),
    ];
    let r = BoundedSummarizer::assemble(&segments, &outcomes, 12);
    assert_eq!(r, Err(PipelineError::Timeout(12)));
}

#[test]
fn completed_units_assemble_in_segment_order() {
    let segments = vec![seg("x", &["a.rs"]), seg("y", &["b.rs"])];
    let outcomes = vec![
        UnitOutcome::Completed("a.rs: adds retry logic\n".to_string()),
        UnitOutcome::Completed("b.rs: updates deps\n".to_string()),
    ];
    let r = BoundedSummarizer::assemble(&segments, &outcomes, 30).unwrap();
    assert_eq!(r.len(), 2);
    assert_eq!(r[0].filename, "a.rs");
    assert_eq!(r[0].summary, "adds retry logic");
    assert_eq!(r[1].filename, "b.rs");
    assert_eq!(r[1].summary, "updates deps");
}

#[test]
fn unparseable_unit_response_yields_placeholders_not_failure() {
    let segments = vec![seg("x", &["a.rs"])];
    let outcomes = vec![UnitOutcome::Completed("???".to_string())];
    let r = BoundedSummarizer::assemble(&segments, &outcomes, 30).unwrap();
    assert_eq!(r.len(), 1);
    assert_eq!(r[0].filename, "a.rs");
    assert_eq!(r[0].summary, "file updated");
}

#[test]
fn planning_an_empty_diff_is_the_only_planning_error() {
    assert_eq!(
        BoundedSummarizer::plan("", 100),
        Err(PipelineError::EmptySegmentation)
    );
    let segs = BoundedSummarizer::plan("diff --git a/a.rs b/a.rs\n+1\n", 100).unwrap();
    assert_eq!(segs.len(), 1);
}

#[test]
fn gate_admits_at_most_its_limit() {
    let mut g = ConcurrencyGate::new(2);
    assert!(g.try_acquire());
    assert!(g.try_acquire());
    assert!(!g.try_acquire());
    g.release();
    assert!(g.try_acquire());
    assert!(!g.try_acquire());
}
