//! The decision core of bounded, fail-fast diff summarization.
//!
//! One unit of work per segment goes through the completion provider; the
//! surrounding process performs the calls and the waiting, and hands back a
//! [`UnitOutcome`] per unit. This module holds what can be decided without
//! performing I/O: planning the units, the concurrency-limit gate that
//! bounds how many units are in flight at once, and the fail-fast
//! reassembly of outcomes into the final, segment-ordered summary list.

use vstd::prelude::*;

use crate::segment::{spec_file_blocks, spec_pack, blocks_content, blocks_files, DiffSegment,
    DiffSegmenter};
use crate::lines::{spec_lines, views};
use crate::summary::{spec_parse, pair_views, lemma_pair_views_index, lemma_pair_views_len,
    lemma_pair_views_concat, FileSummary, PairView, SummaryResponseParser};

verus! {

/// How one summarization unit ended: with the provider's response text,
/// with its per-unit deadline exceeded, or with a transport or provider
/// error carrying the provider's error text.
#[derive(Debug, Clone, PartialEq)]
pub enum UnitOutcome {
    Completed(String),
    TimedOut,
    Failed(String),
}

/// A fatal condition of the commit-message pipeline. Every variant aborts
/// the whole run; no partial commit message is ever produced.
#[derive(Debug, Clone, PartialEq)]
pub enum PipelineError {
    /// The diff was empty, so there was nothing to segment.
    EmptySegmentation,
    /// A unit exceeded its deadline; carries the configured timeout in
    /// seconds for diagnostics.
    Timeout(u64),
    /// A unit failed in transport or at the provider; carries the
    /// provider's error text.
    UpstreamFailure(String),
}

/// The position of the first unit that did not complete, or `-1`.
pub open spec fn first_failure(os: Seq<UnitOutcome>) -> int
    decreases os.len(),
{
    if os.len() == 0 {
        -1
    } else if !(os[0] is Completed) {
        0
    } else if first_failure(os.drop_first()) == -1 {
        -1
    } else {
        1 + first_failure(os.drop_first())
    }
}

/// The summaries of all segments, parsed from each segment's response and
/// concatenated in segment order.
pub open spec fn all_summaries(segs: Seq<DiffSegment>, os: Seq<UnitOutcome>) -> Seq<PairView>
    decreases segs.len(),
{
    if segs.len() == 0 || os.len() != segs.len() {
        Seq::empty()
    } else {
        all_summaries(segs.drop_last(), os.drop_last()) + spec_parse(
            os.last()->Completed_0@,
            views(segs.last().files@),
        )
    }
}

proof fn lemma_first_failure_none(os: Seq<UnitOutcome>)
    requires
        forall|k: int| 0 <= k < os.len() ==> os[k] is Completed,
    ensures
        first_failure(os) == -1,
    decreases os.len(),
{
    if os.len() > 0 {
        lemma_first_failure_none(os.drop_first());
    }
}

proof fn lemma_first_failure_at(os: Seq<UnitOutcome>, i: int)
    requires
        0 <= i < os.len(),
        !(os[i] is Completed),
        forall|k: int| 0 <= k < i ==> os[k] is Completed,
    ensures
        first_failure(os) == i,
    decreases os.len(),
{
    if i > 0 {
        lemma_first_failure_at(os.drop_first(), i - 1);
    }
}

/// Drives one run of bounded, fail-fast summarization over the segments of
/// a large diff. The surrounding process performs the completion calls;
/// everything decided here is verified.
pub struct BoundedSummarizer;

impl BoundedSummarizer {
    /// Plan the units of work for `diff`: its segments under
    /// `max_unit_size`. Fails exactly when the diff is empty, with
    /// [`PipelineError::EmptySegmentation`]; a non-empty diff always yields
    /// at least one unit.
    pub fn plan(diff: &str, max_unit_size: usize) -> (r: Result<Vec<DiffSegment>, PipelineError>)
        ensures
            r is Ok <==> diff@.len() > 0,
            r is Err ==> r->Err_0 == PipelineError::EmptySegmentation,
            r is Ok ==> ({
                let groups = spec_pack(
                    spec_file_blocks(spec_lines(diff@)),
                    max_unit_size as int,
                );
                let segs = r->Ok_0;
                &&& segs@.len() == groups.len()
                &&& segs@.len() >= 1
                &&& forall|i: int|
                    0 <= i < groups.len() ==> (#[trigger] segs@[i]).content@ == blocks_content(
                        groups[i],
                    ) && views(segs@[i].files@) == blocks_files(groups[i])
            }),
    {
        let segs = DiffSegmenter::segment(diff, max_unit_size);
        if segs.len() == 0 {
            Err(PipelineError::EmptySegmentation)
        } else {
            Ok(segs)
        }
    }

    /// Reassemble the outcomes of all units, in segment-submission order,
    /// under the fail-fast policy: the result is the concatenation of every
    /// segment's parsed summaries when every unit completed, and otherwise
    /// the error of the first unit that did not, a timeout carrying the
    /// configured duration or the upstream error text, with no partial
    /// summary list.
    pub fn assemble(
        segments: &Vec<DiffSegment>,
        outcomes: &Vec<UnitOutcome>,
        per_unit_timeout_secs: u64,
    ) -> (r: Result<Vec<FileSummary>, PipelineError>)
        requires
            outcomes@.len() == segments@.len(),
        ensures
            r is Ok <==> first_failure(outcomes@) == -1,
            r is Ok ==> pair_views(r->Ok_0@) == all_summaries(segments@, outcomes@),
            r is Err ==> ({
                let k = first_failure(outcomes@);
                &&& 0 <= k < outcomes@.len()
                &&& !(outcomes@[k] is Completed)
                &&& outcomes@[k] is TimedOut ==> r->Err_0 == PipelineError::Timeout(
                    per_unit_timeout_secs,
                )
                &&& outcomes@[k] is Failed ==> r->Err_0 == PipelineError::UpstreamFailure(
                    outcomes@[k]->Failed_0,
                )
            }),
    {
        let n = segments.len();
        let mut result: Vec<FileSummary> = Vec::new();
        let mut i: usize = 0;
        proof {
            assert(segments@.subrange(0, 0) =~= Seq::<DiffSegment>::empty());
            assert(pair_views(result@) =~= Seq::<PairView>::empty());
        }
        while i < n
            invariant
                i <= n,
                n == segments@.len(),
                n == outcomes@.len(),
                forall|k: int| 0 <= k < i ==> (#[trigger] outcomes@[k]) is Completed,
                pair_views(result@) == all_summaries(
                    segments@.subrange(0, i as int),
                    outcomes@.subrange(0, i as int),
                ),
            decreases n - i,
        {
            proof {
                assert(segments@.subrange(0, i + 1).drop_last() =~= segments@.subrange(
                    0,
                    i as int,
                ));
                assert(outcomes@.subrange(0, i + 1).drop_last() =~= outcomes@.subrange(
                    0,
                    i as int,
                ));
                assert(segments@.subrange(0, i + 1).last() == segments@[i as int]);
                assert(outcomes@.subrange(0, i + 1).last() == outcomes@[i as int]);
            }
            match &outcomes[i] {
                UnitOutcome::Completed(text) => {
                    let mut part = SummaryResponseParser::parse(
                        text.as_str(),
                        &segments[i].files,
                    );
                    proof {
                        let ps = spec_parse(text@, views(segments@[i as int].files@));
                        lemma_pair_views_len(part@);
                        assert(pair_views(part@) =~= ps) by {
                            assert forall|q: int| 0 <= q < ps.len() implies pair_views(
                                part@,
                            )[q] == ps[q] by {
                                lemma_pair_views_index(part@, q);
                            }
                        }
                        lemma_pair_views_concat(result@, part@);
                    }
                    result.append(&mut part);
                },
                UnitOutcome::TimedOut => {
                    proof {
                        lemma_first_failure_at(outcomes@, i as int);
                    }
                    return Err(PipelineError::Timeout(per_unit_timeout_secs));
                },
                UnitOutcome::Failed(detail) => {
                    proof {
                        lemma_first_failure_at(outcomes@, i as int);
                    }
                    return Err(PipelineError::UpstreamFailure(detail.clone()));
                },
            }
            i = i + 1;
        }
        proof {
            lemma_first_failure_none(outcomes@);
            assert(segments@.subrange(0, n as int) =~= segments@);
            assert(outcomes@.subrange(0, n as int) =~= outcomes@);
        }
        Ok(result)
    }
}

/// The concurrency-limit gate: the only shared mutable resource of a run.
/// It bounds how many units may be waiting on the completion provider at
/// once; a permit is acquired before a unit's call is issued and released
/// on every exit path of that unit.
#[derive(Debug, Clone, PartialEq, Eq, Structural)]
pub struct ConcurrencyGate {
    pub limit: usize,
    pub in_flight: usize,
}

impl ConcurrencyGate {
    /// No more units are in flight at once than the configured limit.
    pub open spec fn wf(&self) -> bool {
        1 <= self.limit && self.in_flight <= self.limit
    }

    /// A fresh gate with `limit` permits and nothing in flight.
    pub fn new(limit: usize) -> (g: ConcurrencyGate)
        requires
            limit >= 1,
        ensures
            g.wf(),
            g.limit == limit,
            g.in_flight == 0,
    {
        ConcurrencyGate { limit, in_flight: 0 }
    }

    /// Acquire a slot before a unit's completion call. A full gate turns
    /// the unit away, and the unit must keep queueing.
    pub fn try_acquire(&mut self) -> (ok: bool)
        requires
            old(self).wf(),
        ensures
            final(self).wf(),
            final(self).limit == old(self).limit,
            ok ==> old(self).in_flight < old(self).limit && final(self).in_flight == old(
                self,
            ).in_flight + 1,
            !ok ==> final(self).in_flight == old(self).in_flight && old(self).in_flight == old(
                self,
            ).limit,
    {
        if self.in_flight < self.limit {
            self.in_flight = self.in_flight + 1;
            true
        } else {
            false
        }
    }

    /// Return a permit when a unit's attempt concludes, whether it
    /// succeeded, timed out or failed.
    pub fn release(&mut self)
        requires
            old(self).wf(),
            old(self).in_flight >= 1,
        ensures
            final(self).wf(),
            final(self).limit == old(self).limit,
            final(self).in_flight == old(self).in_flight - 1,
    {
        self.in_flight = self.in_flight - 1;
    }
}

} // verus!
