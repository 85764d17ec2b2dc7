//! Composing the final commit-message request from the diff statistics and
//! the ordered per-file summaries.
//!
//! The statistics render as one human-readable line; at most the first ten
//! summaries render as bullet lines, with one trailer line counting the
//! rest, so the request stays bounded however many files changed. Both
//! renderings and a fixed instruction form one completion request; the
//! provider's response is the commit message, returned by the caller
//! unmodified.

use vstd::prelude::*;

use crate::diff::DiffStats;
use crate::summary::{pair_views, lemma_pair_views_index, FileSummary, PairView};

verus! {

/// The decimal digit character for `d`.
pub open spec fn dec_digit(d: int) -> char {
    if d == 0 {
        '0'
    } else if d == 1 {
        '1'
    } else if d == 2 {
        '2'
    } else if d == 3 {
        '3'
    } else if d == 4 {
        '4'
    } else if d == 5 {
        '5'
    } else if d == 6 {
        '6'
    } else if d == 7 {
        '7'
    } else if d == 8 {
        '8'
    } else {
        '9'
    }
}

/// The decimal rendering of `n`, most significant digit first.
pub open spec fn spec_dec(n: nat) -> Seq<char>
    decreases n,
{
    if n < 10 {
        seq![dec_digit(n as int)]
    } else {
        spec_dec(n / 10).push(dec_digit((n % 10) as int))
    }
}

/// The one-line rendering of the diff statistics.
pub open spec fn spec_stats_line(f: nat, a: nat, d: nat) -> Seq<char> {
    spec_dec(f) + " files changed, "@ + spec_dec(a) + " insertions(+), "@ + spec_dec(d)
        + " deletions(-)"@
}

/// One bullet line of the file-details rendering.
pub open spec fn bullet_line(p: PairView) -> Seq<char> {
    "- "@ + p.name + ": "@ + p.text + "\n"@
}

/// The bullet lines of the given summaries, in order.
pub open spec fn bullets(ps: Seq<PairView>) -> Seq<char>
    decreases ps.len(),
{
    if ps.len() == 0 {
        Seq::empty()
    } else {
        bullets(ps.drop_last()) + bullet_line(ps.last())
    }
}

/// The file-details rendering: at most the first ten summaries as bullet
/// lines, and a trailer counting the remaining files when more exist.
pub open spec fn spec_file_details(ps: Seq<PairView>) -> Seq<char> {
    if ps.len() > 10 {
        bullets(ps.subrange(0, 10)) + "- ... and "@ + spec_dec((ps.len() - 10) as nat)
            + " more files\n"@
    } else {
        bullets(ps)
    }
}

/// The full request text handed to the completion provider.
pub open spec fn spec_compose_request(stats_text: Seq<char>, details: Seq<char>) -> Seq<char> {
    "Generate a commit message from the following information.\n\nChange statistics:\n"@
        + stats_text + "\n\nFile change details:\n"@ + details
        + "\nProduce one commit message line in the conventional commit style.\nThe description must start with a lower-case letter and stay within 72 characters.\n"@
}

fn digit_str(d: usize) -> (r: &'static str)
    requires
        d < 10,
    ensures
        r@ == seq![dec_digit(d as int)],
{
    if d == 0 {
        proof {
            reveal_strlit("0");
            assert("0"@ =~= seq![dec_digit(0)]);
        }
        "0"
    } else if d == 1 {
        proof {
            reveal_strlit("1");
            assert("1"@ =~= seq![dec_digit(1)]);
        }
        "1"
    } else if d == 2 {
        proof {
            reveal_strlit("2");
            assert("2"@ =~= seq![dec_digit(2)]);
        }
        "2"
    } else if d == 3 {
        proof {
            reveal_strlit("3");
            assert("3"@ =~= seq![dec_digit(3)]);
        }
        "3"
    } else if d == 4 {
        proof {
            reveal_strlit("4");
            assert("4"@ =~= seq![dec_digit(4)]);
        }
        "4"
    } else if d == 5 {
        proof {
            reveal_strlit("5");
            assert("5"@ =~= seq![dec_digit(5)]);
        }
        "5"
    } else if d == 6 {
        proof {
            reveal_strlit("6");
            assert("6"@ =~= seq![dec_digit(6)]);
        }
        "6"
    } else if d == 7 {
        proof {
            reveal_strlit("7");
            assert("7"@ =~= seq![dec_digit(7)]);
        }
        "7"
    } else if d == 8 {
        proof {
            reveal_strlit("8");
            assert("8"@ =~= seq![dec_digit(8)]);
        }
        "8"
    } else {
        proof {
            reveal_strlit("9");
            assert("9"@ =~= seq![dec_digit(9)]);
        }
        "9"
    }
}

/// The decimal rendering of `n` as an owned string.
pub fn dec_str(n: usize) -> (r: String)
    ensures
        r@ == spec_dec(n as nat),
    decreases n,
{
    if n < 10 {
        digit_str(n).to_owned()
    } else {
        let mut s = dec_str(n / 10);
        let d = digit_str(n % 10);
        s.append(d);
        proof {
            assert(spec_dec((n / 10) as nat) + seq![dec_digit((n % 10) as int)] =~= spec_dec(
                (n / 10) as nat,
            ).push(dec_digit((n % 10) as int)));
        }
        s
    }
}

/// Builds the final commit-message request.
pub struct CommitMessageComposer;

impl CommitMessageComposer {
    /// Render the statistics as `N files changed, A insertions(+), D
    /// deletions(-)`.
    pub fn render_stats(stats: &DiffStats) -> (r: String)
        ensures
            r@ == spec_stats_line(
                stats.files_changed as nat,
                stats.lines_added as nat,
                stats.lines_deleted as nat,
            ),
    {
        let mut s = dec_str(stats.files_changed);
        s.append(" files changed, ");
        let a = dec_str(stats.lines_added);
        s.append(a.as_str());
        s.append(" insertions(+), ");
        let d = dec_str(stats.lines_deleted);
        s.append(d.as_str());
        s.append(" deletions(-)");
        proof {
            assert(s@ =~= spec_stats_line(
                stats.files_changed as nat,
                stats.lines_added as nat,
                stats.lines_deleted as nat,
            ));
        }
        s
    }

    /// Render at most the first ten summaries as `- filename: summary`
    /// bullet lines, with a `- ... and N more files` trailer when more than
    /// ten exist.
    pub fn render_file_details(summaries: &Vec<FileSummary>) -> (r: String)
        ensures
            r@ == spec_file_details(pair_views(summaries@)),
    {
        let n = summaries.len();
        let shown: usize = if n > 10 {
            10
        } else {
            n
        };
        let ghost ps = pair_views(summaries@);
        proof {
            crate::summary::lemma_pair_views_len(summaries@);
            assert(ps.subrange(0, 0) =~= Seq::<PairView>::empty());
        }
        let mut s = String::new();
        let mut j: usize = 0;
        while j < shown
            invariant
                j <= shown,
                shown <= n,
                n == summaries@.len(),
                ps == pair_views(summaries@),
                ps.len() == n,
                s@ == bullets(ps.subrange(0, j as int)),
            decreases shown - j,
        {
            proof {
                lemma_pair_views_index(summaries@, j as int);
                assert(ps.subrange(0, j + 1).drop_last() =~= ps.subrange(0, j as int));
                assert(ps.subrange(0, j + 1).last() == ps[j as int]);
            }
            s.append("- ");
            s.append(summaries[j].filename.as_str());
            s.append(": ");
            s.append(summaries[j].summary.as_str());
            s.append("\n");
            proof {
                assert(s@ =~= bullets(ps.subrange(0, j + 1)));
            }
            j = j + 1;
        }
        if n > 10 {
            s.append("- ... and ");
            let c = dec_str(n - 10);
            s.append(c.as_str());
            s.append(" more files\n");
            proof {
                assert(s@ =~= spec_file_details(ps));
            }
        } else {
            proof {
                assert(ps.subrange(0, n as int) =~= ps);
            }
        }
        s
    }

    /// Build the one completion request that yields the final commit
    /// message, from the rendered statistics and file details and the fixed
    /// instruction.
    pub fn compose_request(stats: &DiffStats, summaries: &Vec<FileSummary>) -> (r: String)
        ensures
            r@ == spec_compose_request(
                spec_stats_line(
                    stats.files_changed as nat,
                    stats.lines_added as nat,
                    stats.lines_deleted as nat,
                ),
                spec_file_details(pair_views(summaries@)),
            ),
    {
        let mut s =
            "Generate a commit message from the following information.\n\nChange statistics:\n".to_owned();
        let stats_text = Self::render_stats(stats);
        s.append(stats_text.as_str());
        s.append("\n\nFile change details:\n");
        let details = Self::render_file_details(summaries);
        s.append(details.as_str());
        s.append(
            "\nProduce one commit message line in the conventional commit style.\nThe description must start with a lower-case letter and stay within 72 characters.\n",
        );
        proof {
            assert(s@ =~= spec_compose_request(
                spec_stats_line(
                    stats.files_changed as nat,
                    stats.lines_added as nat,
                    stats.lines_deleted as nat,
                ),
                spec_file_details(pair_views(summaries@)),
            ));
        }
        s
    }
}

} // verus!
