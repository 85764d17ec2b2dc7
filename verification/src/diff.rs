//! Aggregate change statistics over a unified diff.

use vstd::prelude::*;

use crate::lines::{spec_lines, split_lines, views};
use crate::text::{has_prefix, spec_has_prefix};

verus! {

/// A line that opens a new per-file block of a unified diff.
pub open spec fn is_header_line(l: Seq<char>) -> bool {
    spec_has_prefix(l, "diff --git "@)
}

/// An added line: starts with `+` but is not the `+++` file marker.
pub open spec fn is_added_line(l: Seq<char>) -> bool {
    spec_has_prefix(l, "+"@) && !spec_has_prefix(l, "+++"@)
}

/// A removed line: starts with `-` but is not the `---` file marker.
pub open spec fn is_deleted_line(l: Seq<char>) -> bool {
    spec_has_prefix(l, "-"@) && !spec_has_prefix(l, "---"@)
}

/// How many of the given lines are file headers.
pub open spec fn count_headers(ls: Seq<Seq<char>>) -> nat
    decreases ls.len(),
{
    if ls.len() == 0 {
        0
    } else {
        count_headers(ls.drop_last()) + if is_header_line(ls.last()) {
            1nat
        } else {
            0nat
        }
    }
}

/// How many of the given lines are added lines.
pub open spec fn count_added(ls: Seq<Seq<char>>) -> nat
    decreases ls.len(),
{
    if ls.len() == 0 {
        0
    } else {
        count_added(ls.drop_last()) + if is_added_line(ls.last()) {
            1nat
        } else {
            0nat
        }
    }
}

/// How many of the given lines are removed lines.
pub open spec fn count_deleted(ls: Seq<Seq<char>>) -> nat
    decreases ls.len(),
{
    if ls.len() == 0 {
        0
    } else {
        count_deleted(ls.drop_last()) + if is_deleted_line(ls.last()) {
            1nat
        } else {
            0nat
        }
    }
}

/// Aggregate statistics of one staged diff, derived once from its text and
/// never mutated afterwards.
#[derive(Debug, Clone, Copy, PartialEq, Eq, Structural)]
pub struct DiffStats {
    pub files_changed: usize,
    pub lines_added: usize,
    pub lines_deleted: usize,
}

/// Computes [`DiffStats`] from the raw text of a unified diff.
pub struct DiffStatAnalyzer;

impl DiffStatAnalyzer {
    /// Count file headers, added lines and removed lines of `diff`.
    ///
    /// Total on every input: malformed or empty text simply yields the
    /// counts that its lines justify, in the worst case all zero.
    pub fn analyze(diff: &str) -> (r: DiffStats)
        ensures
            r.files_changed == count_headers(spec_lines(diff@)),
            r.lines_added == count_added(spec_lines(diff@)),
            r.lines_deleted == count_deleted(spec_lines(diff@)),
    {
        let lines = split_lines(diff);
        let n = lines.len();
        let mut files: usize = 0;
        let mut added: usize = 0;
        let mut deleted: usize = 0;
        let mut j: usize = 0;
        while j < n
            invariant
                j <= n,
                n == lines@.len(),
                views(lines@) == spec_lines(diff@),
                files <= j,
                added <= j,
                deleted <= j,
                files == count_headers(views(lines@).subrange(0, j as int)),
                added == count_added(views(lines@).subrange(0, j as int)),
                deleted == count_deleted(views(lines@).subrange(0, j as int)),
            decreases n - j,
        {
            proof {
                let vs = views(lines@);
                assert(vs.subrange(0, j + 1).drop_last() =~= vs.subrange(0, j as int));
                assert(vs.subrange(0, j + 1).last() == lines@[j as int]@);
            }
            let line = &lines[j];
            if has_prefix(line.as_str(), "diff --git ") {
                files = files + 1;
            }
            if has_prefix(line.as_str(), "+") && !has_prefix(line.as_str(), "+++") {
                added = added + 1;
            }
            if has_prefix(line.as_str(), "-") && !has_prefix(line.as_str(), "---") {
                deleted = deleted + 1;
            }
            j = j + 1;
        }
        proof {
            assert(views(lines@).subrange(0, n as int) =~= views(lines@));
        }
        DiffStats { files_changed: files, lines_added: added, lines_deleted: deleted }
    }
}

} // verus!
