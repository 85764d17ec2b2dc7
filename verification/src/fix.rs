//! Pulling shell commands out of a model's remediation answer.
//!
//! The answer is expected to carry its commands inside a fenced code block.
//! Fence lines toggle a code-block state; inside a block every trimmed,
//! non-empty line that is not a comment is a command.

use vstd::prelude::*;

use crate::lines::{spec_lines, split_lines, views};
use crate::text::{has_prefix, spec_has_prefix, spec_trim, str_eq, trim};

verus! {

/// The extractor state after some lines: whether a code block is open, and
/// the commands collected so far.
pub ghost struct ExtractState {
    pub in_block: bool,
    pub cmds: Seq<Seq<char>>,
}

/// A trimmed line that opens or closes a code block.
pub open spec fn is_fence_line(t: Seq<char>) -> bool {
    spec_has_prefix(t, "```bash"@) || spec_has_prefix(t, "```sh"@) || t == "```"@
}

/// Feed one line to the extractor.
pub open spec fn extract_step(st: ExtractState, l: Seq<char>) -> ExtractState {
    let t = spec_trim(l);
    if is_fence_line(t) {
        ExtractState { in_block: !st.in_block, cmds: st.cmds }
    } else if st.in_block && t.len() > 0 && !spec_has_prefix(t, "#"@) {
        ExtractState { in_block: st.in_block, cmds: st.cmds.push(t) }
    } else {
        st
    }
}

/// Feed all lines to the extractor, in order.
pub open spec fn extract_lines(ls: Seq<Seq<char>>) -> ExtractState
    decreases ls.len(),
{
    if ls.len() == 0 {
        ExtractState { in_block: false, cmds: Seq::empty() }
    } else {
        extract_step(extract_lines(ls.drop_last()), ls.last())
    }
}

/// The commands of `response`, or nothing when its code blocks hold none.
pub open spec fn spec_extract_commands(response: Seq<char>) -> Option<Seq<Seq<char>>> {
    let st = extract_lines(spec_lines(response));
    if st.cmds.len() == 0 {
        None
    } else {
        Some(st.cmds)
    }
}

/// Extract the shell commands from a model response: the trimmed, non-empty,
/// non-comment lines inside its fenced code blocks, in order, or `None`
/// when there are none.
pub fn extract_commands_from_response(response: &str) -> (r: Option<Vec<String>>)
    ensures
        match r {
            Some(cmds) => Some(views(cmds@)) == spec_extract_commands(response@) && cmds@.len()
                > 0,
            None => spec_extract_commands(response@) is None,
        },
{
    let lines = split_lines(response);
    let n = lines.len();
    let mut cmds: Vec<String> = Vec::new();
    let mut in_block = false;
    let mut j: usize = 0;
    proof {
        assert(views(lines@).subrange(0, 0) =~= Seq::<Seq<char>>::empty());
        assert(views(cmds@) =~= Seq::<Seq<char>>::empty());
    }
    while j < n
        invariant
            j <= n,
            n == lines@.len(),
            views(lines@) == spec_lines(response@),
            ({
                let st = extract_lines(views(lines@).subrange(0, j as int));
                &&& views(cmds@) == st.cmds
                &&& cmds@.len() == st.cmds.len()
                &&& in_block == st.in_block
            }),
        decreases n - j,
    {
        proof {
            let vs = views(lines@);
            assert(vs.subrange(0, j + 1).drop_last() =~= vs.subrange(0, j as int));
            assert(vs.subrange(0, j + 1).last() == lines@[j as int]@);
        }
        let t = trim(lines[j].as_str());
        if has_prefix(t.as_str(), "```bash") || has_prefix(t.as_str(), "```sh") || str_eq(
            t.as_str(),
            "```",
        ) {
            in_block = !in_block;
        } else if in_block && t.unicode_len() > 0 && !has_prefix(t.as_str(), "#") {
            proof {
                assert(views(cmds@.push(t)) =~= views(cmds@).push(t@));
            }
            cmds.push(t);
        }
        j = j + 1;
    }
    proof {
        assert(views(lines@).subrange(0, n as int) =~= views(lines@));
    }
    if cmds.len() == 0 {
        None
    } else {
        Some(cmds)
    }
}

} // verus!
