//! Prompt construction for the completion provider.
//!
//! A segment prompt wraps one segment's diff text in a fixed instruction
//! template asking for one short summary line per file; the template's
//! `Format:` and `Example:` section markers are the very prefixes the
//! response parser discards when a model echoes them back. A commit prompt
//! substitutes the staged diff into a configured template at its `{diff}`
//! placeholder.

use vstd::prelude::*;

use crate::segment::DiffSegment;
use crate::text::{matches_at, spec_has_prefix};

verus! {

/// `s` with every occurrence of `pat` replaced by `rep`, scanning left to
/// right without rescanning replacements. An empty pattern replaces
/// nothing.
pub open spec fn spec_replace(s: Seq<char>, pat: Seq<char>, rep: Seq<char>) -> Seq<char>
    decreases s.len(),
{
    if s.len() == 0 {
        s
    } else if pat.len() > 0 && spec_has_prefix(s, pat) {
        rep + spec_replace(s.subrange(pat.len() as int, s.len() as int), pat, rep)
    } else {
        seq![s[0]] + spec_replace(s.drop_first(), pat, rep)
    }
}

/// Replace every occurrence of `pat` in `s` by `rep`.
pub fn replace_all(s: &str, pat: &str, rep: &str) -> (r: String)
    ensures
        r@ == spec_replace(s@, pat@, rep@),
{
    let n = s.unicode_len();
    let m = pat.unicode_len();
    let mut out = String::new();
    let mut i: usize = 0;
    proof {
        assert(s@.subrange(0, n as int) =~= s@);
        assert(Seq::<char>::empty() + spec_replace(s@, pat@, rep@) =~= spec_replace(
            s@,
            pat@,
            rep@,
        ));
    }
    while i < n
        invariant
            i <= n,
            n == s@.len(),
            m == pat@.len(),
            out@ + spec_replace(s@.subrange(i as int, n as int), pat@, rep@) == spec_replace(
                s@,
                pat@,
                rep@,
            ),
        decreases n - i,
    {
        let ghost rest = s@.subrange(i as int, n as int);
        if m > 0 && m <= n - i && matches_at(s, pat, i) {
            proof {
                assert(rest.subrange(0, m as int) =~= s@.subrange(i as int, i + m));
                assert(rest.subrange(m as int, rest.len() as int) =~= s@.subrange(
                    i + m,
                    n as int,
                ));
                assert((out@ + rep@) + spec_replace(s@.subrange(i + m, n as int), pat@, rep@)
                    =~= out@ + (rep@ + spec_replace(s@.subrange(i + m, n as int), pat@, rep@)));
            }
            out.append(rep);
            i = i + m;
        } else {
            proof {
                if m > 0 && m <= n - i {
                    assert(rest.subrange(0, m as int) =~= s@.subrange(i as int, i + m));
                } else if m > n - i {
                    assert(!spec_has_prefix(rest, pat@));
                }
                assert(rest[0] == s@[i as int]);
                assert(rest.drop_first() =~= s@.subrange(i + 1, n as int));
                assert(s@.subrange(i as int, i + 1) =~= seq![s@[i as int]]);
                assert((out@ + seq![s@[i as int]]) + spec_replace(
                    s@.subrange(i + 1, n as int),
                    pat@,
                    rep@,
                ) =~= out@ + (seq![s@[i as int]] + spec_replace(
                    s@.subrange(i + 1, n as int),
                    pat@,
                    rep@,
                )));
            }
            let piece = s.substring_char(i, i + 1);
            out.append(piece);
            i = i + 1;
        }
    }
    proof {
        assert(s@.subrange(n as int, n as int) =~= Seq::<char>::empty());
        assert(out@ + Seq::<char>::empty() =~= out@);
    }
    out
}

/// The text placed before the segment's diff in a segment prompt.
pub open spec fn segment_prompt_head() -> Seq<char> {
    "Summarize each file's changes, one line per file.\n\n"@
}

/// The text placed after the segment's diff: the answer format and an
/// example, whose `Format:` and `Example:` markers the response parser
/// recognizes and discards.
pub open spec fn segment_prompt_tail() -> Seq<char> {
    "\n\nFormat:\nfilename: short description (at most 10 words)\n\nExample:\nsrc/main.rs: add error handling\nconfig.toml: update dependency versions\n"@
}

/// Build the completion request text for one segment.
pub fn build_segment_prompt(segment: &DiffSegment) -> (r: String)
    ensures
        r@ == segment_prompt_head() + segment.content@ + segment_prompt_tail(),
{
    let mut s = "Summarize each file's changes, one line per file.\n\n".to_owned();
    s.append(segment.content.as_str());
    s.append(
        "\n\nFormat:\nfilename: short description (at most 10 words)\n\nExample:\nsrc/main.rs: add error handling\nconfig.toml: update dependency versions\n",
    );
    proof {
        assert(s@ =~= segment_prompt_head() + segment.content@ + segment_prompt_tail());
    }
    s
}

/// Build the commit-message prompt for a small diff by substituting the
/// diff into the configured template at its `{diff}` placeholder.
pub fn build_commit_prompt(template: &str, diff: &str) -> (r: String)
    ensures
        r@ == spec_replace(template@, "{diff}"@, diff@),
{
    replace_all(template, "{diff}", diff)
}

} // verus!
