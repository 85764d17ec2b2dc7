//! Turning one free-text provider response into structured per-file
//! summaries.
//!
//! The response is read line by line. Blank lines and echoes of the
//! instruction template are discarded; every other line is split at its
//! first `:` into a candidate filename and a candidate summary, both
//! trimmed. A pair is accepted only when the candidate filename fuzzily
//! matches (containment either way) one of the files the segment was
//! expected to cover, and each expected file can justify at most one
//! accepted pair. When nothing parses but files were expected, one
//! placeholder summary per expected file is synthesized instead, so a
//! malformed response never makes files vanish downstream. Parsing never
//! fails.

use vstd::prelude::*;

use crate::lines::{spec_lines, split_lines, views};
use crate::text::{
    contains_sub, find_char, has_prefix, spec_contains, spec_has_prefix, spec_trim, trim,
};

verus! {

/// One file's short human-readable summary.
#[derive(Debug, Clone, PartialEq)]
pub struct FileSummary {
    pub filename: String,
    pub summary: String,
}

/// The mathematical image of one accepted summary line.
pub ghost struct PairView {
    pub name: Seq<char>,
    pub text: Seq<char>,
}

/// The parser state after some lines: accepted pairs, and which expected
/// files already justified a pair.
pub ghost struct ParseState {
    pub pairs: Seq<PairView>,
    pub used: Seq<bool>,
}

/// A line that echoes the instruction template rather than answering it.
pub open spec fn is_marker_line(t: Seq<char>) -> bool {
    spec_has_prefix(t, "Format:"@) || spec_has_prefix(t, "Example:"@)
}

/// A candidate filename matches an expected file when either contains the
/// other, tolerating path-prefix and truncation drift in the response.
pub open spec fn fuzzy_match(name: Seq<char>, f: Seq<char>) -> bool {
    spec_contains(f, name) || spec_contains(name, f)
}

/// The position of the first `:` of `t`, or `-1` when it has none.
pub open spec fn colon_pos(t: Seq<char>) -> int
    decreases t.len(),
{
    if t.len() == 0 {
        -1
    } else if t[0] == ':' {
        0
    } else if colon_pos(t.drop_first()) == -1 {
        -1
    } else {
        1 + colon_pos(t.drop_first())
    }
}

/// The candidate pair a response line offers, if any.
pub open spec fn line_pair(l: Seq<char>) -> Option<PairView> {
    let t = spec_trim(l);
    if t.len() == 0 || is_marker_line(t) {
        None
    } else if colon_pos(t) >= 0 {
        Some(
            PairView {
                name: spec_trim(t.subrange(0, colon_pos(t))),
                text: spec_trim(t.subrange(colon_pos(t) + 1, t.len() as int)),
            },
        )
    } else {
        None
    }
}

/// The smallest index at or after `i` of an expected file that is not yet
/// used and fuzzily matches `name`, or `-1`.
pub open spec fn first_unused_match(
    name: Seq<char>,
    expected: Seq<Seq<char>>,
    used: Seq<bool>,
    i: int,
) -> int
    decreases expected.len() - i,
{
    if i < 0 || i >= expected.len() || expected.len() != used.len() {
        -1
    } else if !used[i] && fuzzy_match(name, expected[i]) {
        i
    } else {
        first_unused_match(name, expected, used, i + 1)
    }
}

/// Feed one line to the parser.
pub open spec fn parse_step(st: ParseState, l: Seq<char>, expected: Seq<Seq<char>>) -> ParseState {
    match line_pair(l) {
        None => st,
        Some(pv) => {
            let m = first_unused_match(pv.name, expected, st.used, 0);
            if m >= 0 {
                ParseState { pairs: st.pairs.push(pv), used: st.used.update(m, true) }
            } else {
                st
            }
        },
    }
}

/// Feed all lines to the parser, in order.
pub open spec fn parse_lines(ls: Seq<Seq<char>>, expected: Seq<Seq<char>>) -> ParseState
    decreases ls.len(),
{
    if ls.len() == 0 {
        ParseState { pairs: Seq::empty(), used: Seq::new(expected.len(), |i: int| false) }
    } else {
        parse_step(parse_lines(ls.drop_last(), expected), ls.last(), expected)
    }
}

/// The summaries parsed from one response: the accepted pairs, or one
/// placeholder per expected file when nothing parsed but files were
/// expected.
pub open spec fn spec_parse(response: Seq<char>, expected: Seq<Seq<char>>) -> Seq<PairView> {
    let st = parse_lines(spec_lines(response), expected);
    if st.pairs.len() == 0 && expected.len() > 0 {
        Seq::new(expected.len(), |i: int| PairView { name: expected[i], text: "file updated"@ })
    } else {
        st.pairs
    }
}

/// The mathematical image of a summary list.
pub open spec fn pair_views(v: Seq<FileSummary>) -> Seq<PairView>
    decreases v.len(),
{
    if v.len() == 0 {
        Seq::empty()
    } else {
        pair_views(v.drop_last()).push(
            PairView { name: v.last().filename@, text: v.last().summary@ },
        )
    }
}

pub proof fn lemma_pair_views_index(v: Seq<FileSummary>, i: int)
    requires
        0 <= i < v.len(),
    ensures
        pair_views(v).len() == v.len(),
        pair_views(v)[i].name == v[i].filename@,
        pair_views(v)[i].text == v[i].summary@,
    decreases v.len(),
{
    lemma_pair_views_len(v);
    if i < v.len() - 1 {
        lemma_pair_views_index(v.drop_last(), i);
        assert(pair_views(v)[i] == pair_views(v.drop_last())[i]);
    }
}

pub proof fn lemma_pair_views_len(v: Seq<FileSummary>)
    ensures
        pair_views(v).len() == v.len(),
    decreases v.len(),
{
    if v.len() > 0 {
        lemma_pair_views_len(v.drop_last());
    }
}

/// `pair_views` distributes over concatenation.
pub proof fn lemma_pair_views_concat(a: Seq<FileSummary>, b: Seq<FileSummary>)
    ensures
        pair_views(a + b) == pair_views(a) + pair_views(b),
    decreases b.len(),
{
    if b.len() == 0 {
        assert(a + b =~= a);
        assert(pair_views(a) + pair_views(b) =~= pair_views(a));
    } else {
        assert((a + b).drop_last() =~= a + b.drop_last());
        lemma_pair_views_concat(a, b.drop_last());
        assert((pair_views(a) + pair_views(b.drop_last())).push(
            PairView { name: b.last().filename@, text: b.last().summary@ },
        ) =~= pair_views(a) + pair_views(b));
    }
}

proof fn lemma_colon_pos_at(t: Seq<char>, i: int)
    requires
        0 <= i < t.len(),
        t[i] == ':',
        forall|k: int| 0 <= k < i ==> t[k] != ':',
    ensures
        colon_pos(t) == i,
    decreases t.len(),
{
    if i > 0 {
        lemma_colon_pos_at(t.drop_first(), i - 1);
    }
}

proof fn lemma_colon_pos_none(t: Seq<char>)
    requires
        forall|k: int| 0 <= k < t.len() ==> t[k] != ':',
    ensures
        colon_pos(t) == -1,
    decreases t.len(),
{
    if t.len() > 0 {
        lemma_colon_pos_none(t.drop_first());
    }
}

proof fn lemma_first_unused_from(
    name: Seq<char>,
    expected: Seq<Seq<char>>,
    used: Seq<bool>,
    i: int,
    m: int,
)
    requires
        expected.len() == used.len(),
        0 <= i <= m <= expected.len(),
        forall|k: int| i <= k < m ==> used[k] || !fuzzy_match(name, expected[k]),
        m < expected.len() ==> !used[m] && fuzzy_match(name, expected[m]),
    ensures
        first_unused_match(name, expected, used, i) == if m < expected.len() {
            m
        } else {
            -1
        },
    decreases m - i,
{
    if i < m {
        lemma_first_unused_from(name, expected, used, i + 1, m);
    }
}

/// Parses one provider response into per-file summaries for the segment
/// that produced it.
pub struct SummaryResponseParser;

impl SummaryResponseParser {
    /// Parse `response_text` against the files the segment was expected to
    /// cover. Never fails: arbitrary text yields either the accepted pairs
    /// or, when none parse and files were expected, one placeholder summary
    /// per expected file.
    pub fn parse(response_text: &str, expected_files: &Vec<String>) -> (r: Vec<FileSummary>)
        ensures
            ({
                let ps = spec_parse(response_text@, views(expected_files@));
                &&& r@.len() == ps.len()
                &&& forall|i: int|
                    0 <= i < ps.len() ==> (#[trigger] r@[i]).filename@ == ps[i].name
                        && r@[i].summary@ == ps[i].text
            }),
    {
        let ghost expected = views(expected_files@);
        let lines = split_lines(response_text);
        let n = lines.len();
        let ne = expected_files.len();
        let mut pairs: Vec<FileSummary> = Vec::new();
        let mut used: Vec<bool> = Vec::new();
        let mut u: usize = 0;
        while u < ne
            invariant
                u <= ne,
                used@.len() == u,
                forall|k: int| 0 <= k < u ==> used@[k] == false,
            decreases ne - u,
        {
            used.push(false);
            u = u + 1;
        }
        proof {
            assert(used@ =~= Seq::new(expected.len(), |i: int| false));
            assert(pair_views(pairs@) =~= Seq::<PairView>::empty());
            assert(views(lines@).subrange(0, 0) =~= Seq::<Seq<char>>::empty());
        }
        let mut j: usize = 0;
        while j < n
            invariant
                j <= n,
                n == lines@.len(),
                ne == expected.len(),
                views(lines@) == spec_lines(response_text@),
                expected == views(expected_files@),
                ne == expected_files@.len(),
                ({
                    let st = parse_lines(views(lines@).subrange(0, j as int), expected);
                    &&& pair_views(pairs@) == st.pairs
                    &&& pair_views(pairs@).len() == pairs@.len()
                    &&& used@ == st.used
                    &&& used@.len() == ne
                }),
            decreases n - j,
        {
            let ghost st = parse_lines(views(lines@).subrange(0, j as int), expected);
            proof {
                let vs = views(lines@);
                assert(vs.subrange(0, j + 1).drop_last() =~= vs.subrange(0, j as int));
                assert(vs.subrange(0, j + 1).last() == lines@[j as int]@);
            }
            let t = trim(lines[j].as_str());
            let ghost tv = spec_trim(lines@[j as int]@);
            if t.unicode_len() == 0 || has_prefix(t.as_str(), "Format:") || has_prefix(
                t.as_str(),
                "Example:",
            ) {
                // Blank line or template echo: contributes nothing.
            } else {
                match find_char(t.as_str(), ':') {
                    Some(cp) => {
                        proof {
                            lemma_colon_pos_at(tv, cp as int);
                        }
                        let tlen = t.unicode_len();
                        let name = trim(t.as_str().substring_char(0, cp));
                        let stext = trim(t.as_str().substring_char(cp + 1, tlen));
                        let ghost pv = PairView { name: name@, text: stext@ };
                        let mut m: usize = 0;
                        let mut found = false;
                        while m < ne
                            invariant_except_break
                                0 <= m <= ne,
                                !found,
                                ne == expected.len(),
                                ne == expected_files@.len(),
                                expected == views(expected_files@),
                                pv.name == name@,
                                used@.len() == ne,
                                forall|k: int|
                                    0 <= k < m ==> used@[k] || !fuzzy_match(
                                        pv.name,
                                        expected[k],
                                    ),
                            ensures
                                0 <= m <= ne,
                                ne == expected.len(),
                                used@.len() == ne,
                                forall|k: int|
                                    0 <= k < m ==> used@[k] || !fuzzy_match(
                                        pv.name,
                                        expected[k],
                                    ),
                                found ==> m < ne && !used@[m as int] && fuzzy_match(
                                    pv.name,
                                    expected[m as int],
                                ),
                                !found ==> m == ne,
                            decreases ne - m,
                        {
                            let f = &expected_files[m];
                            let um = used[m];
                            let c1 = contains_sub(f.as_str(), name.as_str());
                            let c2 = contains_sub(name.as_str(), f.as_str());
                            proof {
                                assert(expected[m as int] == f@);
                                assert((c1 || c2) == fuzzy_match(pv.name, expected[m as int]));
                            }
                            if !um && (c1 || c2) {
                                found = true;
                                break;
                            }
                            m = m + 1;
                        }
                        proof {
                            if found {
                                lemma_first_unused_from(pv.name, expected, used@, 0, m as int);
                            } else {
                                lemma_first_unused_from(pv.name, expected, used@, 0, ne as int);
                            }
                        }
                        if found {
                            let fs = FileSummary { filename: name, summary: stext };
                            proof {
                                assert(pairs@.push(fs).drop_last() =~= pairs@);
                                lemma_pair_views_len(pairs@.push(fs));
                            }
                            pairs.push(fs);
                            used.set(m, true);
                        }
                    },
                    None => {
                        proof {
                            lemma_colon_pos_none(tv);
                        }
                    },
                }
            }
            j = j + 1;
        }
        proof {
            assert(views(lines@).subrange(0, n as int) =~= views(lines@));
        }
        if pairs.len() == 0 && ne > 0 {
            // Fallback: one placeholder per expected file.
            let mut out: Vec<FileSummary> = Vec::new();
            let mut q: usize = 0;
            while q < ne
                invariant
                    q <= ne,
                    ne == expected_files@.len(),
                    expected == views(expected_files@),
                    out@.len() == q,
                    forall|i: int|
                        0 <= i < q ==> (#[trigger] out@[i]).filename@ == expected[i]
                            && out@[i].summary@ == "file updated"@,
                decreases ne - q,
            {
                let fs = FileSummary {
                    filename: expected_files[q].clone(),
                    summary: "file updated".to_owned(),
                };
                out.push(fs);
                q = q + 1;
            }
            out
        } else {
            proof {
                let ps = spec_parse(response_text@, expected);
                assert forall|i: int| 0 <= i < ps.len() implies (#[trigger] pairs@[i]).filename@
                    == ps[i].name && pairs@[i].summary@ == ps[i].text by {
                    lemma_pair_views_index(pairs@, i);
                }
            }
            pairs
        }
    }
}

/// How many expected files already justified a pair.
pub open spec fn count_trues(u: Seq<bool>) -> nat
    decreases u.len(),
{
    if u.len() == 0 {
        0
    } else {
        count_trues(u.drop_last()) + if u.last() {
            1nat
        } else {
            0nat
        }
    }
}

proof fn lemma_count_trues_le(u: Seq<bool>)
    ensures
        count_trues(u) <= u.len(),
    decreases u.len(),
{
    if u.len() > 0 {
        lemma_count_trues_le(u.drop_last());
    }
}

proof fn lemma_count_trues_update(u: Seq<bool>, m: int)
    requires
        0 <= m < u.len(),
        !u[m],
    ensures
        count_trues(u.update(m, true)) == count_trues(u) + 1,
    decreases u.len(),
{
    if m == u.len() - 1 {
        assert(u.update(m, true).drop_last() =~= u.drop_last());
    } else {
        assert(u.update(m, true).drop_last() =~= u.drop_last().update(m, true));
        lemma_count_trues_update(u.drop_last(), m);
    }
}

proof fn lemma_parse_lines_counts(ls: Seq<Seq<char>>, expected: Seq<Seq<char>>)
    ensures
        parse_lines(ls, expected).used.len() == expected.len(),
        parse_lines(ls, expected).pairs.len() == count_trues(parse_lines(ls, expected).used),
    decreases ls.len(),
{
    if ls.len() == 0 {
        let u0 = Seq::new(expected.len(), |i: int| false);
        lemma_count_trues_none(u0);
    } else {
        lemma_parse_lines_counts(ls.drop_last(), expected);
        let st = parse_lines(ls.drop_last(), expected);
        match line_pair(ls.last()) {
            None => {},
            Some(pv) => {
                let m = first_unused_match(pv.name, expected, st.used, 0);
                if m >= 0 {
                    lemma_first_unused_props(pv.name, expected, st.used, 0);
                    lemma_count_trues_update(st.used, m);
                }
            },
        }
    }
}

proof fn lemma_count_trues_none(u: Seq<bool>)
    requires
        forall|k: int| 0 <= k < u.len() ==> !u[k],
    ensures
        count_trues(u) == 0,
    decreases u.len(),
{
    if u.len() > 0 {
        lemma_count_trues_none(u.drop_last());
    }
}

proof fn lemma_first_unused_props(
    name: Seq<char>,
    expected: Seq<Seq<char>>,
    used: Seq<bool>,
    i: int,
)
    requires
        first_unused_match(name, expected, used, i) >= 0,
    ensures
        ({
            let m = first_unused_match(name, expected, used, i);
            &&& i <= m < expected.len()
            &&& expected.len() == used.len()
            &&& !used[m]
        }),
    decreases expected.len() - i,
{
    if !(i < 0 || i >= expected.len() || expected.len() != used.len()) {
        if !(!used[i] && fuzzy_match(name, expected[i])) {
            lemma_first_unused_props(name, expected, used, i + 1);
        }
    }
}

/// Parsing never fails and never over-produces: with at least one expected
/// file, the result holds between one and `expected.len()` summaries, for
/// every response text.
pub proof fn lemma_parse_len_bounds(response: Seq<char>, expected: Seq<Seq<char>>)
    requires
        expected.len() > 0,
    ensures
        1 <= spec_parse(response, expected).len() <= expected.len(),
{
    let st = parse_lines(spec_lines(response), expected);
    lemma_parse_lines_counts(spec_lines(response), expected);
    lemma_count_trues_le(st.used);
}

} // verus!
