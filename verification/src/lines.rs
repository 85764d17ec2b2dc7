//! A verified line model for diff and response text.
//!
//! A text is split into lines after every `'\n'`; every line except possibly
//! the last keeps its terminating `'\n'`, so that concatenating the lines in
//! order reconstructs the source text exactly.

use vstd::prelude::*;

verus! {

/// The concatenation of a sequence of character sequences.
pub open spec fn concat_all(ss: Seq<Seq<char>>) -> Seq<char>
    decreases ss.len(),
{
    if ss.len() == 0 {
        Seq::empty()
    } else {
        concat_all(ss.drop_last()) + ss.last()
    }
}

/// The views of a sequence of owned strings.
pub open spec fn views(v: Seq<String>) -> Seq<Seq<char>> {
    v.map_values(|x: String| x@)
}

/// Split `s` into lines, carrying the currently open line `cur`.
pub open spec fn spec_lines_acc(s: Seq<char>, cur: Seq<char>) -> Seq<Seq<char>>
    decreases s.len(),
{
    if s.len() == 0 {
        if cur.len() == 0 {
            Seq::empty()
        } else {
            seq![cur]
        }
    } else if s[0] == '\n' {
        seq![cur.push('\n')] + spec_lines_acc(s.drop_first(), Seq::empty())
    } else {
        spec_lines_acc(s.drop_first(), cur.push(s[0]))
    }
}

/// The lines of `s`, each keeping its `'\n'` terminator when it has one.
pub open spec fn spec_lines(s: Seq<char>) -> Seq<Seq<char>> {
    spec_lines_acc(s, Seq::empty())
}

pub proof fn lemma_concat_all_cons(x: Seq<char>, r: Seq<Seq<char>>)
    ensures
        concat_all(seq![x] + r) == x + concat_all(r),
    decreases r.len(),
{
    if r.len() == 0 {
        assert(seq![x] + r =~= seq![x]);
        assert(seq![x].drop_last() =~= Seq::<Seq<char>>::empty());
        assert(seq![x].last() == x);
        assert(concat_all(Seq::<Seq<char>>::empty()) == Seq::<char>::empty());
        assert(concat_all(seq![x]) == Seq::<char>::empty() + x);
        assert(Seq::<char>::empty() + x =~= x);
        assert(x + concat_all(r) =~= x);
    } else {
        assert((seq![x] + r).drop_last() =~= seq![x] + r.drop_last());
        assert((seq![x] + r).last() == r.last());
        lemma_concat_all_cons(x, r.drop_last());
        assert(x + concat_all(r.drop_last()) + r.last() =~= x + (concat_all(r.drop_last())
            + r.last()));
    }
}

pub proof fn lemma_lines_acc_concat(s: Seq<char>, cur: Seq<char>)
    ensures
        concat_all(spec_lines_acc(s, cur)) == cur + s,
    decreases s.len(),
{
    if s.len() == 0 {
        if cur.len() == 0 {
            assert(cur + s =~= Seq::<char>::empty());
        } else {
            assert(seq![cur].drop_last() =~= Seq::<Seq<char>>::empty());
            assert(seq![cur].last() == cur);
            assert(concat_all(Seq::<Seq<char>>::empty()) == Seq::<char>::empty());
            assert(concat_all(seq![cur]) == Seq::<char>::empty() + cur);
            assert(Seq::<char>::empty() + cur =~= cur);
            assert(cur + s =~= cur);
        }
    } else if s[0] == '\n' {
        lemma_lines_acc_concat(s.drop_first(), Seq::empty());
        lemma_concat_all_cons(cur.push('\n'), spec_lines_acc(s.drop_first(), Seq::empty()));
        assert(cur.push('\n') + (Seq::empty() + s.drop_first()) =~= cur + s);
    } else {
        lemma_lines_acc_concat(s.drop_first(), cur.push(s[0]));
        assert(cur.push(s[0]) + s.drop_first() =~= cur + s);
    }
}

/// Concatenating the lines of `s` in order gives back `s` exactly.
pub proof fn lemma_lines_concat(s: Seq<char>)
    ensures
        concat_all(spec_lines(s)) == s,
{
    lemma_lines_acc_concat(s, Seq::empty());
    assert(Seq::<char>::empty() + s =~= s);
}

pub proof fn lemma_lines_acc_len(s: Seq<char>, cur: Seq<char>)
    ensures
        spec_lines_acc(s, cur).len() == 0 <==> s.len() == 0 && cur.len() == 0,
    decreases s.len(),
{
    if s.len() > 0 && s[0] != '\n' {
        lemma_lines_acc_len(s.drop_first(), cur.push(s[0]));
    }
}

/// A text has no lines exactly when it is empty.
pub proof fn lemma_lines_empty(s: Seq<char>)
    ensures
        spec_lines(s).len() == 0 <==> s.len() == 0,
{
    lemma_lines_acc_len(s, Seq::empty());
}

/// Split `s` into its lines.
pub fn split_lines(s: &str) -> (lines: Vec<String>)
    ensures
        views(lines@) == spec_lines(s@),
{
    let n = s.unicode_len();
    let mut lines: Vec<String> = Vec::new();
    let mut start: usize = 0;
    let mut i: usize = 0;
    proof {
        assert(views(lines@) =~= Seq::<Seq<char>>::empty());
        assert(s@.subrange(0, n as int) =~= s@);
        assert(s@.subrange(0, 0) =~= Seq::<char>::empty());
        assert(Seq::<Seq<char>>::empty() + spec_lines(s@) =~= spec_lines(s@));
    }
    while i < n
        invariant
            start <= i <= n,
            n == s@.len(),
            views(lines@) + spec_lines_acc(
                s@.subrange(i as int, n as int),
                s@.subrange(start as int, i as int),
            ) == spec_lines(s@),
        decreases n - i,
    {
        let ghost rest = s@.subrange(i as int, n as int);
        let ghost cur = s@.subrange(start as int, i as int);
        proof {
            assert(rest[0] == s@[i as int]);
            assert(rest.drop_first() =~= s@.subrange(i + 1, n as int));
        }
        let c = s.get_char(i);
        if c == '\n' {
            let line = s.substring_char(start, i + 1).to_owned();
            proof {
                assert(cur.push('\n') =~= s@.subrange(start as int, i + 1));
                assert(line@ == cur.push('\n'));
                assert(views(lines@.push(line)) =~= views(lines@).push(line@));
                assert(views(lines@).push(line@) + spec_lines_acc(
                    rest.drop_first(),
                    Seq::empty(),
                ) =~= views(lines@) + (seq![cur.push('\n')] + spec_lines_acc(
                    rest.drop_first(),
                    Seq::empty(),
                )));
                assert(s@.subrange(i + 1, i + 1) =~= Seq::<char>::empty());
            }
            lines.push(line);
            start = i + 1;
        } else {
            proof {
                assert(cur.push(s@[i as int]) =~= s@.subrange(start as int, i + 1));
            }
        }
        i = i + 1;
    }
    if start < n {
        let line = s.substring_char(start, n).to_owned();
        proof {
            let cur = s@.subrange(start as int, n as int);
            assert(s@.subrange(n as int, n as int) =~= Seq::<char>::empty());
            assert(spec_lines_acc(Seq::<char>::empty(), cur) =~= seq![cur]);
            assert(views(lines@.push(line)) =~= views(lines@).push(line@));
            assert(views(lines@) + seq![cur] =~= views(lines@).push(line@));
        }
        lines.push(line);
    } else {
        proof {
            assert(s@.subrange(n as int, n as int) =~= Seq::<char>::empty());
            assert(s@.subrange(start as int, n as int) =~= Seq::<char>::empty());
            assert(views(lines@) + Seq::<Seq<char>>::empty() =~= views(lines@));
        }
    }
    lines
}

} // verus!
