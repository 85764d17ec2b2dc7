//! Splitting a unified diff into ordered, size-bounded segments along file
//! boundaries.
//!
//! The diff is first cut into per-file blocks, one per `diff --git` header
//! (text before the first header forms a headerless preamble block). The
//! blocks are packed greedily, in order, into segments: a block joins the
//! open segment while the combined size stays within the bound, otherwise
//! the segment is closed and a new one starts. A single block larger than
//! the bound becomes its own oversized segment rather than being dropped.

use vstd::prelude::*;

use crate::diff::is_header_line;
use crate::lines::{concat_all, spec_lines, split_lines, views};
use crate::text::{has_prefix, rfind_char, spec_has_prefix};

verus! {

/// The mathematical image of one per-file block: its text, and the filename
/// of its header when it has one.
pub ghost struct BlockView {
    pub content: Seq<char>,
    pub file: Option<Seq<char>>,
}

/// `l` without its trailing `'\n'`, if any.
pub open spec fn strip_newline(l: Seq<char>) -> Seq<char> {
    if l.len() > 0 && l[l.len() - 1] == '\n' {
        l.drop_last()
    } else {
        l
    }
}

/// The suffix of `r` after its last space, or all of `r` when it has none.
pub open spec fn after_last_space(r: Seq<char>) -> Seq<char>
    decreases r.len(),
{
    if r.len() == 0 {
        r
    } else if r[r.len() - 1] == ' ' {
        Seq::empty()
    } else {
        after_last_space(r.drop_last()).push(r[r.len() - 1])
    }
}

/// `t` without a leading `b/`, if present.
pub open spec fn strip_b_slash(t: Seq<char>) -> Seq<char> {
    if spec_has_prefix(t, "b/"@) {
        t.subrange(2, t.len() as int)
    } else {
        t
    }
}

/// What follows the `diff --git ` marker on a header line, without the
/// trailing newline.
pub open spec fn header_rest(l: Seq<char>) -> Seq<char> {
    let t = strip_newline(l);
    if t.len() >= 11 {
        t.subrange(11, t.len() as int)
    } else {
        Seq::empty()
    }
}

/// The filename a header line names: the last space-separated word of the
/// header, without its `b/` path marker.
pub open spec fn header_file_name(l: Seq<char>) -> Seq<char> {
    strip_b_slash(after_last_space(header_rest(l)))
}

/// The per-file blocks of a line sequence: a new block opens at every header
/// line; lines before the first header form a headerless preamble block.
pub open spec fn spec_file_blocks(ls: Seq<Seq<char>>) -> Seq<BlockView>
    decreases ls.len(),
{
    if ls.len() == 0 {
        Seq::empty()
    } else {
        let rest = spec_file_blocks(ls.drop_last());
        let l = ls.last();
        if is_header_line(l) {
            rest.push(BlockView { content: l, file: Some(header_file_name(l)) })
        } else if rest.len() == 0 {
            rest.push(BlockView { content: l, file: None })
        } else {
            let b = rest.last();
            rest.update(rest.len() - 1, BlockView { content: b.content + l, file: b.file })
        }
    }
}

/// The concatenated text of a sequence of blocks.
pub open spec fn blocks_content(bs: Seq<BlockView>) -> Seq<char>
    decreases bs.len(),
{
    if bs.len() == 0 {
        Seq::empty()
    } else {
        blocks_content(bs.drop_last()) + bs.last().content
    }
}

/// The filenames of a sequence of blocks, in order, one per header block.
pub open spec fn blocks_files(bs: Seq<BlockView>) -> Seq<Seq<char>>
    decreases bs.len(),
{
    if bs.len() == 0 {
        Seq::empty()
    } else {
        blocks_files(bs.drop_last()) + match bs.last().file {
            Some(f) => seq![f],
            None => Seq::empty(),
        }
    }
}

/// Greedy packing of blocks into groups: a block joins the open (last) group
/// while the group text plus the block text stays within `max`, otherwise a
/// new group opens. Groups partition the blocks in order.
pub open spec fn spec_pack(bs: Seq<BlockView>, max: int) -> Seq<Seq<BlockView>>
    decreases bs.len(),
{
    if bs.len() == 0 {
        Seq::empty()
    } else {
        let rest = spec_pack(bs.drop_last(), max);
        let b = bs.last();
        if rest.len() == 0 {
            seq![seq![b]]
        } else if blocks_content(rest.last()).len() + b.content.len() <= max {
            rest.update(rest.len() - 1, rest.last().push(b))
        } else {
            rest.push(seq![b])
        }
    }
}

/// One contiguous, file-aligned slice of a diff: the unit of work handed to
/// the completion provider. Produced once, consumed once, never mutated.
#[derive(Debug, Clone, PartialEq)]
pub struct DiffSegment {
    pub content: String,
    pub files: Vec<String>,
}

struct FileBlock {
    content: String,
    file: Option<String>,
}

spec fn fb_abs(v: Seq<FileBlock>) -> Seq<BlockView>
    decreases v.len(),
{
    if v.len() == 0 {
        Seq::empty()
    } else {
        fb_abs(v.drop_last()).push(
            BlockView {
                content: v.last().content@,
                file: match v.last().file {
                    Some(name) => Some(name@),
                    None => None,
                },
            },
        )
    }
}

proof fn lemma_after_last_space_none(r: Seq<char>)
    requires
        forall|k: int| 0 <= k < r.len() ==> r[k] != ' ',
    ensures
        after_last_space(r) == r,
    decreases r.len(),
{
    if r.len() > 0 {
        lemma_after_last_space_none(r.drop_last());
        assert(r.drop_last().push(r[r.len() - 1]) =~= r);
    }
}

proof fn lemma_after_last_space_at(r: Seq<char>, i: int)
    requires
        0 <= i < r.len(),
        r[i] == ' ',
        forall|k: int| i < k < r.len() ==> r[k] != ' ',
    ensures
        after_last_space(r) == r.subrange(i + 1, r.len() as int),
    decreases r.len(),
{
    if i == r.len() - 1 {
        assert(r.subrange(i + 1, r.len() as int) =~= Seq::<char>::empty());
    } else {
        lemma_after_last_space_at(r.drop_last(), i);
        assert(r.drop_last().subrange(i + 1, r.len() - 1).push(r[r.len() - 1]) =~= r.subrange(
            i + 1,
            r.len() as int,
        ));
    }
}

/// Extract the filename named by a header line.
fn header_file(line: &str) -> (r: String)
    ensures
        r@ == header_file_name(line@),
{
    let n = line.unicode_len();
    let t_end: usize = if n > 0 && line.get_char(n - 1) == '\n' {
        n - 1
    } else {
        n
    };
    proof {
        assert(strip_newline(line@) =~= line@.subrange(0, t_end as int));
    }
    let rest: &str = if t_end >= 11 {
        line.substring_char(11, t_end)
    } else {
        line.substring_char(t_end, t_end)
    };
    proof {
        if t_end < 11 {
            assert(line@.subrange(t_end as int, t_end as int) =~= Seq::<char>::empty());
        }
        assert(line@.subrange(0, t_end as int).len() == t_end as int);
        if t_end >= 11 {
            assert(line@.subrange(0, t_end as int).subrange(11, t_end as int) =~= line@.subrange(
                11,
                t_end as int,
            ));
        }
        assert(rest@ == header_rest(line@));
    }
    let m = rest.unicode_len();
    let tail: &str = match rfind_char(rest, ' ') {
        Some(i) => {
            proof {
                lemma_after_last_space_at(rest@, i as int);
            }
            rest.substring_char(i + 1, m)
        },
        None => {
            proof {
                lemma_after_last_space_none(rest@);
                assert(rest@.subrange(0, m as int) =~= rest@);
            }
            rest.substring_char(0, m)
        },
    };
    proof {
        assert(tail@ == after_last_space(header_rest(line@)));
    }
    if has_prefix(tail, "b/") {
        proof {
            reveal_strlit("b/");
        }
        let k = tail.unicode_len();
        tail.substring_char(2, k).to_owned()
    } else {
        tail.to_owned()
    }
}

/// Cut the diff text into per-file blocks.
fn build_blocks(diff: &str) -> (blocks: Vec<FileBlock>)
    ensures
        fb_abs(blocks@) == spec_file_blocks(spec_lines(diff@)),
{
    let lines = split_lines(diff);
    let n = lines.len();
    let mut blocks: Vec<FileBlock> = Vec::new();
    let mut j: usize = 0;
    proof {
        assert(views(lines@).subrange(0, 0) =~= Seq::<Seq<char>>::empty());
    }
    while j < n
        invariant
            j <= n,
            n == lines@.len(),
            views(lines@) == spec_lines(diff@),
            fb_abs(blocks@) == spec_file_blocks(views(lines@).subrange(0, j as int)),
            fb_abs(blocks@).len() == blocks@.len(),
        decreases n - j,
    {
        proof {
            let vs = views(lines@);
            assert(vs.subrange(0, j + 1).drop_last() =~= vs.subrange(0, j as int));
            assert(vs.subrange(0, j + 1).last() == lines@[j as int]@);
        }
        let line = &lines[j];
        if has_prefix(line.as_str(), "diff --git ") {
            let name = header_file(line.as_str());
            let fb = FileBlock { content: line.clone(), file: Some(name) };
            proof {
                assert(blocks@.push(fb).drop_last() =~= blocks@);
            }
            blocks.push(fb);
        } else if blocks.len() == 0 {
            let fb = FileBlock { content: line.clone(), file: None };
            proof {
                assert(blocks@.push(fb).drop_last() =~= blocks@);
            }
            blocks.push(fb);
        } else {
            let mut fb = blocks.pop().unwrap();
            fb.content.append(line.as_str());
            proof {
                assert(blocks@.push(fb).drop_last() =~= blocks@);
            }
            blocks.push(fb);
        }
        j = j + 1;
    }
    proof {
        assert(views(lines@).subrange(0, n as int) =~= views(lines@));
    }
    blocks
}

/// Splits a unified diff into ordered, size-bounded [`DiffSegment`] values.
pub struct DiffSegmenter;

impl DiffSegmenter {
    /// Split `diff` into segments whose text, concatenated in order, is
    /// exactly `diff`. A segment's text stays within `max_unit_size` except
    /// when a single file block alone exceeds the bound; such a block forms
    /// its own oversized segment. The result is empty exactly when `diff`
    /// is empty.
    pub fn segment(diff: &str, max_unit_size: usize) -> (segs: Vec<DiffSegment>)
        ensures
            ({
                let groups = spec_pack(
                    spec_file_blocks(spec_lines(diff@)),
                    max_unit_size as int,
                );
                &&& segs@.len() == groups.len()
                &&& forall|i: int|
                    0 <= i < groups.len() ==> (#[trigger] segs@[i]).content@ == blocks_content(
                        groups[i],
                    ) && views(segs@[i].files@) == blocks_files(groups[i])
            }),
            segs@.len() == 0 <==> diff@.len() == 0,
    {
        let blocks = build_blocks(diff);
        let ghost all = spec_file_blocks(spec_lines(diff@));
        let nb = blocks.len();
        let mut segs: Vec<DiffSegment> = Vec::new();
        proof {
            lemma_file_blocks_empty(spec_lines(diff@));
            crate::lines::lemma_lines_empty(diff@);
            lemma_fb_abs_len(blocks@);
        }
        if nb == 0 {
            return segs;
        }
        let mut cur_content: String = blocks[0].content.clone();
        let mut cur_files: Vec<String> = Vec::new();
        match &blocks[0].file {
            Some(f) => {
                cur_files.push(f.clone());
            },
            None => {},
        }
        let mut k: usize = 1;
        proof {
            lemma_fb_abs_index(blocks@, 0);
            assert(all.subrange(0, 1).drop_last() =~= Seq::<BlockView>::empty());
            assert(all.subrange(0, 1).last() == all[0]);
            assert(spec_pack(Seq::<BlockView>::empty(), max_unit_size as int)
                =~= Seq::<Seq<BlockView>>::empty());
            assert(blocks_content(Seq::<BlockView>::empty()) == Seq::<char>::empty());
            assert(blocks_files(Seq::<BlockView>::empty()) == Seq::<Seq<char>>::empty());
            let g0 = spec_pack(all.subrange(0, 1), max_unit_size as int);
            assert(g0 =~= seq![seq![all[0]]]);
            assert(seq![all[0]].drop_last() =~= Seq::<BlockView>::empty());
            assert(Seq::<char>::empty() + all[0].content =~= all[0].content);
            assert(blocks_content(seq![all[0]]) == all[0].content);
            match all[0].file {
                Some(f) => {
                    assert(Seq::<Seq<char>>::empty() + seq![f] =~= seq![f]);
                    assert(views(cur_files@) =~= seq![f]);
                },
                None => {
                    assert(Seq::<Seq<char>>::empty() + Seq::<Seq<char>>::empty()
                        =~= Seq::<Seq<char>>::empty());
                    assert(views(cur_files@) =~= Seq::<Seq<char>>::empty());
                },
            }
        }
        while k < nb
            invariant
                1 <= k <= nb,
                nb == blocks@.len(),
                fb_abs(blocks@) == all,
                fb_abs(blocks@).len() == blocks@.len(),
                all == spec_file_blocks(spec_lines(diff@)),
                ({
                    let gs = spec_pack(all.subrange(0, k as int), max_unit_size as int);
                    &&& gs.len() >= 1
                    &&& segs@.len() == gs.len() - 1
                    &&& forall|i: int|
                        0 <= i < gs.len() - 1 ==> (#[trigger] segs@[i]).content@
                            == blocks_content(gs[i]) && views(segs@[i].files@) == blocks_files(
                            gs[i],
                        )
                    &&& cur_content@ == blocks_content(gs.last())
                    &&& views(cur_files@) == blocks_files(gs.last())
                }),
            decreases nb - k,
        {
            let ghost gs = spec_pack(all.subrange(0, k as int), max_unit_size as int);
            proof {
                lemma_fb_abs_index(blocks@, k as int);
                assert(all.subrange(0, k + 1).drop_last() =~= all.subrange(0, k as int));
                assert(all.subrange(0, k + 1).last() == all[k as int]);
            }
            let ghost gs2 = spec_pack(all.subrange(0, k + 1), max_unit_size as int);
            let bsize = blocks[k].content.unicode_len();
            let cur_size = cur_content.unicode_len();
            if cur_size <= max_unit_size && bsize <= max_unit_size - cur_size {
                // The block joins the open segment.
                cur_content.append(blocks[k].content.as_str());
                match &blocks[k].file {
                    Some(f) => {
                        let f2 = f.clone();
                        proof {
                            assert(views(cur_files@.push(f2)) =~= views(cur_files@).push(f2@));
                        }
                        cur_files.push(f2);
                    },
                    None => {},
                }
                proof {
                    assert(gs2 == gs.update(gs.len() - 1, gs.last().push(all[k as int])));
                    assert(gs.last().push(all[k as int]).drop_last() =~= gs.last());
                    match all[k as int].file {
                        Some(f) => {
                            assert(views(cur_files@) =~= blocks_files(gs2.last()));
                        },
                        None => {
                            assert(blocks_files(gs.last()) + Seq::<Seq<char>>::empty()
                                =~= blocks_files(gs.last()));
                        },
                    }
                }
            } else {
                // Close the open segment and start a new one with this block.
                let done = DiffSegment { content: cur_content, files: cur_files };
                proof {
                    assert(gs2 == gs.push(seq![all[k as int]]));
                    assert(gs2.drop_last() =~= gs);
                    assert(seq![all[k as int]].drop_last() =~= Seq::<BlockView>::empty());
                    assert(blocks_content(Seq::<BlockView>::empty()) == Seq::<char>::empty());
                    assert(blocks_files(Seq::<BlockView>::empty()) == Seq::<Seq<char>>::empty());
                    assert(Seq::<char>::empty() + all[k as int].content =~= all[
                        k as int
                    ].content);
                }
                segs.push(done);
                cur_content = blocks[k].content.clone();
                cur_files = Vec::new();
                match &blocks[k].file {
                    Some(f) => {
                        cur_files.push(f.clone());
                    },
                    None => {},
                }
                proof {
                    match all[k as int].file {
                        Some(f) => {
                            assert(Seq::<Seq<char>>::empty() + seq![f] =~= seq![f]);
                            assert(views(cur_files@) =~= seq![f]);
                        },
                        None => {
                            assert(Seq::<Seq<char>>::empty() + Seq::<Seq<char>>::empty()
                                =~= Seq::<Seq<char>>::empty());
                            assert(views(cur_files@) =~= Seq::<Seq<char>>::empty());
                        },
                    }
                }
            }
            k = k + 1;
        }
        proof {
            assert(all.subrange(0, nb as int) =~= all);
        }
        let done = DiffSegment { content: cur_content, files: cur_files };
        segs.push(done);
        segs
    }
}

proof fn lemma_fb_abs_len(v: Seq<FileBlock>)
    ensures
        fb_abs(v).len() == v.len(),
    decreases v.len(),
{
    if v.len() > 0 {
        lemma_fb_abs_len(v.drop_last());
    }
}

proof fn lemma_fb_abs_index(v: Seq<FileBlock>, i: int)
    requires
        0 <= i < v.len(),
    ensures
        fb_abs(v).len() == v.len(),
        fb_abs(v)[i].content == v[i].content@,
        fb_abs(v)[i].file == match v[i].file {
            Some(name) => Some(name@),
            None => None::<Seq<char>>,
        },
    decreases v.len(),
{
    lemma_fb_abs_len(v);
    if i < v.len() - 1 {
        lemma_fb_abs_index(v.drop_last(), i);
        assert(fb_abs(v)[i] == fb_abs(v.drop_last())[i]);
    }
}

/// A line sequence yields no blocks exactly when it is empty.
pub proof fn lemma_file_blocks_empty(ls: Seq<Seq<char>>)
    ensures
        spec_file_blocks(ls).len() == 0 <==> ls.len() == 0,
    decreases ls.len(),
{
    if ls.len() > 0 {
        lemma_file_blocks_empty(ls.drop_last());
    }
}

/// The concatenated text of a sequence of groups of blocks.
pub open spec fn groups_content(gs: Seq<Seq<BlockView>>) -> Seq<char>
    decreases gs.len(),
{
    if gs.len() == 0 {
        Seq::empty()
    } else {
        groups_content(gs.drop_last()) + blocks_content(gs.last())
    }
}

/// The filenames of a sequence of groups of blocks, in order.
pub open spec fn groups_files(gs: Seq<Seq<BlockView>>) -> Seq<Seq<char>>
    decreases gs.len(),
{
    if gs.len() == 0 {
        Seq::empty()
    } else {
        groups_files(gs.drop_last()) + blocks_files(gs.last())
    }
}

/// Cutting lines into per-file blocks loses no text.
pub proof fn lemma_blocks_lossless(ls: Seq<Seq<char>>)
    ensures
        blocks_content(spec_file_blocks(ls)) == concat_all(ls),
    decreases ls.len(),
{
    if ls.len() > 0 {
        lemma_blocks_lossless(ls.drop_last());
        let rest = spec_file_blocks(ls.drop_last());
        let l = ls.last();
        if is_header_line(l) || rest.len() == 0 {
            assert(spec_file_blocks(ls).drop_last() =~= rest);
        } else {
            let b = rest.last();
            let nb = BlockView { content: b.content + l, file: b.file };
            let upd = spec_file_blocks(ls);
            assert(upd =~= rest.drop_last().push(nb));
            assert(upd.drop_last() =~= rest.drop_last());
            assert(blocks_content(rest.drop_last()) + (b.content + l) =~= (blocks_content(
                rest.drop_last(),
            ) + b.content) + l);
        }
    }
}

/// Greedy packing is a partition: the groups' text, concatenated in order,
/// is the blocks' text.
pub proof fn lemma_pack_content(bs: Seq<BlockView>, max: int)
    ensures
        groups_content(spec_pack(bs, max)) == blocks_content(bs),
    decreases bs.len(),
{
    if bs.len() > 0 {
        lemma_pack_content(bs.drop_last(), max);
        let rest = spec_pack(bs.drop_last(), max);
        let b = bs.last();
        if rest.len() == 0 {
            assert(seq![seq![b]].drop_last() =~= Seq::<Seq<BlockView>>::empty());
            assert(seq![b].drop_last() =~= Seq::<BlockView>::empty());
            assert(blocks_content(Seq::<BlockView>::empty()) == Seq::<char>::empty());
            assert(Seq::<char>::empty() + b.content =~= b.content);
            assert(Seq::<char>::empty() + (Seq::<char>::empty() + b.content) =~= b.content);
            assert(blocks_content(bs.drop_last()) + b.content =~= b.content);
        } else if blocks_content(rest.last()).len() + b.content.len() <= max {
            let upd = spec_pack(bs, max);
            assert(upd =~= rest.drop_last().push(rest.last().push(b)));
            assert(upd.drop_last() =~= rest.drop_last());
            assert(rest.last().push(b).drop_last() =~= rest.last());
            assert(groups_content(rest.drop_last()) + (blocks_content(rest.last()) + b.content)
                =~= (groups_content(rest.drop_last()) + blocks_content(rest.last())) + b.content);
        } else {
            let upd = spec_pack(bs, max);
            assert(upd.drop_last() =~= rest);
            assert(seq![b].drop_last() =~= Seq::<BlockView>::empty());
            assert(blocks_content(Seq::<BlockView>::empty()) == Seq::<char>::empty());
            assert(Seq::<char>::empty() + b.content =~= b.content);
        }
    }
}

/// Greedy packing keeps every filename, in order.
pub proof fn lemma_pack_files(bs: Seq<BlockView>, max: int)
    ensures
        groups_files(spec_pack(bs, max)) == blocks_files(bs),
    decreases bs.len(),
{
    if bs.len() > 0 {
        lemma_pack_files(bs.drop_last(), max);
        let rest = spec_pack(bs.drop_last(), max);
        let b = bs.last();
        let ghost tailf = match b.file {
            Some(f) => seq![f],
            None => Seq::<Seq<char>>::empty(),
        };
        if rest.len() == 0 {
            assert(seq![seq![b]].drop_last() =~= Seq::<Seq<BlockView>>::empty());
            assert(seq![b].drop_last() =~= Seq::<BlockView>::empty());
            assert(blocks_files(Seq::<BlockView>::empty()) == Seq::<Seq<char>>::empty());
            assert(Seq::<Seq<char>>::empty() + (Seq::<Seq<char>>::empty() + tailf) =~= tailf);
            assert(blocks_files(bs.drop_last()) + tailf =~= tailf);
        } else if blocks_content(rest.last()).len() + b.content.len() <= max {
            let upd = spec_pack(bs, max);
            assert(upd =~= rest.drop_last().push(rest.last().push(b)));
            assert(upd.drop_last() =~= rest.drop_last());
            assert(rest.last().push(b).drop_last() =~= rest.last());
            assert(groups_files(rest.drop_last()) + (blocks_files(rest.last()) + tailf) =~= (
            groups_files(rest.drop_last()) + blocks_files(rest.last())) + tailf);
        } else {
            let upd = spec_pack(bs, max);
            assert(upd.drop_last() =~= rest);
            assert(seq![b].drop_last() =~= Seq::<BlockView>::empty());
            assert(blocks_files(Seq::<BlockView>::empty()) == Seq::<Seq<char>>::empty());
            assert(Seq::<Seq<char>>::empty() + tailf =~= tailf);
        }
    }
}

/// Segmentation is lossless: concatenating the text of the segments of `s`,
/// in order, reconstructs `s` exactly, for every diff text and every bound.
pub proof fn lemma_segmentation_lossless(s: Seq<char>, max: int)
    ensures
        groups_content(spec_pack(spec_file_blocks(spec_lines(s)), max)) == s,
{
    lemma_pack_content(spec_file_blocks(spec_lines(s)), max);
    lemma_blocks_lossless(spec_lines(s));
    crate::lines::lemma_lines_concat(s);
}

/// If every file block of `s` stays within `max`, so does the text of every
/// segment.
pub proof fn lemma_pack_bounded(bs: Seq<BlockView>, max: int)
    requires
        forall|i: int| 0 <= i < bs.len() ==> (#[trigger] bs[i]).content.len() <= max,
    ensures
        forall|j: int|
            0 <= j < spec_pack(bs, max).len() ==> blocks_content(
                #[trigger] spec_pack(bs, max)[j],
            ).len() <= max,
    decreases bs.len(),
{
    if bs.len() > 0 {
        assert(forall|i: int|
            0 <= i < bs.drop_last().len() ==> (#[trigger] bs.drop_last()[i]).content.len()
                <= max);
        lemma_pack_bounded(bs.drop_last(), max);
        let rest = spec_pack(bs.drop_last(), max);
        let b = bs.last();
        assert(b.content.len() <= max);
        if rest.len() == 0 {
            assert(seq![b].drop_last() =~= Seq::<BlockView>::empty());
            assert(blocks_content(Seq::<BlockView>::empty()) == Seq::<char>::empty());
            assert(blocks_content(seq![b]) =~= b.content);
        } else if blocks_content(rest.last()).len() + b.content.len() <= max {
            let upd = spec_pack(bs, max);
            assert(rest.last().push(b).drop_last() =~= rest.last());
            assert(forall|j: int|
                0 <= j < upd.len() - 1 ==> upd[j] == spec_pack(bs.drop_last(), max)[j]);
        } else {
            assert(seq![b].drop_last() =~= Seq::<BlockView>::empty());
            assert(blocks_content(Seq::<BlockView>::empty()) == Seq::<char>::empty());
            assert(blocks_content(seq![b]) =~= b.content);
        }
    }
}

/// A single file block larger than `max` stands alone: some segment holds
/// exactly that block and nothing else.
pub proof fn lemma_oversized_alone(bs: Seq<BlockView>, max: int, k: int)
    requires
        0 <= k < bs.len(),
        bs[k].content.len() > max,
    ensures
        exists|j: int|
            0 <= j < spec_pack(bs, max).len() && #[trigger] spec_pack(bs, max)[j] == seq![bs[k]],
    decreases bs.len(),
{
    let rest = spec_pack(bs.drop_last(), max);
    let b = bs.last();
    let gs = spec_pack(bs, max);
    if k == bs.len() - 1 {
        if rest.len() == 0 {
            assert(gs[0] == seq![bs[k]]);
        } else {
            assert(blocks_content(rest.last()).len() + b.content.len() > max);
            assert(gs[gs.len() - 1] == seq![bs[k]]);
        }
    } else {
        lemma_oversized_alone(bs.drop_last(), max, k);
        let j = choose|j: int| 0 <= j < rest.len() && #[trigger] rest[j] == seq![bs.drop_last()[
            k
        ]];
        assert(bs.drop_last()[k] == bs[k]);
        assert(rest.len() > 0);
        if blocks_content(rest.last()).len() + b.content.len() <= max {
            if j == rest.len() - 1 {
                assert(seq![bs[k]].drop_last() =~= Seq::<BlockView>::empty());
                assert(blocks_content(Seq::<BlockView>::empty()) == Seq::<char>::empty());
                assert(blocks_content(seq![bs[k]]) =~= bs[k].content);
                assert(false);
            } else {
                assert(gs[j] == rest[j]);
            }
        } else {
            assert(gs[j] == rest[j]);
        }
    }
}

/// No two positions of `xs` hold the same name.
pub open spec fn distinct_names(xs: Seq<Seq<char>>) -> bool {
    forall|k: int, l: int| 0 <= k < l < xs.len() ==> xs[k] != xs[l]
}

/// How many filenames the groups before group `j` hold.
pub open spec fn files_before(gs: Seq<Seq<BlockView>>, j: int) -> nat {
    groups_files(gs.subrange(0, j)).len()
}

proof fn lemma_groups_files_at(gs: Seq<Seq<BlockView>>, j: int, p: int)
    requires
        0 <= j < gs.len(),
        0 <= p < blocks_files(gs[j]).len(),
    ensures
        files_before(gs, j) + p < groups_files(gs).len(),
        groups_files(gs)[files_before(gs, j) + p] == blocks_files(gs[j])[p],
    decreases gs.len(),
{
    if j == gs.len() - 1 {
        assert(gs.subrange(0, j) =~= gs.drop_last());
    } else {
        lemma_groups_files_at(gs.drop_last(), j, p);
        assert(gs.subrange(0, j) =~= gs.drop_last().subrange(0, j));
        assert(gs.drop_last()[j] == gs[j]);
    }
}

proof fn lemma_files_before_mono(gs: Seq<Seq<BlockView>>, j1: int, j2: int)
    requires
        0 <= j1 < j2 <= gs.len(),
    ensures
        files_before(gs, j1) + blocks_files(gs[j1]).len() <= files_before(gs, j2),
    decreases j2 - j1,
{
    if j2 == j1 + 1 {
        assert(gs.subrange(0, j1 + 1).drop_last() =~= gs.subrange(0, j1));
        assert(gs.subrange(0, j1 + 1).last() == gs[j1]);
    } else {
        lemma_files_before_mono(gs, j1, j2 - 1);
        lemma_files_before_mono(gs, j2 - 1, j2);
    }
}

/// When the diff's headers name pairwise distinct files, no filename appears
/// twice across the segmentation: neither in two different segments nor twice
/// within one segment.
pub proof fn lemma_segment_files_distinct(s: Seq<char>, max: int)
    requires
        distinct_names(blocks_files(spec_file_blocks(spec_lines(s)))),
    ensures
        ({
            let gs = spec_pack(spec_file_blocks(spec_lines(s)), max);
            forall|j1: int, p1: int, j2: int, p2: int|
                #![trigger blocks_files(gs[j1])[p1], blocks_files(gs[j2])[p2]]
                0 <= j1 <= j2 < gs.len() && 0 <= p1 < blocks_files(gs[j1]).len() && 0 <= p2
                    < blocks_files(gs[j2]).len() && (j1 < j2 || p1 < p2) ==> blocks_files(
                    gs[j1],
                )[p1] != blocks_files(gs[j2])[p2]
        }),
{
    let bs = spec_file_blocks(spec_lines(s));
    let gs = spec_pack(bs, max);
    lemma_pack_files(bs, max);
    assert forall|j1: int, p1: int, j2: int, p2: int|
        #![trigger blocks_files(gs[j1])[p1], blocks_files(gs[j2])[p2]]
        0 <= j1 <= j2 < gs.len() && 0 <= p1 < blocks_files(gs[j1]).len() && 0 <= p2
            < blocks_files(gs[j2]).len() && (j1 < j2 || p1 < p2) implies blocks_files(gs[j1])[p1]
        != blocks_files(gs[j2])[p2] by {
        lemma_groups_files_at(gs, j1, p1);
        lemma_groups_files_at(gs, j2, p2);
        if j1 < j2 {
            lemma_files_before_mono(gs, j1, j2);
        }
        let q1 = files_before(gs, j1) + p1;
        let q2 = files_before(gs, j2) + p2;
        assert(q1 < q2 < groups_files(gs).len());
        assert(groups_files(gs)[q1 as int] != groups_files(gs)[q2 as int]);
    }
}

proof fn lemma_blocks_all_have_files(ls: Seq<Seq<char>>)
    requires
        ls.len() > 0,
        is_header_line(ls[0]),
    ensures
        forall|i: int|
            0 <= i < spec_file_blocks(ls).len() ==> (#[trigger] spec_file_blocks(ls)[i]).file
                is Some,
    decreases ls.len(),
{
    if ls.len() == 1 {
        assert(ls.drop_last() =~= Seq::<Seq<char>>::empty());
        assert(spec_file_blocks(Seq::<Seq<char>>::empty()) =~= Seq::<BlockView>::empty());
        assert(ls.last() == ls[0]);
    } else {
        assert(ls.drop_last()[0] == ls[0]);
        lemma_blocks_all_have_files(ls.drop_last());
        lemma_file_blocks_empty(ls.drop_last());
        let rest = spec_file_blocks(ls.drop_last());
        let l = ls.last();
        if is_header_line(l) {
        } else {
            let b = rest.last();
            let nb = BlockView { content: b.content + l, file: b.file };
            assert(spec_file_blocks(ls) =~= rest.drop_last().push(nb));
        }
    }
}

proof fn lemma_pack_files_nonempty(bs: Seq<BlockView>, max: int)
    requires
        forall|i: int| 0 <= i < bs.len() ==> (#[trigger] bs[i]).file is Some,
    ensures
        forall|j: int|
            0 <= j < spec_pack(bs, max).len() ==> blocks_files(
                #[trigger] spec_pack(bs, max)[j],
            ).len() >= 1,
    decreases bs.len(),
{
    if bs.len() > 0 {
        assert(forall|i: int|
            0 <= i < bs.drop_last().len() ==> (#[trigger] bs.drop_last()[i]).file is Some);
        lemma_pack_files_nonempty(bs.drop_last(), max);
        let rest = spec_pack(bs.drop_last(), max);
        let b = bs.last();
        let ghost tailf = match b.file {
            Some(f) => seq![f],
            None => Seq::<Seq<char>>::empty(),
        };
        assert(tailf.len() == 1);
        if rest.len() == 0 {
            assert(seq![b].drop_last() =~= Seq::<BlockView>::empty());
            assert(blocks_files(Seq::<BlockView>::empty()) == Seq::<Seq<char>>::empty());
        } else if blocks_content(rest.last()).len() + b.content.len() <= max {
            let upd = spec_pack(bs, max);
            assert(rest.last().push(b).drop_last() =~= rest.last());
            assert(forall|j: int| 0 <= j < upd.len() - 1 ==> upd[j] == rest[j]);
        } else {
            assert(seq![b].drop_last() =~= Seq::<BlockView>::empty());
            assert(blocks_files(Seq::<BlockView>::empty()) == Seq::<Seq<char>>::empty());
        }
    }
}

/// When the diff's first line is a file header, every segment names at
/// least one file.
pub proof fn lemma_segments_name_files(s: Seq<char>, max: int)
    requires
        spec_lines(s).len() > 0,
        is_header_line(spec_lines(s)[0]),
    ensures
        forall|j: int|
            0 <= j < spec_pack(spec_file_blocks(spec_lines(s)), max).len() ==> blocks_files(
                #[trigger] spec_pack(spec_file_blocks(spec_lines(s)), max)[j],
            ).len() >= 1,
{
    lemma_blocks_all_have_files(spec_lines(s));
    lemma_pack_files_nonempty(spec_file_blocks(spec_lines(s)), max);
}

/// Every file header contributes exactly one filename to the block list.
pub proof fn lemma_blocks_files_count(ls: Seq<Seq<char>>)
    ensures
        blocks_files(spec_file_blocks(ls)).len() == crate::diff::count_headers(ls),
    decreases ls.len(),
{
    if ls.len() > 0 {
        lemma_blocks_files_count(ls.drop_last());
        let rest = spec_file_blocks(ls.drop_last());
        let l = ls.last();
        if is_header_line(l) || rest.len() == 0 {
            assert(spec_file_blocks(ls).drop_last() =~= rest);
        } else {
            let b = rest.last();
            let nb = BlockView { content: b.content + l, file: b.file };
            let upd = spec_file_blocks(ls);
            assert(upd =~= rest.drop_last().push(nb));
            assert(upd.drop_last() =~= rest.drop_last());
        }
    }
}

/// The file headers counted by the statistics are exactly the filenames that
/// segmentation hands out, over all segments and for every bound.
pub proof fn lemma_stats_cover_segments(s: Seq<char>, max: int)
    ensures
        groups_files(spec_pack(spec_file_blocks(spec_lines(s)), max)).len()
            == crate::diff::count_headers(spec_lines(s)),
{
    lemma_pack_files(spec_file_blocks(spec_lines(s)), max);
    lemma_blocks_files_count(spec_lines(s));
}

} // verus!
