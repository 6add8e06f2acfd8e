//! Lines of formatted text: a line is a sequence of segments, each a run
//! of characters with one format. This module holds the mathematical
//! model of a line (its length, where each segment starts, which segment
//! the cursor is in, the formatted characters it shows) and the edits of
//! one line that the editor performs.

use vstd::prelude::*;

verus! {

broadcast use vstd::seq_lib::group_seq_properties;

/// The format of a run of text.
#[derive(Clone, Copy, Debug, PartialEq, Eq, Structural)]
pub enum TextFormat {
    Normal,
    Bold,
    Underlined,
}

/// One segment of a line, as a mathematical value: its characters and
/// their format.
pub type SegmentView = (Seq<char>, TextFormat);

/// The number of characters in the first `n` segments of `line`.
pub open spec fn prefix_len(line: Seq<SegmentView>, n: int) -> int
    decreases n,
{
    if n <= 0 {
        0
    } else {
        prefix_len(line, n - 1) + line[n - 1].0.len()
    }
}

/// The number of characters in `line`.
pub open spec fn line_len(line: Seq<SegmentView>) -> int {
    prefix_len(line, line.len() as int)
}

/// Column `x` lies within segment `i` of `line`, its two ends included.
pub open spec fn seg_holds(line: Seq<SegmentView>, x: int, i: int) -> bool {
    &&& 0 <= i < line.len()
    &&& prefix_len(line, i) <= x <= prefix_len(line, i + 1)
}

/// The first segment, from `i` on, that holds column `x`; the last segment
/// when none does (segment 0 for a line without segments).
pub open spec fn find_from(line: Seq<SegmentView>, x: int, i: int) -> int
    decreases line.len() - i,
{
    if i < 0 || i >= line.len() {
        if line.len() == 0 { 0 } else { line.len() - 1 }
    } else if prefix_len(line, i) <= x <= prefix_len(line, i + 1) {
        i
    } else {
        find_from(line, x, i + 1)
    }
}

/// The segment that the cursor at column `x` is in: the first one that
/// holds `x`.
pub open spec fn find_segment(line: Seq<SegmentView>, x: int) -> int {
    find_from(line, x, 0)
}

/// The characters of a segment, each paired with the segment's format.
pub open spec fn seg_rich(seg: SegmentView) -> Seq<(char, TextFormat)> {
    Seq::new(seg.0.len(), |j: int| (seg.0[j], seg.1))
}

/// The formatted characters that `line` shows, in order.
pub open spec fn line_rich(line: Seq<SegmentView>) -> Seq<(char, TextFormat)> {
    line.map_values(|s: SegmentView| seg_rich(s)).flatten()
}

/// The plain characters of `line`, in order.
pub open spec fn line_text(line: Seq<SegmentView>) -> Seq<char> {
    line.map_values(|s: SegmentView| s.0).flatten()
}

/// The format that a character typed at column `x` of `line` takes, when
/// `cur` is the editor's current format: `cur` at the end of a segment (or
/// on a line without segments), else the format of the segment it is typed
/// into.
pub open spec fn typed_format(line: Seq<SegmentView>, x: int, cur: TextFormat) -> TextFormat {
    let i = find_segment(line, x);
    if line.len() == 0 || x == prefix_len(line, i + 1) {
        cur
    } else {
        line[i].1
    }
}

/// `line` after typing `c` at column `x` with current format `cur`.
///
/// At the end of a segment of format `cur` the character is appended to it;
/// at the end of a segment of another format it becomes a segment of its
/// own after it; inside a segment it joins the left part of that segment,
/// whose right part becomes a segment of its own.
pub open spec fn line_insert(line: Seq<SegmentView>, x: int, c: char, cur: TextFormat) -> Seq<
    SegmentView,
> {
    if line.len() == 0 {
        seq![(seq![c], cur)]
    } else {
        let i = find_segment(line, x);
        let t = line[i].0;
        let f = line[i].1;
        let start = prefix_len(line, i);
        if x == start + t.len() {
            if f == cur {
                line.update(i, (t.push(c), f))
            } else {
                line.insert(i + 1, (seq![c], cur))
            }
        } else {
            let k = x - start;
            let left = line.update(i, (t.take(k).push(c), f));
            if k < t.len() {
                left.insert(i + 1, (t.skip(k), f))
            } else {
                left
            }
        }
    }
}

/// `line` after deleting the character before column `x` (`x > 0`): the
/// character leaves its segment, and a segment left empty leaves the line;
/// a line left without segments gets one empty segment of format `Normal`.
pub open spec fn line_delete_before(line: Seq<SegmentView>, x: int) -> Seq<SegmentView> {
    let removed = line_remove_before(line, x);
    if removed.len() == 0 {
        seq![(seq![], TextFormat::Normal)]
    } else {
        removed
    }
}

/// The part of `line` before column `x` and the part from `x` on, as the
/// editor splits a line at the cursor. The segment the cursor is in is cut
/// in two when the cursor is inside it; the second part starts with a
/// segment of format `cur` (and no characters) when it would otherwise have
/// no segment.
pub open spec fn line_split(line: Seq<SegmentView>, x: int, cur: TextFormat) -> (
    Seq<SegmentView>,
    Seq<SegmentView>,
) {
    let i = find_segment(line, x);
    let parts: (Seq<SegmentView>, Seq<SegmentView>) = if i < line.len() {
        let t = line[i].0;
        let f = line[i].1;
        let k = x - prefix_len(line, i);
        if k < t.len() {
            (line.take(i).push((t.take(k), f)), seq![(t.skip(k), f)] + line.skip(i + 1))
        } else {
            (line.take(i + 1), line.skip(i + 1))
        }
    } else {
        (line, seq![])
    };
    if parts.1.len() == 0 {
        (parts.0, seq![(seq![], cur)])
    } else {
        parts
    }
}

// ---------------------------------------------------------------------
// Lemmas about lengths and segment positions.
/// Segment positions grow with the segment index.
pub proof fn lemma_prefix_mono(line: Seq<SegmentView>, a: int, b: int)
    requires
        0 <= a <= b <= line.len(),
    ensures
        0 <= prefix_len(line, a) <= prefix_len(line, b),
    decreases b,
{
    if a < b {
        lemma_prefix_mono(line, a, b - 1);
    } else {
        lemma_prefix_nonneg(line, a);
    }
}

/// Segment positions are never negative.
pub proof fn lemma_prefix_nonneg(line: Seq<SegmentView>, n: int)
    requires
        0 <= n <= line.len(),
    ensures
        0 <= prefix_len(line, n),
    decreases n,
{
    if n > 0 {
        lemma_prefix_nonneg(line, n - 1);
    }
}

/// The search from `i` finds the first segment holding `x`, given that none
/// before `i` does and that `x` lies in the line.
pub proof fn lemma_find_from(line: Seq<SegmentView>, x: int, i: int)
    requires
        line.len() >= 1,
        0 <= i <= line.len(),
        0 <= x <= line_len(line),
        prefix_len(line, i) <= x,
        forall|j: int| 0 <= j < i ==> !seg_holds(line, x, j),
    ensures
        i <= find_from(line, x, i) < line.len(),
        seg_holds(line, x, find_from(line, x, i)),
        forall|j: int| 0 <= j < find_from(line, x, i) ==> !seg_holds(line, x, j),
    decreases line.len() - i,
{
    if i == line.len() {
        lemma_prefix_mono(line, i - 1, i);
        assert(seg_holds(line, x, i - 1));
    } else if prefix_len(line, i) <= x <= prefix_len(line, i + 1) {
    } else {
        assert(!seg_holds(line, x, i));
        lemma_find_from(line, x, i + 1);
    }
}

/// What `find_segment` yields for a column inside a non-empty line: the
/// first segment that holds it, which starts before the column unless the
/// column is 0.
pub proof fn lemma_find_segment(line: Seq<SegmentView>, x: int)
    requires
        line.len() >= 1,
        0 <= x <= line_len(line),
    ensures
        0 <= find_segment(line, x) < line.len(),
        seg_holds(line, x, find_segment(line, x)),
        forall|j: int| 0 <= j < find_segment(line, x) ==> !seg_holds(line, x, j),
        x > 0 ==> prefix_len(line, find_segment(line, x)) < x,
{
    lemma_find_from(line, x, 0);
    let i = find_segment(line, x);
    if x > 0 && i > 0 && prefix_len(line, i) == x {
        lemma_prefix_mono(line, i - 1, i);
        assert(seg_holds(line, x, i - 1));
    }
}

// ---------------------------------------------------------------------
// Lemmas about the formatted characters of a line.
/// The formatted characters of two lines put together.
pub proof fn lemma_rich_concat(a: Seq<SegmentView>, b: Seq<SegmentView>)
    ensures
        line_rich(a + b) == line_rich(a) + line_rich(b),
{
    let f = |s: SegmentView| seg_rich(s);
    assert((a + b).map_values(f) =~= a.map_values(f) + b.map_values(f));
    vstd::seq_lib::lemma_flatten_concat(a.map_values(f), b.map_values(f));
}

/// The formatted characters of a line of one segment.
pub proof fn lemma_rich_single(s: SegmentView)
    ensures
        line_rich(seq![s]) == seg_rich(s),
{
    let m = seq![s].map_values(|t: SegmentView| seg_rich(t));
    assert(m =~= seq![seg_rich(s)]);
    m.lemma_flatten_one_element();
}

/// The formatted characters of a line without segments.
pub proof fn lemma_rich_empty(line: Seq<SegmentView>)
    requires
        line.len() == 0,
    ensures
        line_rich(line) == Seq::<(char, TextFormat)>::empty(),
{
    assert(line.map_values(|t: SegmentView| seg_rich(t)) =~= Seq::<Seq<(char, TextFormat)>>::empty());
}

/// The first `n` segments show `prefix_len(line, n)` characters.
pub proof fn lemma_rich_prefix_len(line: Seq<SegmentView>, n: int)
    requires
        0 <= n <= line.len(),
    ensures
        line_rich(line.take(n)).len() == prefix_len(line, n),
    decreases n,
{
    if n == 0 {
        lemma_rich_empty(line.take(0));
    } else {
        lemma_rich_prefix_len(line, n - 1);
        assert(line.take(n) =~= line.take(n - 1) + seq![line[n - 1]]);
        lemma_rich_concat(line.take(n - 1), seq![line[n - 1]]);
        lemma_rich_single(line[n - 1]);
    }
}

/// A line shows `line_len(line)` characters.
pub proof fn lemma_rich_len(line: Seq<SegmentView>)
    ensures
        line_rich(line).len() == line_len(line),
{
    lemma_rich_prefix_len(line, line.len() as int);
    assert(line.take(line.len() as int) =~= line);
}

/// The formatted characters of a line, cut around segment `i`.
pub proof fn lemma_rich_around(line: Seq<SegmentView>, i: int)
    requires
        0 <= i < line.len(),
    ensures
        line_rich(line) == line_rich(line.take(i)) + seg_rich(line[i]) + line_rich(line.skip(i + 1)),
        line_rich(line.take(i)).len() == prefix_len(line, i),
{
    assert(line =~= line.take(i) + seq![line[i]] + line.skip(i + 1));
    lemma_rich_concat(line.take(i) + seq![line[i]], line.skip(i + 1));
    lemma_rich_concat(line.take(i), seq![line[i]]);
    lemma_rich_single(line[i]);
    lemma_rich_prefix_len(line, i);
}

/// The formatted characters of a line whose segment `i` is replaced by the
/// segments `mid`.
pub proof fn lemma_rich_replace(line: Seq<SegmentView>, i: int, mid: Seq<SegmentView>)
    requires
        0 <= i < line.len(),
    ensures
        line_rich(line.take(i) + mid + line.skip(i + 1)) == line_rich(line.take(i)) + line_rich(mid)
            + line_rich(line.skip(i + 1)),
{
    lemma_rich_concat(line.take(i) + mid, line.skip(i + 1));
    lemma_rich_concat(line.take(i), mid);
}

/// The formatted characters of a line of two segments.
pub proof fn lemma_rich_pair(a: SegmentView, b: SegmentView)
    ensures
        line_rich(seq![a, b]) == seg_rich(a) + seg_rich(b),
{
    assert(seq![a, b] =~= seq![a] + seq![b]);
    lemma_rich_concat(seq![a], seq![b]);
    lemma_rich_single(a);
    lemma_rich_single(b);
}

/// Typing a character inserts it, with the format `typed_format` gives, at
/// the cursor column; nothing else that the line shows changes.
pub proof fn lemma_insert_rich(line: Seq<SegmentView>, x: int, c: char, cur: TextFormat)
    requires
        line.len() == 0 ==> x == 0,
        line.len() >= 1 ==> 0 <= x <= line_len(line),
    ensures
        line_rich(line_insert(line, x, c, cur)) == line_rich(line).insert(
            x,
            (c, typed_format(line, x, cur)),
        ),
{
    let e = (c, typed_format(line, x, cur));
    if line.len() == 0 {
        lemma_rich_empty(line);
        lemma_rich_single((seq![c], cur));
        assert(seg_rich((seq![c], cur)) =~= Seq::<(char, TextFormat)>::empty().insert(0, e));
    } else {
        lemma_find_segment(line, x);
        let i = find_segment(line, x);
        let t = line[i].0;
        let f = line[i].1;
        let start = prefix_len(line, i);
        let k = x - start;
        lemma_rich_around(line, i);
        let p = line_rich(line.take(i));
        let r = line_rich(line.skip(i + 1));
        let mid: Seq<SegmentView> = if x == start + t.len() {
            if f == cur {
                seq![(t.push(c), f)]
            } else {
                seq![(t, f), (seq![c], cur)]
            }
        } else if k < t.len() {
            seq![(t.take(k).push(c), f), (t.skip(k), f)]
        } else {
            seq![(t.take(k).push(c), f)]
        };
        assert(line_insert(line, x, c, cur) =~= line.take(i) + mid + line.skip(i + 1));
        lemma_rich_replace(line, i, mid);
        if x == start + t.len() {
            if f == cur {
                lemma_rich_single((t.push(c), f));
                assert(seg_rich((t.push(c), f)) =~= seg_rich((t, f)).insert(k, e));
            } else {
                lemma_rich_pair((t, f), (seq![c], cur));
                assert(seg_rich((t, f)) + seg_rich((seq![c], cur)) =~= seg_rich((t, f)).insert(
                    k,
                    e,
                ));
            }
        } else {
            assert(k < t.len());
            lemma_rich_pair((t.take(k).push(c), f), (t.skip(k), f));
            assert(seg_rich((t.take(k).push(c), f)) + seg_rich((t.skip(k), f)) =~= seg_rich(
                (t, f),
            ).insert(k, e));
        }
        let s = seg_rich((t, f));
        assert((p + s + r).insert(x, e) =~= p + s.insert(k, e) + r);
    }
}

/// The line after removing the character before column `x` from its
/// segment, and the segment too when it is left empty.
pub open spec fn line_remove_before(line: Seq<SegmentView>, x: int) -> Seq<SegmentView> {
    let i = find_segment(line, x);
    let t2 = line[i].0.remove(x - prefix_len(line, i) - 1);
    if t2.len() == 0 {
        line.remove(i)
    } else {
        line.update(i, (t2, line[i].1))
    }
}

/// Removing the character before column `x` from its segment removes it
/// from what the line shows.
proof fn lemma_remove_before_rich(line: Seq<SegmentView>, x: int)
    requires
        line.len() >= 1,
        0 < x <= line_len(line),
    ensures
        line_rich(line_remove_before(line, x)) == line_rich(line).remove(x - 1),
{
    lemma_find_segment(line, x);
    let i = find_segment(line, x);
    let t = line[i].0;
    let f = line[i].1;
    let k = x - prefix_len(line, i);
    let t2 = t.remove(k - 1);
    lemma_rich_around(line, i);
    let p = line_rich(line.take(i));
    let r = line_rich(line.skip(i + 1));
    let s = seg_rich((t, f));
    let mid: Seq<SegmentView> = if t2.len() == 0 { seq![] } else { seq![(t2, f)] };
    assert(line_remove_before(line, x) =~= line.take(i) + mid + line.skip(i + 1));
    lemma_rich_replace(line, i, mid);
    if t2.len() == 0 {
        lemma_rich_empty(mid);
        assert(s.remove(k - 1) =~= Seq::<(char, TextFormat)>::empty());
    } else {
        lemma_rich_single((t2, f));
        assert(seg_rich((t2, f)) =~= s.remove(k - 1));
    }
    assert((p + s + r).remove(x - 1) =~= p + s.remove(k - 1) + r);
}

/// Deleting before column `x` removes the formatted character before the
/// cursor; nothing else that the line shows changes, and the line keeps at
/// least one segment.
pub proof fn lemma_delete_rich(line: Seq<SegmentView>, x: int)
    requires
        line.len() >= 1,
        0 < x <= line_len(line),
    ensures
        line_rich(line_delete_before(line, x)) == line_rich(line).remove(x - 1),
        line_delete_before(line, x).len() >= 1,
{
    lemma_remove_before_rich(line, x);
    let removed = line_remove_before(line, x);
    if removed.len() == 0 {
        lemma_rich_single((seq![], TextFormat::Normal));
        assert(seg_rich((seq![], TextFormat::Normal)) =~= Seq::<(char, TextFormat)>::empty());
        lemma_rich_empty(removed);
    }
}

/// Splitting a line at column `x` cuts what it shows at `x`: the first
/// part shows the characters before `x`, the second those from `x` on, and
/// each part has at least one segment.
pub proof fn lemma_split_rich(line: Seq<SegmentView>, x: int, cur: TextFormat)
    requires
        line.len() >= 1,
        0 <= x <= line_len(line),
    ensures
        line_rich(line_split(line, x, cur).0) == line_rich(line).take(x),
        line_rich(line_split(line, x, cur).1) == line_rich(line).skip(x),
        line_split(line, x, cur).0.len() >= 1,
        line_split(line, x, cur).1.len() >= 1,
{
    lemma_find_segment(line, x);
    let i = find_segment(line, x);
    let t = line[i].0;
    let f = line[i].1;
    let k = x - prefix_len(line, i);
    lemma_rich_around(line, i);
    let p = line_rich(line.take(i));
    let r = line_rich(line.skip(i + 1));
    let s = seg_rich((t, f));
    let whole = p + s + r;
    if k < t.len() {
        assert(line.take(i).push((t.take(k), f)) =~= line.take(i) + seq![(t.take(k), f)]);
        lemma_rich_concat(line.take(i), seq![(t.take(k), f)]);
        lemma_rich_single((t.take(k), f));
        assert(seg_rich((t.take(k), f)) =~= s.take(k));
        assert(whole.take(x) =~= p + s.take(k));
        lemma_rich_concat(seq![(t.skip(k), f)], line.skip(i + 1));
        lemma_rich_single((t.skip(k), f));
        assert(seg_rich((t.skip(k), f)) =~= s.skip(k));
        assert(whole.skip(x) =~= s.skip(k) + r);
    } else {
        assert(line.take(i + 1) =~= line.take(i) + seq![line[i]]);
        lemma_rich_concat(line.take(i), seq![line[i]]);
        lemma_rich_single(line[i]);
        assert(whole.take(x) =~= p + s);
        assert(whole.skip(x) =~= r);
        if line.skip(i + 1).len() == 0 {
            lemma_rich_single((seq![], cur));
            assert(seg_rich((seq![], cur)) =~= Seq::<(char, TextFormat)>::empty());
            lemma_rich_empty(line.skip(i + 1));
        }
    }
}

} // verus!
