//! Whitespace-separated words of a character sequence, and the name that
//! the first three of them make when joined with underscores.

use vstd::prelude::*;
use crate::strings::string_from_chars;

verus! {

/// The characters with the Unicode `White_Space` property.
pub open spec fn is_whitespace_spec(c: char) -> bool {
    let n = c as u32;
    ||| 0x9 <= n <= 0xd
    ||| n == 0x20
    ||| n == 0x85
    ||| n == 0xa0
    ||| n == 0x1680
    ||| 0x2000 <= n <= 0x200a
    ||| n == 0x2028
    ||| n == 0x2029
    ||| n == 0x202f
    ||| n == 0x205f
    ||| n == 0x3000
}

/// The words of `s`, given that the word being read so far is `cur`: the
/// maximal runs of characters that are not whitespace, in order.
pub open spec fn words_from(s: Seq<char>, cur: Seq<char>) -> Seq<Seq<char>>
    decreases s.len(),
{
    if s.len() == 0 {
        if cur.len() == 0 { seq![] } else { seq![cur] }
    } else if is_whitespace_spec(s[0]) {
        (if cur.len() == 0 { seq![] } else { seq![cur] }) + words_from(s.drop_first(), seq![])
    } else {
        words_from(s.drop_first(), cur.push(s[0]))
    }
}

/// The whitespace-separated words of `s`, in order.
pub open spec fn words(s: Seq<char>) -> Seq<Seq<char>> {
    words_from(s, seq![])
}

/// The character sequences that a vector of character vectors holds.
pub open spec fn views(ws: Seq<Vec<char>>) -> Seq<Seq<char>> {
    ws.map_values(|w: Vec<char>| w@)
}

/// The sequences joined into one, with `sep` between neighbours.
pub open spec fn join_with(ws: Seq<Seq<char>>, sep: char) -> Seq<char>
    decreases ws.len(),
{
    if ws.len() == 0 {
        seq![]
    } else if ws.len() == 1 {
        ws[0]
    } else {
        join_with(ws.drop_last(), sep) + seq![sep] + ws.last()
    }
}

/// The words joined with `'_'` between neighbours.
pub open spec fn join_underscore(ws: Seq<Seq<char>>) -> Seq<char> {
    join_with(ws, '_')
}

/// At most the first three entries of `ws`.
pub open spec fn first_three(ws: Seq<Seq<char>>) -> Seq<Seq<char>> {
    if ws.len() <= 3 { ws } else { ws.take(3) }
}

/// `s` holds no whitespace character.
pub open spec fn no_whitespace(s: Seq<char>) -> bool {
    forall|i: int| 0 <= i < s.len() ==> !is_whitespace_spec(#[trigger] s[i])
}

/// Whether `c` is whitespace, as `char::is_whitespace` decides it.
pub fn is_whitespace(c: char) -> (b: bool)
    ensures
        b == is_whitespace_spec(c),
{
    let n = c as u32;
    (0x9 <= n && n <= 0xd) || n == 0x20 || n == 0x85 || n == 0xa0 || n == 0x1680 || (0x2000 <= n
        && n <= 0x200a) || n == 0x2028 || n == 0x2029 || n == 0x202f || n == 0x205f || n == 0x3000
}

/// Splits `s` into its whitespace-separated words, as `str::split_whitespace`
/// does.
pub fn split_whitespace(s: &Vec<char>) -> (ws: Vec<Vec<char>>)
    ensures
        views(ws@) == words(s@),
{
    let mut ws: Vec<Vec<char>> = Vec::new();
    let mut cur: Vec<char> = Vec::new();
    let mut i: usize = 0;
    assert(s@.skip(0) =~= s@);
    while i < s.len()
        invariant
            i <= s.len(),
            views(ws@) + words_from(s@.skip(i as int), cur@) == words(s@),
        decreases s.len() - i,
    {
        let c = s[i];
        let ghost rest = s@.skip(i as int);
        assert(rest.drop_first() =~= s@.skip(i + 1));
        assert(rest[0] == c);
        if is_whitespace(c) {
            if cur.len() > 0 {
                let ghost old_ws = ws@;
                let ghost w = cur@;
                ws.push(cur);
                cur = Vec::new();
                assert(views(ws@) =~= views(old_ws) + seq![w]);
                assert(views(ws@) + words_from(s@.skip(i + 1), cur@) =~= views(old_ws) + (seq![w]
                    + words_from(s@.skip(i + 1), seq![])));
            } else {
                assert(cur@ =~= seq![]);
                assert(seq![] + words_from(s@.skip(i + 1), seq![]) =~= words_from(
                    s@.skip(i + 1),
                    seq![],
                ));
            }
        } else {
            cur.push(c);
        }
        i += 1;
    }
    assert(s@.skip(i as int).len() == 0);
    if cur.len() > 0 {
        let ghost old_ws = ws@;
        let ghost w = cur@;
        ws.push(cur);
        assert(views(ws@) =~= views(old_ws) + seq![w]);
    } else {
        assert(views(ws@) + seq![] =~= views(ws@));
    }
    ws
}

/// Appends the characters of `w` to `r`.
pub fn append_chars(r: &mut Vec<char>, w: &Vec<char>)
    ensures
        final(r)@ == old(r)@ + w@,
{
    let mut j: usize = 0;
    while j < w.len()
        invariant
            j <= w.len(),
            r@ == old(r)@ + w@.take(j as int),
        decreases w.len() - j,
    {
        r.push(w[j]);
        j += 1;
        assert(w@.take(j as int) =~= w@.take(j - 1).push(w@[j - 1]));
    }
    assert(w@.take(w.len() as int) =~= w@);
}

/// Joins the first `n` of `ws` with `sep` between neighbours.
pub fn join_prefix(ws: &Vec<Vec<char>>, n: usize, sep: char) -> (r: Vec<char>)
    requires
        n <= ws.len(),
    ensures
        r@ == join_with(views(ws@).take(n as int), sep),
{
    let mut r: Vec<char> = Vec::new();
    let mut i: usize = 0;
    while i < n
        invariant
            n <= ws.len(),
            i <= n,
            r@ == join_with(views(ws@).take(i as int), sep),
        decreases n - i,
    {
        let ghost before = views(ws@).take(i as int);
        let ghost after = views(ws@).take(i + 1);
        assert(after.drop_last() =~= before);
        assert(after.last() == ws@[i as int]@);
        if i > 0 {
            r.push(sep);
        } else {
            assert(before.len() == 0);
        }
        append_chars(&mut r, &ws[i]);
        if i == 0 {
            assert(r@ =~= after[0]);
        } else {
            assert(r@ =~= join_with(before, sep) + seq![sep] + after.last());
        }
        i += 1;
    }
    r
}

/// Joins the first three of `ws` (or all of them, when there are fewer)
/// with `'_'` between neighbours, as `words.join("_")` does for at most
/// three words.
pub fn join_first_three(ws: &Vec<Vec<char>>) -> (r: Vec<char>)
    ensures
        r@ == join_underscore(first_three(views(ws@))),
{
    let n: usize = if ws.len() < 3 { ws.len() } else { 3 };
    let r = join_prefix(ws, n, '_');
    if ws.len() <= 3 {
        assert(views(ws@).take(n as int) =~= views(ws@));
    }
    r
}

/// The file name proposed for a text whose first words, joined, are `w`:
/// `w` and `.txt`, or `untitled.txt` when there are no words.
pub open spec fn default_filename(w: Seq<char>) -> Seq<char> {
    if w.len() == 0 {
        "untitled.txt"@
    } else {
        w + ".txt"@
    }
}

/// Builds the file name proposed for a text whose first words, joined,
/// are `w`.
pub fn filename_from_words(w: &Vec<char>) -> (name: String)
    ensures
        name@ == default_filename(w@),
{
    if w.len() == 0 {
        String::from_str("untitled.txt")
    } else {
        let mut name = string_from_chars(w);
        name.append(".txt");
        name
    }
}

/// Every word that `words_from` yields is non-empty and free of whitespace,
/// provided the word under way is.
pub proof fn lemma_words_from_clean(s: Seq<char>, cur: Seq<char>)
    requires
        no_whitespace(cur),
    ensures
        forall|k: int|
            0 <= k < words_from(s, cur).len() ==> #[trigger] words_from(s, cur)[k].len() > 0
                && no_whitespace(words_from(s, cur)[k]),
    decreases s.len(),
{
    if s.len() == 0 {
        if cur.len() > 0 {
            assert(words_from(s, cur) =~= seq![cur]);
        }
    } else if is_whitespace_spec(s[0]) {
        lemma_words_from_clean(s.drop_first(), seq![]);
        let head: Seq<Seq<char>> = if cur.len() == 0 { seq![] } else { seq![cur] };
        let tail = words_from(s.drop_first(), seq![]);
        assert(words_from(s, cur) == head + tail);
        assert forall|k: int| 0 <= k < (head + tail).len() implies #[trigger] (head + tail)[k].len()
            > 0 && no_whitespace((head + tail)[k]) by {
            if k < head.len() {
            } else {
                assert((head + tail)[k] == tail[k - head.len()]);
            }
        }
    } else {
        let next = cur.push(s[0]);
        assert forall|i: int| 0 <= i < next.len() implies !is_whitespace_spec(#[trigger] next[i]) by {
            if i < cur.len() {
                assert(next[i] == cur[i]);
            }
        }
        lemma_words_from_clean(s.drop_first(), next);
        assert(words_from(s, cur) == words_from(s.drop_first(), next));
    }
}

/// Joining whitespace-free words with underscores gives a whitespace-free
/// sequence.
pub proof fn lemma_join_clean(ws: Seq<Seq<char>>)
    requires
        forall|k: int| 0 <= k < ws.len() ==> no_whitespace(#[trigger] ws[k]),
    ensures
        no_whitespace(join_with(ws, '_')),
    decreases ws.len(),
{
    if ws.len() > 1 {
        let front = ws.drop_last();
        assert forall|k: int| 0 <= k < front.len() implies no_whitespace(#[trigger] front[k]) by {
            assert(front[k] == ws[k]);
        }
        lemma_join_clean(front);
        let j = join_with(front, '_') + seq!['_'] + ws.last();
        assert(no_whitespace(ws[ws.len() - 1]));
        assert forall|i: int| 0 <= i < j.len() implies !is_whitespace_spec(#[trigger] j[i]) by {
            let a = join_with(front, '_');
            if i < a.len() {
                assert(j[i] == a[i]);
            } else if i == a.len() {
                assert(j[i] == '_');
            } else {
                assert(j[i] == ws.last()[i - a.len() - 1]);
            }
        }
    } else if ws.len() == 1 {
        assert(no_whitespace(ws[0]));
    }
}

/// The name made of the first three words of any text holds no whitespace:
/// each word is a run of non-whitespace characters, and the separator is
/// `'_'`.
pub proof fn first_three_words_have_no_whitespace(s: Seq<char>)
    ensures
        no_whitespace(join_underscore(first_three(words(s)))),
{
    lemma_words_from_clean(s, seq![]);
    let ws = first_three(words(s));
    assert forall|k: int| 0 <= k < ws.len() implies no_whitespace(#[trigger] ws[k]) by {
        assert(ws[k] == words(s)[k]);
    }
    lemma_join_clean(ws);
}

/// Joining at least two sequences, read from the front: the first, the
/// separator, then the rest joined.
pub proof fn lemma_join_front(ts: Seq<Seq<char>>, sep: char)
    requires
        ts.len() >= 2,
    ensures
        join_with(ts, sep) == ts[0] + seq![sep] + join_with(ts.drop_first(), sep),
    decreases ts.len(),
{
    let init = ts.drop_last();
    let rest = ts.drop_first();
    if ts.len() == 2 {
        assert(join_with(init, sep) == init[0]);
        assert(join_with(rest, sep) == rest[0]);
        assert(join_with(ts, sep) == join_with(init, sep) + seq![sep] + ts.last());
    } else {
        lemma_join_front(init, sep);
        assert(rest.drop_last() =~= init.drop_first());
        assert(join_with(rest, sep) == join_with(rest.drop_last(), sep) + seq![sep] + rest.last());
        assert(join_with(ts, sep) == join_with(init, sep) + seq![sep] + ts.last());
        assert(join_with(ts, sep) =~= ts[0] + seq![sep] + join_with(rest, sep));
    }
}

/// A whitespace character between two texts separates their words: the
/// words of `a`, whitespace, `b` (with `cur` read before `a`) are those of
/// `a` followed by those of `b`.
pub proof fn lemma_words_from_split(a: Seq<char>, w: char, b: Seq<char>, cur: Seq<char>)
    requires
        is_whitespace_spec(w),
    ensures
        words_from(a + seq![w] + b, cur) == words_from(a, cur) + words(b),
    decreases a.len(),
{
    let s = a + seq![w] + b;
    let head: Seq<Seq<char>> = if cur.len() == 0 { seq![] } else { seq![cur] };
    if a.len() == 0 {
        assert(s[0] == w);
        assert(s.drop_first() =~= b);
        assert(words_from(a, cur) == head);
    } else {
        assert(s[0] == a[0]);
        assert(s.drop_first() =~= a.drop_first() + seq![w] + b);
        if is_whitespace_spec(a[0]) {
            lemma_words_from_split(a.drop_first(), w, b, seq![]);
            assert(words_from(s, cur) == head + words_from(a.drop_first() + seq![w] + b, seq![]));
            assert(words_from(a, cur) == head + words_from(a.drop_first(), seq![]));
            assert(words_from(s, cur) =~= words_from(a, cur) + words(b));
        } else {
            lemma_words_from_split(a.drop_first(), w, b, cur.push(a[0]));
        }
    }
}

/// The words of texts joined with newlines are the words of each text, in
/// order.
pub proof fn lemma_words_of_lines(ts: Seq<Seq<char>>)
    ensures
        words(join_with(ts, '\n')) == ts.map_values(|t: Seq<char>| words(t)).flatten(),
    decreases ts.len(),
{
    let f = |t: Seq<char>| words(t);
    let m = ts.map_values(f);
    if ts.len() == 0 {
        assert(m =~= Seq::<Seq<Seq<char>>>::empty());
        assert(words(join_with(ts, '\n')) =~= Seq::<Seq<char>>::empty());
    } else if ts.len() == 1 {
        assert(m.drop_first() =~= Seq::<Seq<Seq<char>>>::empty());
        assert(m.flatten() == m[0] + m.drop_first().flatten());
        assert(m.flatten() =~= words(ts[0]));
    } else {
        lemma_join_front(ts, '\n');
        let rest = ts.drop_first();
        lemma_words_of_lines(rest);
        assert('\n' as u32 == 0xa);
        lemma_words_from_split(ts[0], '\n', join_with(rest, '\n'), seq![]);
        assert(m.drop_first() =~= rest.map_values(f));
        assert(m.flatten() == m[0] + m.drop_first().flatten());
    }
}

/// `t` holds no newline.
pub open spec fn no_newline(t: Seq<char>) -> bool {
    forall|i: int| 0 <= i < t.len() ==> #[trigger] t[i] != '\n'
}

/// The lines of `t`, given that `cur` has been read of the current line:
/// the pieces between newlines, in order.
pub open spec fn split_lines_from(t: Seq<char>, cur: Seq<char>) -> Seq<Seq<char>>
    decreases t.len(),
{
    if t.len() == 0 {
        seq![cur]
    } else if t[0] == '\n' {
        seq![cur] + split_lines_from(t.drop_first(), seq![])
    } else {
        split_lines_from(t.drop_first(), cur.push(t[0]))
    }
}

/// The lines of `t`: the pieces between its newlines, in order.
pub open spec fn split_lines(t: Seq<char>) -> Seq<Seq<char>> {
    split_lines_from(t, seq![])
}

/// Text without newlines only lengthens the current line.
proof fn lemma_split_lines_plain(a: Seq<char>, r: Seq<char>, cur: Seq<char>)
    requires
        no_newline(a),
    ensures
        split_lines_from(a + r, cur) == split_lines_from(r, cur + a),
    decreases a.len(),
{
    if a.len() == 0 {
        assert(a + r =~= r);
        assert(cur + a =~= cur);
    } else {
        assert((a + r)[0] == a[0]);
        assert((a + r).drop_first() =~= a.drop_first() + r);
        assert(a[0] != '\n');
        assert(no_newline(a.drop_first())) by {
            assert forall|i: int| 0 <= i < a.drop_first().len() implies #[trigger] a.drop_first()[i]
                != '\n' by {
                assert(a.drop_first()[i] == a[i + 1]);
            }
        }
        lemma_split_lines_plain(a.drop_first(), r, cur.push(a[0]));
        assert(cur.push(a[0]) + a.drop_first() =~= cur + a);
    }
}

/// Splitting newline-free texts joined with newlines gives back the texts.
pub proof fn lemma_split_join(ts: Seq<Seq<char>>)
    requires
        ts.len() >= 1,
        forall|i: int| 0 <= i < ts.len() ==> no_newline(#[trigger] ts[i]),
    ensures
        split_lines(join_with(ts, '\n')) == ts,
    decreases ts.len(),
{
    assert(no_newline(ts[0]));
    if ts.len() == 1 {
        lemma_split_lines_plain(ts[0], seq![], seq![]);
        assert(ts[0] + seq![] =~= ts[0]);
        assert(seq![] + ts[0] =~= ts[0]);
        assert(split_lines(join_with(ts, '\n')) =~= ts);
    } else {
        let rest = ts.drop_first();
        assert forall|i: int| 0 <= i < rest.len() implies no_newline(#[trigger] rest[i]) by {
            assert(rest[i] == ts[i + 1]);
        }
        lemma_split_join(rest);
        lemma_join_front(ts, '\n');
        let jr = join_with(rest, '\n');
        assert(ts[0] + seq!['\n'] + jr =~= ts[0] + (seq!['\n'] + jr));
        lemma_split_lines_plain(ts[0], seq!['\n'] + jr, seq![]);
        assert(seq![] + ts[0] =~= ts[0]);
        let t = seq!['\n'] + jr;
        assert(t[0] == '\n');
        assert(t.drop_first() =~= jr);
        assert(split_lines_from(t, ts[0]) == seq![ts[0]] + split_lines(jr));
        assert(seq![ts[0]] + rest =~= ts);
    }
}

} // verus!
