//! What the editing commands do, stated in terms of what the document
//! shows, its saved text and the cursor, and how commands relate: what
//! one command undoes of another, and what the format toggles do when
//! repeated.

use vstd::prelude::*;
use crate::editor::{line_words, toggled_bold, toggled_underline, EditorMode, EditorState};
use crate::keys::{Action, Key, KeyPress, Modifiers};
use crate::words::{
    default_filename, first_three, join_underscore, lemma_join_clean, lemma_split_join,
    lemma_words_from_clean, lemma_words_of_lines, no_newline, no_whitespace, split_lines, words,
};
use crate::gui;
use crate::segments::{
    find_segment, lemma_delete_rich, lemma_find_segment, lemma_insert_rich, lemma_prefix_mono,
    lemma_prefix_nonneg, lemma_rich_around, lemma_rich_concat, lemma_rich_len, lemma_split_rich,
    line_insert, line_len, line_rich, line_split, line_text, prefix_len, seg_holds, seg_rich,
    typed_format, SegmentView, TextFormat,
};

verus! {

/// Typing a character and then pressing Backspace leaves every line
/// showing what it showed before, and the cursor where it was.
pub proof fn backspace_undoes_insert_char(s: EditorState, c: char)
    requires
        s.wf(),
        s.has_room(),
    ensures
        s.insert_char(c).wf(),
        s.insert_char(c).backspace().wf(),
        s.insert_char(c).backspace().rich_lines() == s.rich_lines(),
        s.insert_char(c).backspace().cursor_x == s.cursor_x,
        s.insert_char(c).backspace().cursor_y == s.cursor_y,
{
    let l = s.line();
    let x = s.cursor_x;
    let l1 = line_insert(l, x, c, s.format);
    lemma_insert_rich(l, x, c, s.format);
    lemma_rich_len(l);
    lemma_rich_len(l1);
    let s1 = s.insert_char(c);
    assert(s1.line() == l1);
    lemma_delete_rich(l1, x + 1);
    let s2 = s1.backspace();
    lemma_rich_len(s2.line());
    assert(line_rich(s2.line()) =~= line_rich(l));
    assert(s2.rich_lines() =~= s.rich_lines());
}

/// Pressing Enter and then Backspace leaves every line showing what it
/// showed before, and the cursor where it was.
pub proof fn backspace_undoes_new_line(s: EditorState)
    requires
        s.wf(),
    ensures
        s.new_line().wf(),
        crate::segments::line_len(s.new_line().lines[s.cursor_y]) + crate::segments::line_len(
            s.new_line().line(),
        ) <= usize::MAX,
        s.new_line().backspace().wf(),
        s.new_line().backspace().rich_lines() == s.rich_lines(),
        s.new_line().backspace().cursor_x == s.cursor_x,
        s.new_line().backspace().cursor_y == s.cursor_y,
{
    let l = s.line();
    let x = s.cursor_x;
    let y = s.cursor_y;
    let parts = line_split(l, x, s.format);
    lemma_split_rich(l, x, s.format);
    lemma_rich_len(l);
    lemma_rich_len(parts.0);
    lemma_rich_len(parts.1);
    lemma_rich_concat(parts.0, parts.1);
    lemma_rich_len(parts.0 + parts.1);
    let s1 = s.new_line();
    assert(s1.lines[y] == parts.0);
    assert(s1.lines[y + 1] == parts.1);
    assert(s1.wf());
    let s2 = s1.backspace();
    assert(s2.lines =~= s.lines.update(y, parts.0 + parts.1));
    assert(line_rich(parts.0 + parts.1) =~= line_rich(l));
    assert(s2.rich_lines() =~= s.rich_lines());
}

/// Moving right after moving left brings the cursor back, unless it was
/// at the start of the document.
pub proof fn move_right_undoes_move_left(s: EditorState)
    requires
        s.wf(),
        s.cursor_x > 0 || s.cursor_y > 0,
    ensures
        s.move_left().move_right() == s,
{
}

/// Moving left after moving right brings the cursor back, unless it was
/// at the end of the document.
pub proof fn move_left_undoes_move_right(s: EditorState)
    requires
        s.wf(),
        s.cursor_y < s.lines.len() - 1 || s.cursor_x < crate::segments::line_len(s.line()),
    ensures
        s.move_right().move_left() == s,
{
}

/// The bold toggle of the terminal editor never leaves the format
/// underlined, and toggling twice restores any format but `Underlined`.
pub proof fn terminal_toggle_bold_twice(f: TextFormat)
    ensures
        toggled_bold(f) != TextFormat::Underlined,
        f != TextFormat::Underlined ==> toggled_bold(toggled_bold(f)) == f,
{
}

/// The underline toggle of the terminal editor never leaves the format
/// bold, and toggling twice restores any format but `Bold`.
pub proof fn terminal_toggle_underline_twice(f: TextFormat)
    ensures
        toggled_underline(f) != TextFormat::Bold,
        f != TextFormat::Bold ==> toggled_underline(toggled_underline(f)) == f,
{
}

/// In the windowed editor, the bold button flips bold and keeps underline,
/// the underline button flips underline and keeps bold, each undoes
/// itself, and the two commute.
pub proof fn gui_toggles_are_independent(f: gui::TextFormat)
    ensures
        gui::bold(gui::toggled_bold(f)) == !gui::bold(f),
        gui::underlined(gui::toggled_bold(f)) == gui::underlined(f),
        gui::underlined(gui::toggled_underline(f)) == !gui::underlined(f),
        gui::bold(gui::toggled_underline(f)) == gui::bold(f),
        gui::toggled_bold(gui::toggled_bold(f)) == f,
        gui::toggled_underline(gui::toggled_underline(f)) == f,
        gui::toggled_bold(gui::toggled_underline(f)) == gui::toggled_underline(
            gui::toggled_bold(f),
        ),
{
}

/// Opening the save prompt and leaving it again restores the editor,
/// except that the name typed at the prompt is empty afterwards.
pub proof fn exit_save_mode_undoes_enter(s: EditorState)
    requires
        s.mode == EditorMode::Normal,
    ensures
        s.enter_save_mode().exit_save_mode() == (EditorState { save_filename: seq![], ..s }),
{
}

/// Flattening lists of whitespace-free words gives whitespace-free words.
proof fn lemma_flatten_clean(xs: Seq<Seq<Seq<char>>>)
    requires
        forall|i: int, k: int|
            0 <= i < xs.len() && 0 <= k < xs[i].len() ==> no_whitespace(#[trigger] xs[i][k]),
    ensures
        forall|k: int| 0 <= k < xs.flatten().len() ==> no_whitespace(#[trigger] xs.flatten()[k]),
    decreases xs.len(),
{
    if xs.len() > 0 {
        let rest = xs.drop_first();
        assert forall|i: int, k: int| 0 <= i < rest.len() && 0 <= k < rest[i].len() implies no_whitespace(
            #[trigger] rest[i][k],
        ) by {
            assert(rest[i] == xs[i + 1]);
        }
        lemma_flatten_clean(rest);
        let head = xs.first();
        assert(xs.flatten() == head + rest.flatten());
        assert forall|k: int| 0 <= k < xs.flatten().len() implies no_whitespace(
            #[trigger] xs.flatten()[k],
        ) by {
            if k < head.len() {
                assert(xs.flatten()[k] == xs[0][k]);
            } else {
                assert(xs.flatten()[k] == rest.flatten()[k - head.len()]);
            }
        }
    }
}

/// The terminal editor's words, and so the name its save prompt proposes
/// from the first three of them, hold no whitespace.
pub proof fn editor_first_three_words_have_no_whitespace(s: EditorState)
    ensures
        forall|k: int| 0 <= k < s.words().len() ==> no_whitespace(#[trigger] s.words()[k]),
        no_whitespace(s.first_three_words()),
{
    let lw = s.lines.map_values(|l: Seq<SegmentView>| line_words(l));
    assert forall|i: int, k: int| 0 <= i < lw.len() && 0 <= k < lw[i].len() implies no_whitespace(
        #[trigger] lw[i][k],
    ) by {
        lemma_words_from_clean(line_text(s.lines[i]), seq![]);
    }
    lemma_flatten_clean(lw);
    let ws = first_three(s.words());
    assert forall|k: int| 0 <= k < ws.len() implies no_whitespace(#[trigger] ws[k]) by {
        assert(ws[k] == s.words()[k]);
    }
    lemma_join_clean(ws);
}

/// The editor asks to quit exactly on Control with `x` while editing, and
/// to save exactly on Enter at the save prompt; neither request changes
/// the editor.
pub proof fn handle_key_requests(s: EditorState, k: KeyPress)
    ensures
        (s.handle_key(k).1 == Action::Quit) == (s.mode == EditorMode::Normal && k.modifiers
            == Modifiers::Control && k.key == Key::Char('x')),
        (s.handle_key(k).1 == Action::Save) == (s.mode == EditorMode::SaveAs && k.key
            == Key::Enter),
        s.handle_key(k).1 != Action::Continue ==> s.handle_key(k).0 == s,
{
}

/// After a save, whatever its outcome, the editor is editing again and
/// its text and cursor are as before.
pub proof fn finish_save_returns_to_editing(s: EditorState, outcome: Result<Seq<char>, Seq<char>>)
    requires
        s.wf(),
    ensures
        s.finish_save(outcome).mode == EditorMode::Normal,
        s.finish_save(outcome).wf(),
        s.finish_save(outcome).lines == s.lines,
        s.finish_save(outcome).cursor_x == s.cursor_x,
        s.finish_save(outcome).cursor_y == s.cursor_y,
{
}

/// The words of the terminal editor, and so the name its save prompt
/// proposes, depend only on the text of each line, not on how the text is
/// cut into segments or formatted.
pub proof fn words_depend_only_on_line_texts(s: EditorState, t: EditorState)
    requires
        s.lines.len() == t.lines.len(),
        forall|i: int| 0 <= i < s.lines.len() ==> line_text(#[trigger] s.lines[i]) == line_text(
            t.lines[i],
        ),
    ensures
        s.words() == t.words(),
        s.first_three_words() == t.first_three_words(),
{
    let f = |l: Seq<SegmentView>| line_words(l);
    assert(s.lines.map_values(f) =~= t.lines.map_values(f)) by {
        assert forall|i: int| 0 <= i < s.lines.len() implies #[trigger] s.lines.map_values(f)[i]
            == t.lines.map_values(f)[i] by {
            assert(line_text(s.lines[i]) == line_text(t.lines[i]));
        }
    }
}

/// The saved text holds every line of the document, whatever the cursor:
/// split at its newlines, it gives the text of each line in order (for
/// lines that hold no newline themselves).
pub proof fn saved_text_holds_every_line(s: EditorState)
    requires
        s.wf(),
        forall|i: int| 0 <= i < s.lines.len() ==> no_newline(#[trigger] line_text(s.lines[i])),
    ensures
        split_lines(s.file_contents()) == s.lines.map_values(|l: Seq<SegmentView>| line_text(l)),
{
    let texts = s.lines.map_values(|l: Seq<SegmentView>| line_text(l));
    assert forall|i: int| 0 <= i < texts.len() implies no_newline(#[trigger] texts[i]) by {
        assert(texts[i] == line_text(s.lines[i]));
    }
    lemma_split_join(texts);
}

/// The words of the terminal editor are the whitespace-separated words of
/// the whole saved text, and the name proposed at the save prompt is made
/// of the first three of them: joined with `'_'`, then `.txt` (or
/// `untitled.txt` when the text has no words).
pub proof fn save_name_comes_from_the_whole_text(s: EditorState)
    ensures
        s.words() == words(s.file_contents()),
        s.first_three_words() == join_underscore(first_three(words(s.file_contents()))),
        s.enter_save_mode().mode == EditorMode::SaveAs,
        s.enter_save_mode().save_filename == default_filename(
            join_underscore(first_three(words(s.file_contents()))),
        ),
        s.enter_save_mode().lines == s.lines,
        s.first_three_words().len() > 0 ==> s.enter_save_mode().save_filename
            == s.first_three_words() + ".txt"@,
        s.first_three_words().len() == 0 ==> s.enter_save_mode().save_filename
            == "untitled.txt"@,
{
    let texts = s.lines.map_values(|l: Seq<SegmentView>| line_text(l));
    lemma_words_of_lines(texts);
    assert(texts.map_values(|t: Seq<char>| words(t)) =~= s.lines.map_values(
        |l: Seq<SegmentView>| line_words(l),
    ));
}

/// Column `j`'s segment of `line` ends at this column.
pub open spec fn seg_end(line: Seq<SegmentView>, j: int) -> int {
    prefix_len(line, j + 1)
}

/// Some segment of `line` ends at column `x`.
pub open spec fn ends_a_segment(line: Seq<SegmentView>, x: int) -> bool {
    exists|j: int| 0 <= j < line.len() && #[trigger] seg_end(line, j) == x
}

/// A character typed at the cursor appears there and nothing else that the
/// line shows changes. It takes the current format when the cursor is at
/// the end of a segment, and otherwise the format of the character it is
/// typed before; the cursor moves past it and the other lines stay.
pub proof fn typed_character_law(s: EditorState, c: char)
    requires
        s.wf(),
        line_len(s.line()) < usize::MAX,
    ensures
        line_rich(s.insert_char(c).line()).len() == line_rich(s.line()).len() + 1,
        line_rich(s.insert_char(c).line()).take(s.cursor_x) == line_rich(s.line()).take(
            s.cursor_x,
        ),
        line_rich(s.insert_char(c).line()).skip(s.cursor_x + 1) == line_rich(s.line()).skip(
            s.cursor_x,
        ),
        line_rich(s.insert_char(c).line())[s.cursor_x].0 == c,
        ends_a_segment(s.line(), s.cursor_x)
            ==> line_rich(s.insert_char(c).line())[s.cursor_x].1 == s.format,
        !ends_a_segment(s.line(), s.cursor_x)
            ==> line_rich(s.insert_char(c).line())[s.cursor_x].1 == line_rich(
            s.line(),
        )[s.cursor_x].1,
        s.insert_char(c).cursor_x == s.cursor_x + 1,
        s.insert_char(c).cursor_y == s.cursor_y,
        s.insert_char(c).lines.len() == s.lines.len(),
        forall|i: int|
            0 <= i < s.lines.len() && i != s.cursor_y ==> #[trigger] s.insert_char(c).lines[i]
                == s.lines[i],
{
    let l = s.line();
    let x = s.cursor_x;
    lemma_insert_rich(l, x, c, s.format);
    lemma_rich_len(l);
    lemma_find_segment(l, x);
    let i = find_segment(l, x);
    let before = line_rich(l);
    let after = line_rich(s.insert_char(c).line());
    assert(s.insert_char(c).line() == line_insert(l, x, c, s.format));
    assert(after.take(x) =~= before.take(x));
    assert(after.skip(x + 1) =~= before.skip(x));
    if ends_a_segment(l, x) {
        let j = choose|j: int| 0 <= j < l.len() && #[trigger] seg_end(l, j) == x;
        lemma_prefix_mono(l, j, j + 1);
        assert(seg_holds(l, x, j));
        if i > j {
            assert(!seg_holds(l, x, j));
        }
        lemma_prefix_mono(l, i + 1, j + 1);
        assert(typed_format(l, x, s.format) == s.format);
    } else {
        assert(seg_end(l, i) != x);
        assert(prefix_len(l, i + 1) != x);
        lemma_rich_around(l, i);
        let start = prefix_len(l, i);
        assert(before[x] == seg_rich(l[i])[x - start]);
        assert(typed_format(l, x, s.format) == l[i].1);
    }
}

/// Up moves the cursor to the line above, at the same column when that
/// line is long enough and at its end otherwise; on the first line it does
/// nothing. Nothing but the cursor changes.
pub proof fn move_up_law(s: EditorState)
    requires
        s.wf(),
    ensures
        s.move_up().wf(),
        s.cursor_y > 0 && s.cursor_x <= line_len(s.lines[s.cursor_y - 1]) ==> s.move_up() == (
        EditorState { cursor_y: s.cursor_y - 1, ..s }),
        s.cursor_y > 0 && s.cursor_x > line_len(s.lines[s.cursor_y - 1]) ==> s.move_up() == (
        EditorState { cursor_x: line_len(s.lines[s.cursor_y - 1]), cursor_y: s.cursor_y - 1, ..s }),
        s.cursor_y == 0 ==> s.move_up() == s,
{
    if s.cursor_y > 0 {
        lemma_prefix_nonneg(s.lines[s.cursor_y - 1], s.lines[s.cursor_y - 1].len() as int);
    }
    assert(s.move_up().lines == s.lines);
}

/// Down moves the cursor to the line below, at the same column when that
/// line is long enough and at its end otherwise; on the last line it does
/// nothing. Nothing but the cursor changes.
pub proof fn move_down_law(s: EditorState)
    requires
        s.wf(),
    ensures
        s.move_down().wf(),
        s.cursor_y + 1 < s.lines.len() && s.cursor_x <= line_len(s.lines[s.cursor_y + 1])
            ==> s.move_down() == (EditorState { cursor_y: s.cursor_y + 1, ..s }),
        s.cursor_y + 1 < s.lines.len() && s.cursor_x > line_len(s.lines[s.cursor_y + 1])
            ==> s.move_down() == (EditorState {
            cursor_x: line_len(s.lines[s.cursor_y + 1]),
            cursor_y: s.cursor_y + 1,
            ..s
        }),
        s.cursor_y + 1 == s.lines.len() ==> s.move_down() == s,
{
    if s.cursor_y + 1 < s.lines.len() {
        lemma_prefix_nonneg(s.lines[s.cursor_y + 1], s.lines[s.cursor_y + 1].len() as int);
    }
    assert(s.move_down().lines == s.lines);
}

/// Left moves the cursor one column back, or from the start of a line to
/// the end of the line above; at the start of the document it does
/// nothing. Nothing but the cursor changes.
pub proof fn move_left_law(s: EditorState)
    requires
        s.wf(),
    ensures
        s.move_left().wf(),
        s.cursor_x > 0 ==> s.move_left() == (EditorState { cursor_x: s.cursor_x - 1, ..s }),
        s.cursor_x == 0 && s.cursor_y > 0 ==> s.move_left() == (EditorState {
            cursor_x: line_len(s.lines[s.cursor_y - 1]),
            cursor_y: s.cursor_y - 1,
            ..s
        }),
        s.cursor_x == 0 && s.cursor_y == 0 ==> s.move_left() == s,
{
    if s.cursor_y > 0 {
        lemma_prefix_nonneg(s.lines[s.cursor_y - 1], s.lines[s.cursor_y - 1].len() as int);
    }
    assert(s.move_left().lines == s.lines);
}

/// Right moves the cursor one column on, or from the end of a line to the
/// start of the line below; at the end of the document it does nothing.
/// Nothing but the cursor changes.
pub proof fn move_right_law(s: EditorState)
    requires
        s.wf(),
    ensures
        s.move_right().wf(),
        s.cursor_x < line_len(s.line()) ==> s.move_right() == (EditorState {
            cursor_x: s.cursor_x + 1,
            ..s
        }),
        s.cursor_x == line_len(s.line()) && s.cursor_y + 1 < s.lines.len() ==> s.move_right() == (
        EditorState { cursor_x: 0, cursor_y: s.cursor_y + 1, ..s }),
        s.cursor_x == line_len(s.line()) && s.cursor_y + 1 == s.lines.len() ==> s.move_right()
            == s,
{
    if s.cursor_y + 1 < s.lines.len() {
        lemma_prefix_nonneg(s.lines[s.cursor_y + 1], s.lines[s.cursor_y + 1].len() as int);
    }
    assert(s.move_right().lines == s.lines);
}

/// While editing, the arrow keys move the cursor the way the arrows point
/// (Up to the line above, Down to the line below, Left one column back,
/// Right one column on) and clear the status message, leaving the text as
/// it is.
pub proof fn arrow_keys_law(s: EditorState, k: KeyPress)
    requires
        s.wf(),
        s.mode == EditorMode::Normal,
    ensures
        k.key == Key::Up || k.key == Key::Down || k.key == Key::Left || k.key == Key::Right
            ==> s.handle_key(k).0.lines == s.lines && s.handle_key(k).0.status_message is None
            && s.handle_key(k).1 == Action::Continue,
        k.key == Key::Up && s.cursor_y > 0 ==> s.handle_key(k).0.cursor_y == s.cursor_y - 1 && (
        s.cursor_x <= line_len(s.lines[s.cursor_y - 1]) ==> s.handle_key(k).0.cursor_x
            == s.cursor_x) && (s.cursor_x > line_len(s.lines[s.cursor_y - 1])
            ==> s.handle_key(k).0.cursor_x == line_len(s.lines[s.cursor_y - 1])),
        k.key == Key::Down && s.cursor_y + 1 < s.lines.len() ==> s.handle_key(k).0.cursor_y
            == s.cursor_y + 1 && (s.cursor_x <= line_len(s.lines[s.cursor_y + 1])
            ==> s.handle_key(k).0.cursor_x == s.cursor_x) && (s.cursor_x > line_len(
            s.lines[s.cursor_y + 1],
        ) ==> s.handle_key(k).0.cursor_x == line_len(s.lines[s.cursor_y + 1])),
        k.key == Key::Left && s.cursor_x > 0 ==> s.handle_key(k).0.cursor_x == s.cursor_x - 1
            && s.handle_key(k).0.cursor_y == s.cursor_y,
        k.key == Key::Left && s.cursor_x == 0 && s.cursor_y > 0 ==> s.handle_key(k).0.cursor_y
            == s.cursor_y - 1 && s.handle_key(k).0.cursor_x == line_len(s.lines[s.cursor_y - 1]),
        k.key == Key::Right && s.cursor_x < line_len(s.line()) ==> s.handle_key(k).0.cursor_x
            == s.cursor_x + 1 && s.handle_key(k).0.cursor_y == s.cursor_y,
        k.key == Key::Right && s.cursor_x == line_len(s.line()) && s.cursor_y + 1 < s.lines.len()
            ==> s.handle_key(k).0.cursor_y == s.cursor_y + 1 && s.handle_key(k).0.cursor_x == 0,
{
}

/// While editing, a character typed alone or with Shift is inserted at the
/// cursor and the cursor moves past it; Enter splits the cursor's line at
/// the cursor and moves to the start of the new line; Backspace removes the
/// character before the cursor.
pub proof fn editing_keys_law(s: EditorState, k: KeyPress)
    requires
        s.wf(),
        s.has_room(),
        s.mode == EditorMode::Normal,
    ensures
        (k.modifiers == Modifiers::Plain || k.modifiers == Modifiers::Shift) && k.key is Char
            ==> line_rich(s.handle_key(k).0.line()).remove(s.cursor_x) == line_rich(s.line())
            && line_rich(s.handle_key(k).0.line())[s.cursor_x].0 == k.key->Char_0
            && s.handle_key(k).0.cursor_x == s.cursor_x + 1 && s.handle_key(k).0.cursor_y
            == s.cursor_y,
        k.key == Key::Enter ==> s.handle_key(k).0.lines.len() == s.lines.len() + 1
            && s.handle_key(k).0.cursor_y == s.cursor_y + 1 && s.handle_key(k).0.cursor_x == 0
            && line_rich(s.handle_key(k).0.lines[s.cursor_y]) + line_rich(
            s.handle_key(k).0.lines[s.cursor_y + 1],
        ) == line_rich(s.line()) && line_rich(s.handle_key(k).0.lines[s.cursor_y]).len()
            == s.cursor_x,
        k.key == Key::Backspace && s.cursor_x > 0 ==> line_rich(s.handle_key(k).0.line())
            == line_rich(s.line()).remove(s.cursor_x - 1) && s.handle_key(k).0.cursor_x
            == s.cursor_x - 1 && s.handle_key(k).0.cursor_y == s.cursor_y,
{
    let l = s.line();
    let x = s.cursor_x;
    lemma_rich_len(l);
    if (k.modifiers == Modifiers::Plain || k.modifiers == Modifiers::Shift) && k.key is Char {
        let c = k.key->Char_0;
        lemma_insert_rich(l, x, c, s.format);
        assert(s.handle_key(k).0.line() == line_insert(l, x, c, s.format));
        assert(line_rich(line_insert(l, x, c, s.format)).remove(x) =~= line_rich(l));
    }
    if k.key == Key::Enter {
        lemma_split_rich(l, x, s.format);
        assert(line_rich(l).take(x) + line_rich(l).skip(x) =~= line_rich(l));
    }
    if k.key == Key::Backspace && x > 0 {
        lemma_delete_rich(l, x);
    }
}

/// The terminal editor's bold toggle turns bold off when it is on and on
/// otherwise; the underline toggle does the same for underline.
pub proof fn terminal_toggles_law(f: TextFormat)
    ensures
        toggled_bold(f) == if f == TextFormat::Bold {
            TextFormat::Normal
        } else {
            TextFormat::Bold
        },
        toggled_underline(f) == if f == TextFormat::Underlined {
            TextFormat::Normal
        } else {
            TextFormat::Underlined
        },
{
}

/// At the save prompt: Enter asks for the save and changes nothing;
/// Escape leaves the prompt with an empty name; Backspace, and a typed
/// backspace or delete character, remove the name's last character; a
/// typed newline changes nothing; any other typed character is appended to
/// the name. The text and the cursor never change.
pub proof fn save_prompt_keys_law(s: EditorState, k: KeyPress)
    requires
        s.mode == EditorMode::SaveAs,
    ensures
        s.handle_key(k).0.lines == s.lines,
        s.handle_key(k).0.cursor_x == s.cursor_x,
        s.handle_key(k).0.cursor_y == s.cursor_y,
        k.key == Key::Enter ==> s.handle_key(k) == (s, Action::Save),
        k.key == Key::Esc ==> s.handle_key(k).0.mode == EditorMode::Normal
            && s.handle_key(k).0.save_filename.len() == 0,
        k.key == Key::Backspace || k.key == Key::Char('\u{8}') || k.key == Key::Char('\u{7f}')
            ==> s.handle_key(k).0.save_filename == if s.save_filename.len() == 0 {
            s.save_filename
        } else {
            s.save_filename.take(s.save_filename.len() - 1)
        },
        k.key == Key::Char('\n') ==> s.handle_key(k).0 == s,
        (k.key is Char && k.key != Key::Char('\n') && k.key != Key::Char('\u{8}') && k.key
            != Key::Char('\u{7f}')) ==> s.handle_key(k).0.save_filename == s.save_filename
            + seq![k.key->Char_0] && s.handle_key(k).0.mode == EditorMode::SaveAs,
{
}

/// A save, whatever its outcome, is reported on the status line: the path
/// after a save, the error after a failure.
pub proof fn save_outcome_message_law(s: EditorState, path: Seq<char>, error: Seq<char>)
    ensures
        s.finish_save(Ok(path)).status_message == Some("File saved to: "@ + path),
        s.finish_save(Err(error)).status_message == Some("Error saving file: "@ + error),
        s.finish_save(Ok(path)).save_filename == s.save_filename,
{
}

/// The windowed editor proposes, as the file name, the first three
/// whitespace-separated words of its buffer joined with `'_'` and `.txt`
/// (`untitled.txt` when the buffer has no words), and opens its dialog.
pub proof fn gui_save_name_law(a: gui::AppState)
    ensures
        a.enter_save_mode().save_dialog_open,
        a.enter_save_mode().content == a.content,
        words(a.content).len() > 0 ==> a.enter_save_mode().save_filename == join_underscore(
            first_three(words(a.content)),
        ) + ".txt"@,
        words(a.content).len() == 0 ==> a.enter_save_mode().save_filename == "untitled.txt"@,
{
    lemma_words_from_clean(a.content, seq![]);
    if words(a.content).len() > 0 {
        lemma_join_nonempty(first_three(words(a.content)));
    }
}

/// The windowed editor's save dialog, while open, takes in the folder and
/// name fields; it stays open only if its window stayed open and neither
/// button was clicked. While closed, it changes nothing.
pub proof fn gui_save_dialog_law(
    a: gui::AppState,
    open: bool,
    path: Seq<char>,
    name: Seq<char>,
    save: bool,
    cancel: bool,
)
    ensures
        a.save_dialog_open ==> a.handle_save_dialog(open, path, name, save, cancel).output_path
            == path && a.handle_save_dialog(open, path, name, save, cancel).save_filename == name,
        a.save_dialog_open ==> (a.handle_save_dialog(open, path, name, save, cancel).save_dialog_open
            <==> (open && !save && !cancel)),
        !a.save_dialog_open ==> a.handle_save_dialog(open, path, name, save, cancel) == a,
        a.handle_save_dialog(open, path, name, save, cancel).content == a.content,
{
}

/// Joining a non-empty list whose first word is non-empty gives a non-empty
/// sequence.
proof fn lemma_join_nonempty(ws: Seq<Seq<char>>)
    requires
        ws.len() > 0,
        ws[0].len() > 0,
    ensures
        join_underscore(ws).len() > 0,
    decreases ws.len(),
{
    if ws.len() > 1 {
        lemma_join_nonempty(ws.drop_last());
    }
}

} // verus!
