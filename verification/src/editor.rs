//! The terminal editor: lines of formatted segments, a cursor, the format
//! that typing uses, and a prompt for the name to save under.
//!
//! `EditorState` is the mathematical model of an editor and holds the
//! transitions that the editing commands make; `TextEditor` is the
//! executable editor, whose every command is proved to make the transition
//! of its model. `TextEditor` keeps its contents in a `Document` and holds,
//! as a type invariant, that they are well formed; each command moves the
//! document out, edits it and puts it back.

use vstd::prelude::*;
use crate::keys::{Action, Key, KeyPress, Modifiers};
use crate::messages::{outcome_view, save_status, save_status_message};
use crate::strings::{string_from_chars, string_pop, string_push};
use crate::words::{
    append_chars, default_filename, filename_from_words, first_three, join_first_three, join_prefix, join_underscore, join_with,
    split_whitespace, views, words,
};
use crate::segments::{
    find_from, find_segment, lemma_find_segment, lemma_prefix_mono, lemma_prefix_nonneg, line_delete_before, lemma_insert_rich, lemma_rich_len, typed_format, lemma_delete_rich, lemma_rich_concat,
    lemma_split_rich, line_text,
    line_insert, line_len, line_rich, line_split, prefix_len, seg_holds, SegmentView, TextFormat,
};

verus! {

broadcast use vstd::seq_lib::group_seq_properties;

/// Whether the editor is editing text or asking for a file name.
#[derive(Clone, Copy, Debug, PartialEq, Eq, Structural)]
pub enum EditorMode {
    Normal,
    SaveAs,
}

/// The mathematical model of a `TextEditor`.
pub struct EditorState {
    /// The lines, each a sequence of formatted segments.
    pub lines: Seq<Seq<SegmentView>>,
    /// The cursor's column, counted in characters.
    pub cursor_x: int,
    /// The cursor's line.
    pub cursor_y: int,
    /// The format that typed characters take at a segment's end.
    pub format: TextFormat,
    pub mode: EditorMode,
    /// The file name typed at the save prompt.
    pub save_filename: Seq<char>,
    /// The message shown on the status line, if any.
    pub status_message: Option<Seq<char>>,
}

/// The format after the bold toggle: bold turns off, anything else turns
/// bold.
pub open spec fn toggled_bold(f: TextFormat) -> TextFormat {
    match f {
        TextFormat::Normal => TextFormat::Bold,
        TextFormat::Bold => TextFormat::Normal,
        TextFormat::Underlined => TextFormat::Bold,
    }
}

/// The format after the underline toggle: underline turns off, anything
/// else turns underlined.
pub open spec fn toggled_underline(f: TextFormat) -> TextFormat {
    match f {
        TextFormat::Normal => TextFormat::Underlined,
        TextFormat::Bold => TextFormat::Underlined,
        TextFormat::Underlined => TextFormat::Normal,
    }
}

/// The name shown for a format.
pub open spec fn format_name(f: TextFormat) -> Seq<char> {
    match f {
        TextFormat::Normal => "Normal"@,
        TextFormat::Bold => "Bold"@,
        TextFormat::Underlined => "Underlined"@,
    }
}

pub open spec fn min(a: int, b: int) -> int {
    if a <= b { a } else { b }
}

impl EditorState {
    /// The editor's invariant: there is a line, every line has a segment
    /// and a length that fits in a `usize`, and the cursor is on a line and
    /// at most at its end.
    pub open spec fn wf(self) -> bool {
        &&& self.lines.len() >= 1
        &&& 0 <= self.cursor_y < self.lines.len()
        &&& forall|i: int|
            0 <= i < self.lines.len() ==> (#[trigger] self.lines[i]).len() >= 1 && line_len(
                self.lines[i],
            ) <= usize::MAX
        &&& 0 <= self.cursor_x <= line_len(self.lines[self.cursor_y])
    }

    /// The line the cursor is on.
    pub open spec fn line(self) -> Seq<SegmentView> {
        self.lines[self.cursor_y]
    }

    /// The lengths involved in the next edit fit in a `usize`: typing
    /// lengthens the cursor's line by one, and deleting at the start of a
    /// line joins it to the line above.
    pub open spec fn has_room(self) -> bool {
        &&& line_len(self.line()) < usize::MAX
        &&& self.cursor_x == 0 && self.cursor_y > 0 ==> line_len(self.lines[self.cursor_y - 1])
            + line_len(self.line()) <= usize::MAX
    }

    /// What each line shows: its formatted characters.
    pub open spec fn rich_lines(self) -> Seq<Seq<(char, TextFormat)>> {
        self.lines.map_values(|l: Seq<SegmentView>| line_rich(l))
    }

    /// The editor after typing `c` at the cursor.
    pub open spec fn insert_char(self, c: char) -> EditorState {
        EditorState {
            lines: self.lines.update(
                self.cursor_y,
                line_insert(self.line(), self.cursor_x, c, self.format),
            ),
            cursor_x: self.cursor_x + 1,
            ..self
        }
    }

    /// The editor after a backspace: the character before the cursor goes;
    /// at the start of a line, the line joins the one above with the cursor
    /// at the join; at the start of the first line, nothing happens.
    pub open spec fn backspace(self) -> EditorState {
        if self.cursor_x > 0 {
            EditorState {
                lines: self.lines.update(
                    self.cursor_y,
                    line_delete_before(self.line(), self.cursor_x),
                ),
                cursor_x: self.cursor_x - 1,
                ..self
            }
        } else if self.cursor_y > 0 {
            let y = self.cursor_y;
            EditorState {
                lines: self.lines.update(y - 1, self.lines[y - 1] + self.lines[y]).remove(y),
                cursor_x: line_len(self.lines[y - 1]),
                cursor_y: y - 1,
                ..self
            }
        } else {
            self
        }
    }

    /// The editor after Enter: the cursor's line splits at the cursor and the
    /// cursor moves to the start of the new line.
    pub open spec fn new_line(self) -> EditorState {
        let parts = line_split(self.line(), self.cursor_x, self.format);
        EditorState {
            lines: self.lines.update(self.cursor_y, parts.0).insert(self.cursor_y + 1, parts.1),
            cursor_x: 0,
            cursor_y: self.cursor_y + 1,
            ..self
        }
    }

    /// The editor with the cursor at column `x` of line `y`.
    pub open spec fn with_cursor(self, x: int, y: int) -> EditorState {
        EditorState { cursor_x: x, cursor_y: y, ..self }
    }

    /// One column left, or to the end of the line above.
    pub open spec fn move_left(self) -> EditorState {
        if self.cursor_x > 0 {
            self.with_cursor(self.cursor_x - 1, self.cursor_y)
        } else if self.cursor_y > 0 {
            self.with_cursor(line_len(self.lines[self.cursor_y - 1]), self.cursor_y - 1)
        } else {
            self
        }
    }

    /// One column right, or to the start of the line below.
    pub open spec fn move_right(self) -> EditorState {
        if self.cursor_x < line_len(self.line()) {
            self.with_cursor(self.cursor_x + 1, self.cursor_y)
        } else if self.cursor_y < self.lines.len() - 1 {
            self.with_cursor(0, self.cursor_y + 1)
        } else {
            self
        }
    }

    /// One line up, keeping the column where that line is long enough.
    pub open spec fn move_up(self) -> EditorState {
        if self.cursor_y > 0 {
            self.with_cursor(
                min(self.cursor_x, line_len(self.lines[self.cursor_y - 1])),
                self.cursor_y - 1,
            )
        } else {
            self
        }
    }

    /// One line down, keeping the column where that line is long enough.
    pub open spec fn move_down(self) -> EditorState {
        if self.cursor_y < self.lines.len() - 1 {
            self.with_cursor(
                min(self.cursor_x, line_len(self.lines[self.cursor_y + 1])),
                self.cursor_y + 1,
            )
        } else {
            self
        }
    }

    pub open spec fn with_format(self, f: TextFormat) -> EditorState {
        EditorState { format: f, ..self }
    }

    /// The editor with its status message cleared.
    pub open spec fn cleared(self) -> EditorState {
        EditorState { status_message: None, ..self }
    }

    /// The words of the document: those of each line's text, line after
    /// line.
    pub open spec fn words(self) -> Seq<Seq<char>> {
        doc_words(self.lines)
    }

    /// The first three words of the document joined with `'_'`.
    pub open spec fn first_three_words(self) -> Seq<char> {
        join_underscore(first_three(self.words()))
    }

    /// The editor at the save prompt, with the first three words and
    /// `.txt` (or `untitled.txt` when there are no words) as the name.
    pub open spec fn enter_save_mode(self) -> EditorState {
        EditorState {
            mode: EditorMode::SaveAs,
            save_filename: default_filename(self.first_three_words()),
            ..self
        }
    }

    /// The editor back from the save prompt, with the name cleared.
    pub open spec fn exit_save_mode(self) -> EditorState {
        EditorState { mode: EditorMode::Normal, save_filename: seq![], ..self }
    }

    /// The editor after the save prompt has read `c`: a newline changes
    /// nothing, a backspace or delete character removes the name's last
    /// character, any other character is appended to the name.
    pub open spec fn update_save_filename(self, c: char) -> EditorState {
        if c == '\n' {
            self
        } else if c == '\u{8}' || c == '\u{7f}' {
            EditorState { save_filename: drop_last_char(self.save_filename), ..self }
        } else {
            EditorState { save_filename: self.save_filename.push(c), ..self }
        }
    }

    /// The editor after a save whose outcome is `outcome`: editing again,
    /// with the outcome on the status line.
    pub open spec fn finish_save(self, outcome: Result<Seq<char>, Seq<char>>) -> EditorState {
        EditorState {
            mode: EditorMode::Normal,
            status_message: Some(save_status(outcome)),
            ..self
        }
    }

    /// The text written to a file: the characters of each line, with a
    /// newline between lines.
    pub open spec fn file_contents(self) -> Seq<char> {
        join_with(self.lines.map_values(|l: Seq<SegmentView>| line_text(l)), '\n')
    }

    /// The editor after the key press `k`, and what the caller is to do.
    ///
    /// While editing: Control with `x` quits; Control with `b`, `u` or `s`
    /// toggles bold, toggles underline, or opens the save prompt; a
    /// character typed alone or with Shift is inserted; Enter, Backspace
    /// and the arrows edit and move; every one of these clears the status
    /// message. At the save prompt: Enter asks for the save, Escape leaves
    /// the prompt, a character goes to the name, Backspace removes the
    /// name's last character. Other keys change nothing.
    pub open spec fn handle_key(self, k: KeyPress) -> (EditorState, Action) {
        match self.mode {
            EditorMode::Normal => {
                if k.modifiers == Modifiers::Control && k.key == Key::Char('x') {
                    (self, Action::Quit)
                } else if k.modifiers == Modifiers::Control && k.key == Key::Char('b') {
                    (self.with_format(toggled_bold(self.format)).cleared(), Action::Continue)
                } else if k.modifiers == Modifiers::Control && k.key == Key::Char('u') {
                    (self.with_format(toggled_underline(self.format)).cleared(), Action::Continue)
                } else if k.modifiers == Modifiers::Control && k.key == Key::Char('s') {
                    (self.enter_save_mode().cleared(), Action::Continue)
                } else {
                    match k.key {
                        Key::Char(c) => if k.modifiers == Modifiers::Plain || k.modifiers
                            == Modifiers::Shift {
                            (self.insert_char(c).cleared(), Action::Continue)
                        } else {
                            (self, Action::Continue)
                        },
                        Key::Enter => (self.new_line().cleared(), Action::Continue),
                        Key::Backspace => (self.backspace().cleared(), Action::Continue),
                        Key::Left => (self.move_left().cleared(), Action::Continue),
                        Key::Right => (self.move_right().cleared(), Action::Continue),
                        Key::Up => (self.move_up().cleared(), Action::Continue),
                        Key::Down => (self.move_down().cleared(), Action::Continue),
                        _ => (self, Action::Continue),
                    }
                }
            },
            EditorMode::SaveAs => match k.key {
                Key::Enter => (self, Action::Save),
                Key::Esc => (self.exit_save_mode(), Action::Continue),
                Key::Char(c) => (self.update_save_filename(c), Action::Continue),
                Key::Backspace => (
                    EditorState { save_filename: drop_last_char(self.save_filename), ..self },
                    Action::Continue,
                ),
                _ => (self, Action::Continue),
            },
        }
    }
}

/// The words of a line: the whitespace-separated words of its text, all
/// its segments read as one.
pub open spec fn line_words(line: Seq<SegmentView>) -> Seq<Seq<char>> {
    words(line_text(line))
}

/// The words of a document: those of each of its lines, in order.
pub open spec fn doc_words(lines: Seq<Seq<SegmentView>>) -> Seq<Seq<char>> {
    lines.map_values(|l: Seq<SegmentView>| line_words(l)).flatten()
}

/// `s` without its last character, or `s` itself when it is empty.
pub open spec fn drop_last_char(s: Seq<char>) -> Seq<char> {
    if s.len() == 0 {
        s
    } else {
        s.drop_last()
    }
}

/// A run of characters that share one format.
pub type Segment = (Vec<char>, TextFormat);

/// A segment as a mathematical value.
pub open spec fn seg_view(s: Segment) -> SegmentView {
    (s.0@, s.1)
}

/// A line as a mathematical value.
pub open spec fn line_view(l: Vec<Segment>) -> Seq<SegmentView> {
    l@.map_values(|s: Segment| seg_view(s))
}

/// The contents of a terminal editor, with no invariant of its own: its
/// methods require `wf` of their model and keep it.
struct Document {
    text: Vec<Vec<Segment>>,
    cursor_x: usize,
    cursor_y: usize,
    current_format: TextFormat,
    mode: EditorMode,
    save_filename: String,
    status_message: Option<String>,
}

impl View for Document {
    type V = EditorState;

    closed spec fn view(&self) -> EditorState {
        EditorState {
            lines: self.text@.map_values(|l: Vec<Segment>| line_view(l)),
            cursor_x: self.cursor_x as int,
            cursor_y: self.cursor_y as int,
            format: self.current_format,
            mode: self.mode,
            save_filename: self.save_filename@,
            status_message: match self.status_message {
                Some(m) => Some(m@),
                None => None,
            },
        }
    }
}

impl Document {
    /// An editor holding one empty line of one empty `Normal` segment, with
    /// the cursor at its start, format `Normal`, editing, no file name and
    /// no status message.
    fn new() -> (e: Document)
        ensures
            e@.wf(),
            e@.lines == seq![seq![(Seq::<char>::empty(), TextFormat::Normal)]],
            e@.cursor_x == 0,
            e@.cursor_y == 0,
            e@.format == TextFormat::Normal,
            e@.mode == EditorMode::Normal,
            e@.save_filename == Seq::<char>::empty(),
            e@.status_message is None,
    {
        let empty: Vec<char> = Vec::new();
        let mut line: Vec<Segment> = Vec::new();
        line.push((empty, TextFormat::Normal));
        assert(line_view(line) =~= seq![(Seq::<char>::empty(), TextFormat::Normal)]);
        let mut text: Vec<Vec<Segment>> = Vec::new();
        text.push(line);
        let e = Document {
            text,
            cursor_x: 0,
            cursor_y: 0,
            current_format: TextFormat::Normal,
            mode: EditorMode::Normal,
            save_filename: String::new(),
            status_message: None,
        };
        assert(e@.lines =~= seq![seq![(Seq::<char>::empty(), TextFormat::Normal)]]);
        assert(prefix_len(e@.lines[0], 0) == 0);
        assert(prefix_len(e@.lines[0], 1) == 0);
        e
    }

    /// The segment the cursor is in: the first one of the cursor's line
    /// whose span, ends included, holds the cursor's column.
    fn find_segment_at_cursor(&self) -> (idx: usize)
        requires
            self@.wf(),
        ensures
            idx == find_segment(self@.line(), self@.cursor_x),
            idx < self@.line().len(),
            seg_holds(self@.line(), self@.cursor_x, idx as int),
            forall|j: int| 0 <= j < idx ==> !seg_holds(self@.line(), self@.cursor_x, j),
    {
        let ghost l = self@.line();
        proof {
            lemma_find_segment(l, self@.cursor_x);
        }
        let line = &self.text[self.cursor_y];
        assert(line_view(*line) == l);
        let mut current_x: usize = 0;
        let mut idx: usize = 0;
        while idx < line.len()
            invariant
                l == self@.line(),
                line_view(*line) == l,
                l.len() == line.len(),
                l.len() >= 1,
                line_len(l) <= usize::MAX,
                idx <= line.len(),
                current_x == prefix_len(l, idx as int),
                find_from(l, self.cursor_x as int, idx as int) == find_from(
                    l,
                    self.cursor_x as int,
                    0,
                ),
            decreases line.len() - idx,
        {
            let segment_len = line[idx].0.len();
            assert(l[idx as int].0.len() == segment_len);
            proof {
                lemma_prefix_mono(l, idx + 1, l.len() as int);
            }
            assert(prefix_len(l, idx + 1) == current_x + segment_len);
            if current_x <= self.cursor_x && self.cursor_x <= current_x + segment_len {
                assert(find_from(l, self.cursor_x as int, idx as int) == idx);
                proof {
                    lemma_find_segment(l, self@.cursor_x);
                }
                return idx;
            }
            current_x += segment_len;
            idx += 1;
        }
        if line.len() > 0 {
            line.len() - 1
        } else {
            0
        }
    }

    /// The column at which segment `segment_idx` of the cursor's line starts.
    fn get_segment_start_x(&self, segment_idx: usize) -> (start: usize)
        requires
            0 <= self@.cursor_y < self@.lines.len(),
            line_len(self@.line()) <= usize::MAX,
            segment_idx <= self@.line().len(),
        ensures
            start == prefix_len(self@.line(), segment_idx as int),
    {
        let ghost l = self@.line();
        let line = &self.text[self.cursor_y];
        assert(line_view(*line) == l);
        let mut start_x: usize = 0;
        let mut i: usize = 0;
        while i < segment_idx
            invariant
                line_view(*line) == l,
                line_len(l) <= usize::MAX,
                segment_idx <= l.len(),
                i <= segment_idx,
                start_x == prefix_len(l, i as int),
            decreases segment_idx - i,
        {
            proof {
                lemma_prefix_mono(l, i + 1, l.len() as int);
            }
            assert(l[i as int].0.len() == line[i as int].0.len());
            start_x += line[i].0.len();
            i += 1;
        }
        start_x
    }

    /// The number of characters on line `line_idx`.
    fn line_length(&self, line_idx: usize) -> (len: usize)
        requires
            line_idx < self@.lines.len(),
            line_len(self@.lines[line_idx as int]) <= usize::MAX,
        ensures
            len == line_len(self@.lines[line_idx as int]),
    {
        let ghost l = self@.lines[line_idx as int];
        let line = &self.text[line_idx];
        assert(line_view(*line) == l);
        let mut total: usize = 0;
        let mut i: usize = 0;
        while i < line.len()
            invariant
                line_view(*line) == l,
                line_len(l) <= usize::MAX,
                i <= line.len(),
                total == prefix_len(l, i as int),
            decreases line.len() - i,
        {
            proof {
                lemma_prefix_mono(l, i + 1, l.len() as int);
            }
            assert(l[i as int].0.len() == line[i as int].0.len());
            total += line[i].0.len();
            i += 1;
        }
        total
    }

    /// Moves the cursor one column left, or to the end of the line above.
    fn move_cursor_left(&mut self)
        requires
            old(self)@.wf(),
        ensures
            final(self)@ == old(self)@.move_left(),
            final(self)@.wf(),
    {
        if self.cursor_x > 0 {
            self.cursor_x -= 1;
        } else if self.cursor_y > 0 {
            self.cursor_y -= 1;
            self.cursor_x = self.line_length(self.cursor_y);
        }
    }

    /// Moves the cursor one column right, or to the start of the line below.
    fn move_cursor_right(&mut self)
        requires
            old(self)@.wf(),
        ensures
            final(self)@ == old(self)@.move_right(),
            final(self)@.wf(),
    {
        let line_len = self.line_length(self.cursor_y);
        if self.cursor_x < line_len {
            self.cursor_x += 1;
        } else if self.cursor_y < self.text.len() - 1 {
            self.cursor_y += 1;
            self.cursor_x = 0;
            proof {
                lemma_prefix_nonneg(self@.line(), self@.line().len() as int);
            }
        }
    }

    /// Moves the cursor one line up, to the end of that line if it is
    /// shorter than the cursor's column.
    fn move_cursor_up(&mut self)
        requires
            old(self)@.wf(),
        ensures
            final(self)@ == old(self)@.move_up(),
            final(self)@.wf(),
    {
        if self.cursor_y > 0 {
            self.cursor_y -= 1;
            let line_len = self.line_length(self.cursor_y);
            if self.cursor_x > line_len {
                self.cursor_x = line_len;
            }
        }
    }

    /// Moves the cursor one line down, to the end of that line if it is
    /// shorter than the cursor's column.
    fn move_cursor_down(&mut self)
        requires
            old(self)@.wf(),
        ensures
            final(self)@ == old(self)@.move_down(),
            final(self)@.wf(),
    {
        if self.cursor_y < self.text.len() - 1 {
            self.cursor_y += 1;
            let line_len = self.line_length(self.cursor_y);
            if self.cursor_x > line_len {
                self.cursor_x = line_len;
            }
        }
    }

    /// Switches bold on or off for what is typed next.
    fn toggle_bold(&mut self)
        requires
            old(self)@.wf(),
        ensures
            final(self)@ == old(self)@.with_format(toggled_bold(old(self)@.format)),
            final(self)@.wf(),
    {
        self.current_format = match self.current_format {
            TextFormat::Normal => TextFormat::Bold,
            TextFormat::Bold => TextFormat::Normal,
            TextFormat::Underlined => TextFormat::Bold,
        };
    }

    /// Switches underline on or off for what is typed next.
    fn toggle_underline(&mut self)
        requires
            old(self)@.wf(),
        ensures
            final(self)@ == old(self)@.with_format(toggled_underline(old(self)@.format)),
            final(self)@.wf(),
    {
        self.current_format = match self.current_format {
            TextFormat::Normal => TextFormat::Underlined,
            TextFormat::Bold => TextFormat::Underlined,
            TextFormat::Underlined => TextFormat::Normal,
        };
    }

    /// The name of the current format, for the status line.
    fn get_format_name(&self) -> (name: &'static str)
        ensures
            name@ == format_name(self@.format),
    {
        match self.current_format {
            TextFormat::Normal => "Normal",
            TextFormat::Bold => "Bold",
            TextFormat::Underlined => "Underlined",
        }
    }

    /// Types `c` at the cursor and moves the cursor past it.
    ///
    /// The character takes the current format at the end of a segment (or
    /// on a line without segments), and the format of the segment it is
    /// typed into otherwise; what the line shows gains exactly that
    /// character at the cursor's column.
    fn insert_char(&mut self, c: char)
        requires
            old(self)@.wf(),
            line_len(old(self)@.line()) < usize::MAX,
        ensures
            final(self)@ == old(self)@.insert_char(c),
            final(self)@.wf(),
            line_rich(final(self)@.line()) == line_rich(old(self)@.line()).insert(
                old(self)@.cursor_x,
                (c, typed_format(old(self)@.line(), old(self)@.cursor_x, old(self)@.format)),
            ),
    {
        let ghost s0 = self@;
        let ghost old_text = self.text@;
        let y = self.cursor_y;
        if self.text[y].len() == 0 {
            let mut t: Vec<char> = Vec::new();
            t.push(c);
            let f = self.current_format;
            self.text[y].push((t, f));
            assert(line_view(self.text@[y as int]) =~= line_insert(s0.line(), s0.cursor_x, c, s0.format));
        } else {
            let segment_idx = self.find_segment_at_cursor();
            let format_is_same = self.text[y][segment_idx].1 == self.current_format;
            let segment_start_x = self.get_segment_start_x(segment_idx);
            let text_len = self.text[y][segment_idx].0.len();
            proof {
                lemma_prefix_mono(s0.line(), segment_idx + 1, s0.line().len() as int);
            }
            assert(s0.line()[segment_idx as int].0.len() == text_len);
            if self.cursor_x == segment_start_x + text_len {
                if format_is_same {
                    self.text[y][segment_idx].0.push(c);
                } else {
                    let mut t: Vec<char> = Vec::new();
                    t.push(c);
                    let f = self.current_format;
                    self.text[y].insert(segment_idx + 1, (t, f));
                }
            } else {
                let cursor_in_segment = self.cursor_x - segment_start_x;
                let current_format = self.text[y][segment_idx].1;
                let right = self.text[y][segment_idx].0.split_off(cursor_in_segment);
                self.text[y][segment_idx].0.push(c);
                if right.len() > 0 {
                    self.text[y].insert(segment_idx + 1, (right, current_format));
                }
            }
            assert(line_view(self.text@[y as int]) =~= line_insert(s0.line(), s0.cursor_x, c, s0.format));
        }
        self.cursor_x += 1;
        proof {
            lemma_insert_rich(s0.line(), s0.cursor_x, c, s0.format);
            lemma_rich_len(s0.line());
            lemma_rich_len(self@.line());
            assert(self@.lines =~= s0.lines.update(y as int, line_insert(s0.line(), s0.cursor_x, c, s0.format)));
        }
    }

    /// Deletes the character before the cursor; at the start of a line,
    /// joins the line to the one above, with the cursor at the join; at the
    /// start of the first line, does nothing.
    fn backspace(&mut self)
        requires
            old(self)@.wf(),
            old(self)@.cursor_x == 0 && old(self)@.cursor_y > 0 ==> line_len(
                old(self)@.lines[old(self)@.cursor_y - 1],
            ) + line_len(old(self)@.line()) <= usize::MAX,
        ensures
            final(self)@ == old(self)@.backspace(),
            final(self)@.wf(),
            old(self)@.cursor_x > 0 ==> line_rich(final(self)@.line()) == line_rich(
                old(self)@.line(),
            ).remove(old(self)@.cursor_x - 1),
            old(self)@.cursor_x == 0 && old(self)@.cursor_y > 0 ==> line_rich(final(self)@.line())
                == line_rich(old(self)@.lines[old(self)@.cursor_y - 1]) + line_rich(
                old(self)@.line(),
            ),
    {
        let ghost s0 = self@;
        if self.cursor_x > 0 {
            let segment_idx = self.find_segment_at_cursor();
            let start_x = self.get_segment_start_x(segment_idx);
            proof {
                lemma_find_segment(s0.line(), s0.cursor_x);
            }
            let cursor_in_segment = self.cursor_x - start_x;
            let y = self.cursor_y;
            self.text[y][segment_idx].0.remove(cursor_in_segment - 1);
            if self.text[y][segment_idx].0.len() == 0 {
                self.text[y].remove(segment_idx);
            }
            self.cursor_x -= 1;
            if self.text[y].len() == 0 {
                let empty: Vec<char> = Vec::new();
                self.text[y].push((empty, TextFormat::Normal));
            }
            assert(line_view(self.text@[y as int]) =~= line_delete_before(s0.line(), s0.cursor_x));
            proof {
                lemma_delete_rich(s0.line(), s0.cursor_x);
                lemma_rich_len(s0.line());
                lemma_rich_len(line_delete_before(s0.line(), s0.cursor_x));
                assert(self@.lines =~= s0.lines.update(
                    y as int,
                    line_delete_before(s0.line(), s0.cursor_x),
                ));
            }
        } else if self.cursor_y > 0 {
            let y = self.cursor_y;
            let mut current_line = self.text.remove(self.cursor_y);
            self.cursor_y -= 1;
            assert(self@.lines[y - 1] == s0.lines[y - 1]);
            self.cursor_x = self.line_length(self.cursor_y);
            self.text[self.cursor_y].append(&mut current_line);
            proof {
                let a = s0.lines[y - 1];
                let b = s0.lines[y as int];
                assert(line_view(self.text@[y - 1]) =~= a + b);
                assert(self@.lines =~= s0.lines.update(y - 1, a + b).remove(y as int));
                lemma_rich_concat(a, b);
                lemma_rich_len(a);
                lemma_rich_len(b);
                lemma_rich_len(a + b);
            }
        }
    }

    /// Splits the cursor's line at the cursor and moves the cursor to the
    /// start of the new line below: the line keeps what is before the
    /// cursor, the new line gets what is from the cursor on.
    fn new_line(&mut self)
        requires
            old(self)@.wf(),
        ensures
            final(self)@ == old(self)@.new_line(),
            final(self)@.wf(),
            line_rich(final(self)@.lines[old(self)@.cursor_y]) == line_rich(old(self)@.line()).take(
                old(self)@.cursor_x,
            ),
            line_rich(final(self)@.lines[old(self)@.cursor_y + 1]) == line_rich(
                old(self)@.line(),
            ).skip(old(self)@.cursor_x),
    {
        let ghost s0 = self@;
        let y = self.cursor_y;
        let segment_idx = self.find_segment_at_cursor();
        let mut new_line: Vec<Segment> = Vec::new();
        if segment_idx < self.text[y].len() {
            let cursor_in_segment = self.cursor_x - self.get_segment_start_x(segment_idx);
            let current_format = self.text[y][segment_idx].1;
            if cursor_in_segment < self.text[y][segment_idx].0.len() {
                let right = self.text[y][segment_idx].0.split_off(cursor_in_segment);
                new_line.push((right, current_format));
                let mut remaining = self.text[y].split_off(segment_idx + 1);
                new_line.append(&mut remaining);
            } else {
                let mut remaining = self.text[y].split_off(segment_idx + 1);
                new_line.append(&mut remaining);
            }
        }
        if new_line.len() == 0 {
            let empty: Vec<char> = Vec::new();
            new_line.push((empty, self.current_format));
        }
        let ghost parts = line_split(s0.line(), s0.cursor_x, s0.format);
        assert(line_view(self.text@[y as int]) =~= parts.0);
        assert(line_view(new_line) =~= parts.1);
        assert(y < self.text.len());
        self.text.insert(y + 1, new_line);
        self.cursor_y += 1;
        self.cursor_x = 0;
        proof {
            assert(self@.lines =~= s0.lines.update(y as int, parts.0).insert(y + 1, parts.1));
            lemma_split_rich(s0.line(), s0.cursor_x, s0.format);
            lemma_rich_len(s0.line());
            lemma_rich_len(parts.0);
            lemma_rich_len(parts.1);
            lemma_prefix_nonneg(parts.1, parts.1.len() as int);
        }
    }

    /// The words of the whole document, line after line.
    fn document_words(&self) -> (ws: Vec<Vec<char>>)
        ensures
            views(ws@) == doc_words(self@.lines),
    {
        let ghost lines = self@.lines;
        let mut acc: Vec<Vec<char>> = Vec::new();
        let mut i: usize = 0;
        assert(lines.take(0).map_values(|l: Seq<SegmentView>| line_words(l)) =~= seq![]);
        assert(views(acc@) =~= seq![]);
        while i < self.text.len()
            invariant
                lines == self@.lines,
                i <= self.text.len(),
                views(acc@) == doc_words(lines.take(i as int)),
            decreases self.text.len() - i,
        {
            let chars = self.line_chars(i);
            let ghost before = acc@;
            let mut ws = split_whitespace(&chars);
            let ghost new_words = ws@;
            acc.append(&mut ws);
            proof {
                let g = |m: Seq<SegmentView>| line_words(m);
                assert(views(acc@) =~= views(before) + views(new_words));
                assert(lines.take(i + 1).map_values(g) =~= lines.take(i as int).map_values(g).push(
                    line_words(lines[i as int]),
                ));
                lines.take(i as int).map_values(g).lemma_flatten_push(line_words(lines[i as int]));
            }
            i += 1;
        }
        assert(lines.take(lines.len() as int) =~= lines);
        acc
    }

    /// The first three words of the document joined with `'_'` (fewer when
    /// the document has fewer).
    fn get_first_three_words(&self) -> (name: String)
        ensures
            name@ == self@.first_three_words(),
    {
        let ws = self.document_words();
        let joined = join_first_three(&ws);
        string_from_chars(&joined)
    }

    /// Opens the save prompt, proposing the first three words and `.txt` as
    /// the name, or `untitled.txt` when the document has no words.
    fn enter_save_mode(&mut self)
        requires
            old(self)@.wf(),
        ensures
            final(self)@ == old(self)@.enter_save_mode(),
            final(self)@.wf(),
    {
        self.mode = EditorMode::SaveAs;
        let ws = self.document_words();
        let joined = join_first_three(&ws);
        self.save_filename = filename_from_words(&joined);
    }

    /// Leaves the save prompt and clears the name typed there.
    fn exit_save_mode(&mut self)
        requires
            old(self)@.wf(),
        ensures
            final(self)@ == old(self)@.exit_save_mode(),
            final(self)@.wf(),
    {
        self.mode = EditorMode::Normal;
        self.save_filename = String::new();
    }

    /// Handles a character typed at the save prompt.
    fn update_save_filename(&mut self, c: char)
        requires
            old(self)@.wf(),
        ensures
            final(self)@ == old(self)@.update_save_filename(c),
            final(self)@.wf(),
    {
        if c == '\n' {
            return ;
        } else if c == '\u{8}' || c == '\u{7f}' {
            string_pop(&mut self.save_filename);
        } else {
            string_push(&mut self.save_filename, c);
        }
    }

    /// The characters of line `i`, segment after segment.
    fn line_chars(&self, i: usize) -> (chars: Vec<char>)
        requires
            i < self@.lines.len(),
        ensures
            chars@ == line_text(self@.lines[i as int]),
    {
        let line = &self.text[i];
        let ghost l = self@.lines[i as int];
        assert(line_view(*line) == l);
        let mut chars: Vec<char> = Vec::new();
        let mut j: usize = 0;
        assert(l.take(0).map_values(|s: SegmentView| s.0) =~= seq![]);
        while j < line.len()
            invariant
                line_view(*line) == l,
                j <= line.len(),
                chars@ == line_text(l.take(j as int)),
            decreases line.len() - j,
        {
            append_chars(&mut chars, &line[j].0);
            proof {
                let f = |s: SegmentView| s.0;
                assert(l.take(j + 1).map_values(f) =~= l.take(j as int).map_values(f).push(
                    l[j as int].0,
                ));
                l.take(j as int).map_values(f).lemma_flatten_push(l[j as int].0);
            }
            j += 1;
        }
        assert(l.take(l.len() as int) =~= l);
        chars
    }

    /// The text to write to a file: the characters of each line, with a
    /// newline between lines and none after the last.
    fn file_contents(&self) -> (contents: String)
        ensures
            contents@ == self@.file_contents(),
    {
        let ghost lines = self@.lines;
        let ghost texts = lines.map_values(|l: Seq<SegmentView>| line_text(l));
        let mut all: Vec<Vec<char>> = Vec::new();
        let mut i: usize = 0;
        while i < self.text.len()
            invariant
                lines == self@.lines,
                texts == lines.map_values(|l: Seq<SegmentView>| line_text(l)),
                i <= self.text.len(),
                views(all@) == texts.take(i as int),
            decreases self.text.len() - i,
        {
            let chars = self.line_chars(i);
            assert(chars@ == texts[i as int]);
            let ghost before = all@;
            let ghost pushed = chars@;
            all.push(chars);
            assert(views(all@) =~= views(before).push(pushed));
            assert(texts.take(i + 1) =~= texts.take(i as int).push(texts[i as int]));
            i += 1;
        }
        assert(texts.take(all.len() as int) =~= texts);
        let joined = join_prefix(&all, all.len(), '\n');
        string_from_chars(&joined)
    }

    /// Records the outcome of a save (the path written to, or the error's
    /// text) on the status line and leaves the save prompt.
    fn finish_save(&mut self, outcome: Result<String, String>)
        requires
            old(self)@.wf(),
        ensures
            final(self)@ == old(self)@.finish_save(outcome_view(outcome)),
            final(self)@.wf(),
    {
        let message = save_status_message(&outcome);
        self.status_message = Some(message);
        self.mode = EditorMode::Normal;
    }

    /// Whether the next edit's lengths fit in a `usize` (see
    /// `EditorState::has_room`).
    fn has_room(&self) -> (room: bool)
        requires
            self@.wf(),
        ensures
            room == self@.has_room(),
    {
        let len = self.line_length(self.cursor_y);
        if len == usize::MAX {
            return false;
        }
        if self.cursor_x == 0 && self.cursor_y > 0 {
            let prev = self.line_length(self.cursor_y - 1);
            prev <= usize::MAX - len
        } else {
            true
        }
    }

    /// Handles one key press and says what the caller is to do next.
    fn handle_key(&mut self, key: KeyPress) -> (action: Action)
        requires
            old(self)@.wf(),
            old(self)@.has_room(),
        ensures
            (final(self)@, action) == old(self)@.handle_key(key),
            final(self)@.wf(),
    {
        match self.mode {
            EditorMode::Normal => {
                if key.modifiers == Modifiers::Control && key.key == Key::Char('x') {
                    Action::Quit
                } else if key.modifiers == Modifiers::Control && key.key == Key::Char('b') {
                    self.toggle_bold();
                    self.status_message = None;
                    Action::Continue
                } else if key.modifiers == Modifiers::Control && key.key == Key::Char('u') {
                    self.toggle_underline();
                    self.status_message = None;
                    Action::Continue
                } else if key.modifiers == Modifiers::Control && key.key == Key::Char('s') {
                    self.enter_save_mode();
                    self.status_message = None;
                    Action::Continue
                } else {
                    match key.key {
                        Key::Char(c) => {
                            if key.modifiers == Modifiers::Plain || key.modifiers
                                == Modifiers::Shift {
                                self.insert_char(c);
                                self.status_message = None;
                            }
                        },
                        Key::Enter => {
                            self.new_line();
                            self.status_message = None;
                        },
                        Key::Backspace => {
                            self.backspace();
                            self.status_message = None;
                        },
                        Key::Left => {
                            self.move_cursor_left();
                            self.status_message = None;
                        },
                        Key::Right => {
                            self.move_cursor_right();
                            self.status_message = None;
                        },
                        Key::Up => {
                            self.move_cursor_up();
                            self.status_message = None;
                        },
                        Key::Down => {
                            self.move_cursor_down();
                            self.status_message = None;
                        },
                        _ => {},
                    }
                    Action::Continue
                }
            },
            EditorMode::SaveAs => {
                match key.key {
                    Key::Enter => {
                        return Action::Save;
                    },
                    Key::Esc => {
                        self.exit_save_mode();
                    },
                    Key::Char(c) => {
                        self.update_save_filename(c);
                    },
                    Key::Backspace => {
                        string_pop(&mut self.save_filename);
                    },
                    _ => {},
                }
                Action::Continue
            },
        }
    }

    /// The cursor's column and line.
    fn cursor(&self) -> (pos: (usize, usize))
        ensures
            pos.0 == self@.cursor_x,
            pos.1 == self@.cursor_y,
    {
        (self.cursor_x, self.cursor_y)
    }

    /// Whether the editor is editing or at the save prompt.
    fn mode(&self) -> (mode: EditorMode)
        ensures
            mode == self@.mode,
    {
        self.mode
    }

    /// The format that typing uses.
    fn current_format(&self) -> (format: TextFormat)
        ensures
            format == self@.format,
    {
        self.current_format
    }

    /// The name typed at the save prompt.
    fn save_filename(&self) -> (name: &String)
        ensures
            name@ == self@.save_filename,
    {
        &self.save_filename
    }

    /// The message on the status line, if any.
    fn status_message(&self) -> (message: Option<&String>)
        ensures
            match message {
                Some(m) => self@.status_message == Some(m@),
                None => self@.status_message is None,
            },
    {
        match &self.status_message {
            Some(m) => Some(m),
            None => None,
        }
    }

    /// The document for display: each line as its segments, each segment as
    /// its text and format.
    fn render(&self) -> (rendered: Vec<Vec<(String, TextFormat)>>)
        ensures
            rendered@.len() == self@.lines.len(),
            forall|i: int|
                0 <= i < rendered@.len() ==> (#[trigger] rendered@[i])@.len()
                    == self@.lines[i].len(),
            forall|i: int, j: int|
                0 <= i < rendered@.len() && 0 <= j < rendered@[i]@.len() ==> (
                #[trigger] rendered@[i]@[j]).0@ == self@.lines[i][j].0 && rendered@[i]@[j].1
                    == self@.lines[i][j].1,
    {
        let ghost lines = self@.lines;
        let mut rendered_lines: Vec<Vec<(String, TextFormat)>> = Vec::new();
        let mut i: usize = 0;
        while i < self.text.len()
            invariant
                lines == self@.lines,
                i <= self.text.len(),
                rendered_lines@.len() == i,
                forall|a: int| 0 <= a < i ==> (#[trigger] rendered_lines@[a])@.len() == lines[a].len(),
                forall|a: int, b: int|
                    0 <= a < i && 0 <= b < rendered_lines@[a]@.len() ==> (
                    #[trigger] rendered_lines@[a]@[b]).0@ == lines[a][b].0
                        && rendered_lines@[a]@[b].1 == lines[a][b].1,
            decreases self.text.len() - i,
        {
            let line = &self.text[i];
            assert(line_view(*line) == lines[i as int]);
            let mut spans: Vec<(String, TextFormat)> = Vec::new();
            let mut j: usize = 0;
            while j < line.len()
                invariant
                    line_view(*line) == lines[i as int],
                    j <= line.len(),
                    spans@.len() == j,
                    forall|b: int|
                        0 <= b < j ==> (#[trigger] spans@[b]).0@ == lines[i as int][b].0
                            && spans@[b].1 == lines[i as int][b].1,
                decreases line.len() - j,
            {
                let text = string_from_chars(&line[j].0);
                spans.push((text, line[j].1));
                j += 1;
            }
            rendered_lines.push(spans);
            i += 1;
        }
        rendered_lines
    }
}

/// An editor of formatted text for a terminal.
pub struct TextEditor {
    doc: Document,
}

impl View for TextEditor {
    type V = EditorState;

    closed spec fn view(&self) -> EditorState {
        self.doc@
    }
}

impl TextEditor {
    /// Every editor is well formed (`EditorState::wf`).
    #[verifier::type_invariant]
    spec fn inv(self) -> bool {
        self.doc@.wf()
    }

    /// Moves the document out, leaving a fresh one in its place.
    fn take_document(&mut self) -> (doc: Document)
        ensures
            doc@ == old(self)@,
            doc@.wf(),
    {
        proof {
            use_type_invariant(&*self);
        }
        let mut doc = Document::new();
        std::mem::swap(&mut doc, &mut self.doc);
        doc
    }

    /// An editor holding one empty line of one empty `Normal` segment, with
    /// the cursor at its start, format `Normal`, editing, no file name and
    /// no status message.
    pub fn new() -> (e: TextEditor)
        ensures
            e@.wf(),
            e@.lines == seq![seq![(Seq::<char>::empty(), TextFormat::Normal)]],
            e@.cursor_x == 0,
            e@.cursor_y == 0,
            e@.format == TextFormat::Normal,
            e@.mode == EditorMode::Normal,
            e@.save_filename == Seq::<char>::empty(),
            e@.status_message is None,
    {
        TextEditor { doc: Document::new() }
    }

    /// The segment the cursor is in: the first one of the cursor's line
    /// whose span, ends included, holds the cursor's column.
    pub fn find_segment_at_cursor(&self) -> (idx: usize)
        ensures
            idx == find_segment(self@.line(), self@.cursor_x),
            idx < self@.line().len(),
            seg_holds(self@.line(), self@.cursor_x, idx as int),
            forall|j: int| 0 <= j < idx ==> !seg_holds(self@.line(), self@.cursor_x, j),
    {
        proof {
            use_type_invariant(self);
        }
        self.doc.find_segment_at_cursor()
    }

    /// The column at which segment `segment_idx` of the cursor's line starts.
    pub fn get_segment_start_x(&self, segment_idx: usize) -> (start: usize)
        requires
            segment_idx <= self@.line().len(),
        ensures
            start == prefix_len(self@.line(), segment_idx as int),
    {
        proof {
            use_type_invariant(self);
        }
        self.doc.get_segment_start_x(segment_idx)
    }

    /// The number of characters on line `line_idx`.
    pub fn line_length(&self, line_idx: usize) -> (len: usize)
        requires
            line_idx < self@.lines.len(),
        ensures
            len == line_len(self@.lines[line_idx as int]),
    {
        proof {
            use_type_invariant(self);
        }
        self.doc.line_length(line_idx)
    }

    /// Moves the cursor one column left, or to the end of the line above.
    pub fn move_cursor_left(&mut self)
        ensures
            final(self)@ == old(self)@.move_left(),
            final(self)@.wf(),
    {
        let mut doc = self.take_document();
        doc.move_cursor_left();
        self.doc = doc;
    }

    /// Moves the cursor one column right, or to the start of the line below.
    pub fn move_cursor_right(&mut self)
        ensures
            final(self)@ == old(self)@.move_right(),
            final(self)@.wf(),
    {
        let mut doc = self.take_document();
        doc.move_cursor_right();
        self.doc = doc;
    }

    /// Moves the cursor one line up, to the end of that line if it is
    /// shorter than the cursor's column.
    pub fn move_cursor_up(&mut self)
        ensures
            final(self)@ == old(self)@.move_up(),
            final(self)@.wf(),
    {
        let mut doc = self.take_document();
        doc.move_cursor_up();
        self.doc = doc;
    }

    /// Moves the cursor one line down, to the end of that line if it is
    /// shorter than the cursor's column.
    pub fn move_cursor_down(&mut self)
        ensures
            final(self)@ == old(self)@.move_down(),
            final(self)@.wf(),
    {
        let mut doc = self.take_document();
        doc.move_cursor_down();
        self.doc = doc;
    }

    /// Switches bold on or off for what is typed next.
    pub fn toggle_bold(&mut self)
        ensures
            final(self)@ == old(self)@.with_format(toggled_bold(old(self)@.format)),
            final(self)@.wf(),
    {
        let mut doc = self.take_document();
        doc.toggle_bold();
        self.doc = doc;
    }

    /// Switches underline on or off for what is typed next.
    pub fn toggle_underline(&mut self)
        ensures
            final(self)@ == old(self)@.with_format(toggled_underline(old(self)@.format)),
            final(self)@.wf(),
    {
        let mut doc = self.take_document();
        doc.toggle_underline();
        self.doc = doc;
    }

    /// The name of the current format, for the status line.
    pub fn get_format_name(&self) -> (name: &'static str)
        ensures
            name@ == format_name(self@.format),
    {
        self.doc.get_format_name()
    }

    /// Types `c` at the cursor and moves the cursor past it.
    ///
    /// The character takes the current format at the end of a segment (or
    /// on a line without segments), and the format of the segment it is
    /// typed into otherwise; what the line shows gains exactly that
    /// character at the cursor's column.
    pub fn insert_char(&mut self, c: char)
        requires
            line_len(old(self)@.line()) < usize::MAX,
        ensures
            final(self)@ == old(self)@.insert_char(c),
            final(self)@.wf(),
            line_rich(final(self)@.line()) == line_rich(old(self)@.line()).insert(
                old(self)@.cursor_x,
                (c, typed_format(old(self)@.line(), old(self)@.cursor_x, old(self)@.format)),
            ),
    {
        let mut doc = self.take_document();
        doc.insert_char(c);
        self.doc = doc;
    }

    /// Deletes the character before the cursor; at the start of a line,
    /// joins the line to the one above, with the cursor at the join; at the
    /// start of the first line, does nothing.
    pub fn backspace(&mut self)
        requires
            old(self)@.cursor_x == 0 && old(self)@.cursor_y > 0 ==> line_len(
                old(self)@.lines[old(self)@.cursor_y - 1],
            ) + line_len(old(self)@.line()) <= usize::MAX,
        ensures
            final(self)@ == old(self)@.backspace(),
            final(self)@.wf(),
            old(self)@.cursor_x > 0 ==> line_rich(final(self)@.line()) == line_rich(
                old(self)@.line(),
            ).remove(old(self)@.cursor_x - 1),
            old(self)@.cursor_x == 0 && old(self)@.cursor_y > 0 ==> line_rich(final(self)@.line())
                == line_rich(old(self)@.lines[old(self)@.cursor_y - 1]) + line_rich(
                old(self)@.line(),
            ),
    {
        let mut doc = self.take_document();
        doc.backspace();
        self.doc = doc;
    }

    /// Splits the cursor's line at the cursor and moves the cursor to the
    /// start of the new line below: the line keeps what is before the
    /// cursor, the new line gets what is from the cursor on.
    pub fn new_line(&mut self)
        ensures
            final(self)@ == old(self)@.new_line(),
            final(self)@.wf(),
            line_rich(final(self)@.lines[old(self)@.cursor_y]) == line_rich(old(self)@.line()).take(
                old(self)@.cursor_x,
            ),
            line_rich(final(self)@.lines[old(self)@.cursor_y + 1]) == line_rich(
                old(self)@.line(),
            ).skip(old(self)@.cursor_x),
    {
        let mut doc = self.take_document();
        doc.new_line();
        self.doc = doc;
    }

    /// The first three words of the document joined with `'_'` (fewer when
    /// the document has fewer). Each line's words are those of its whole
    /// text, whatever its segments.
    pub fn get_first_three_words(&self) -> (name: String)
        ensures
            name@ == self@.first_three_words(),
    {
        self.doc.get_first_three_words()
    }

    /// Opens the save prompt, proposing the first three words and `.txt` as
    /// the name, or `untitled.txt` when the document has no words.
    pub fn enter_save_mode(&mut self)
        ensures
            final(self)@ == old(self)@.enter_save_mode(),
            final(self)@.wf(),
    {
        let mut doc = self.take_document();
        doc.enter_save_mode();
        self.doc = doc;
    }

    /// Leaves the save prompt and clears the name typed there.
    pub fn exit_save_mode(&mut self)
        ensures
            final(self)@ == old(self)@.exit_save_mode(),
            final(self)@.wf(),
    {
        let mut doc = self.take_document();
        doc.exit_save_mode();
        self.doc = doc;
    }

    /// Handles a character typed at the save prompt.
    pub fn update_save_filename(&mut self, c: char)
        ensures
            final(self)@ == old(self)@.update_save_filename(c),
            final(self)@.wf(),
    {
        let mut doc = self.take_document();
        doc.update_save_filename(c);
        self.doc = doc;
    }

    /// The text to write to a file: the characters of each line, with a
    /// newline between lines and none after the last.
    pub fn file_contents(&self) -> (contents: String)
        ensures
            contents@ == self@.file_contents(),
    {
        self.doc.file_contents()
    }

    /// Records the outcome of a save (the path written to, or the error's
    /// text) on the status line and leaves the save prompt.
    pub fn finish_save(&mut self, outcome: Result<String, String>)
        ensures
            final(self)@ == old(self)@.finish_save(outcome_view(outcome)),
            final(self)@.wf(),
    {
        let mut doc = self.take_document();
        doc.finish_save(outcome);
        self.doc = doc;
    }

    /// Whether the next edit's lengths fit in a `usize` (see
    /// `EditorState::has_room`).
    pub fn has_room(&self) -> (room: bool)
        ensures
            room == self@.has_room(),
    {
        proof {
            use_type_invariant(self);
        }
        self.doc.has_room()
    }

    /// Handles one key press and says what the caller is to do next.
    pub fn handle_key(&mut self, key: KeyPress) -> (action: Action)
        requires
            old(self)@.has_room(),
        ensures
            (final(self)@, action) == old(self)@.handle_key(key),
            final(self)@.wf(),
    {
        let mut doc = self.take_document();
        let action = doc.handle_key(key);
        self.doc = doc;
        action
    }

    /// The cursor's column and line.
    pub fn cursor(&self) -> (pos: (usize, usize))
        ensures
            pos.0 == self@.cursor_x,
            pos.1 == self@.cursor_y,
    {
        self.doc.cursor()
    }

    /// Whether the editor is editing or at the save prompt.
    pub fn mode(&self) -> (mode: EditorMode)
        ensures
            mode == self@.mode,
    {
        self.doc.mode()
    }

    /// The format that typing uses.
    pub fn current_format(&self) -> (format: TextFormat)
        ensures
            format == self@.format,
    {
        self.doc.current_format()
    }

    /// The name typed at the save prompt.
    pub fn save_filename(&self) -> (name: &String)
        ensures
            name@ == self@.save_filename,
    {
        self.doc.save_filename()
    }

    /// The message on the status line, if any.
    pub fn status_message(&self) -> (message: Option<&String>)
        ensures
            match message {
                Some(m) => self@.status_message == Some(m@),
                None => self@.status_message is None,
            },
    {
        self.doc.status_message()
    }

    /// The document for display: each line as its segments, each segment as
    /// its text and format.
    pub fn render(&self) -> (rendered: Vec<Vec<(String, TextFormat)>>)
        ensures
            rendered@.len() == self@.lines.len(),
            forall|i: int|
                0 <= i < rendered@.len() ==> (#[trigger] rendered@[i])@.len()
                    == self@.lines[i].len(),
            forall|i: int, j: int|
                0 <= i < rendered@.len() && 0 <= j < rendered@[i]@.len() ==> (
                #[trigger] rendered@[i]@[j]).0@ == self@.lines[i][j].0 && rendered@[i]@[j].1
                    == self@.lines[i][j].1,
    {
        self.doc.render()
    }
}

} // verus!
