use text_editor::editor::{EditorMode, TextEditor};
use text_editor::keys::{Action, Key, KeyPress, Modifiers};
use text_editor::segments::TextFormat;

fn segs(e: &TextEditor) -> Vec<Vec<(String, TextFormat)>> {
    e.render()
}

fn seg(text: &str, f: TextFormat) -> (String, TextFormat) {
    (text.to_string(), f)
}

fn typed(text: &str) -> TextEditor {
    let mut e = TextEditor::new();
    for c in text.chars() {
        if c == '\n' {
            e.new_line();
        } else {
            e.insert_char(c);
        }
    }
    e
}

fn press(e: &mut TextEditor, key: Key, modifiers: Modifiers) -> Action {
    assert!(e.has_room());
    e.handle_key(KeyPress { key, modifiers })
}

#[test]
fn new_editor_holds_one_empty_segment() {
    let e = TextEditor::new();
    assert_eq!(segs(&e), vec![vec![seg("", TextFormat::Normal)]]);
    assert_eq!(e.cursor(), (0, 0));
    assert_eq!(e.current_format(), TextFormat::Normal);
    assert_eq!(e.mode(), EditorMode::Normal);
    assert_eq!(e.save_filename().as_str(), "");
    assert!(e.status_message().is_none());
    assert_eq!(e.get_format_name(), "Normal");
}

#[test]
fn typing_appends_to_the_segment_of_the_same_format() {
    let e = typed("hello");
    assert_eq!(segs(&e), vec![vec![seg("hello", TextFormat::Normal)]]);
    assert_eq!(e.cursor(), (5, 0));
    assert_eq!(e.line_length(0), 5);
}

#[test]
fn typing_in_another_format_starts_a_segment() {
    let mut e = typed("ab");
    e.toggle_bold();
    e.insert_char('c');
    assert_eq!(
        segs(&e),
        vec![vec![seg("ab", TextFormat::Normal), seg("c", TextFormat::Bold)]]
    );
    assert_eq!(e.cursor(), (3, 0));
}

#[test]
fn typing_inside_a_segment_takes_its_format_and_splits_it() {
    let mut e = typed("ab");
    e.toggle_bold();
    e.insert_char('c');
    e.move_cursor_left();
    e.move_cursor_left();
    assert_eq!(e.cursor(), (1, 0));
    assert_eq!(e.find_segment_at_cursor(), 0);
    e.insert_char('d');
    assert_eq!(
        segs(&e),
        vec![vec![
            seg("ad", TextFormat::Normal),
            seg("b", TextFormat::Normal),
            seg("c", TextFormat::Bold)
        ]]
    );
    assert_eq!(e.cursor(), (2, 0));
}

#[test]
fn typing_at_the_start_of_a_line_takes_the_first_segment_format() {
    let mut e = typed("a");
    e.move_cursor_left();
    e.toggle_bold();
    e.insert_char('z');
    assert_eq!(
        segs(&e),
        vec![vec![seg("z", TextFormat::Normal), seg("a", TextFormat::Normal)]]
    );
}

#[test]
fn segment_positions() {
    let mut e = typed("ab");
    e.toggle_underline();
    e.insert_char('c');
    e.insert_char('d');
    assert_eq!(e.get_segment_start_x(0), 0);
    assert_eq!(e.get_segment_start_x(1), 2);
    assert_eq!(e.get_segment_start_x(2), 4);
    // At the boundary between two segments the first one holds the cursor.
    e.move_cursor_left();
    e.move_cursor_left();
    assert_eq!(e.cursor(), (2, 0));
    assert_eq!(e.find_segment_at_cursor(), 0);
    e.move_cursor_right();
    assert_eq!(e.find_segment_at_cursor(), 1);
}

#[test]
fn backspace_deletes_the_character_before_the_cursor() {
    let mut e = typed("abc");
    e.move_cursor_left();
    e.backspace();
    assert_eq!(segs(&e), vec![vec![seg("ac", TextFormat::Normal)]]);
    assert_eq!(e.cursor(), (1, 0));
}

#[test]
fn backspace_removes_an_emptied_segment() {
    let mut e = typed("ab");
    e.toggle_bold();
    e.insert_char('c');
    e.backspace();
    assert_eq!(segs(&e), vec![vec![seg("ab", TextFormat::Normal)]]);
}

#[test]
fn backspace_on_a_line_left_empty_gives_a_normal_segment() {
    let mut e = TextEditor::new();
    e.toggle_bold();
    e.insert_char('a');
    assert_eq!(
        segs(&e),
        vec![vec![seg("", TextFormat::Normal), seg("a", TextFormat::Bold)]]
    );
    e.backspace();
    assert_eq!(segs(&e), vec![vec![seg("", TextFormat::Normal)]]);
    assert_eq!(e.cursor(), (0, 0));
}

#[test]
fn backspace_at_a_line_start_joins_lines() {
    let mut e = typed("ab\ncd");
    e.move_cursor_left();
    e.move_cursor_left();
    assert_eq!(e.cursor(), (0, 1));
    e.backspace();
    assert_eq!(
        segs(&e),
        vec![vec![seg("ab", TextFormat::Normal), seg("cd", TextFormat::Normal)]]
    );
    assert_eq!(e.cursor(), (2, 0));
}

#[test]
fn backspace_at_the_document_start_does_nothing() {
    let mut e = typed("ab");
    e.move_cursor_left();
    e.move_cursor_left();
    e.backspace();
    assert_eq!(segs(&e), vec![vec![seg("ab", TextFormat::Normal)]]);
    assert_eq!(e.cursor(), (0, 0));
}

#[test]
fn new_line_splits_at_the_cursor() {
    let mut e = typed("ab");
    e.toggle_bold();
    e.insert_char('c');
    e.move_cursor_left();
    e.move_cursor_left();
    e.new_line();
    assert_eq!(
        segs(&e),
        vec![
            vec![seg("a", TextFormat::Normal)],
            vec![seg("b", TextFormat::Normal), seg("c", TextFormat::Bold)]
        ]
    );
    assert_eq!(e.cursor(), (0, 1));
}

#[test]
fn new_line_at_the_end_starts_a_segment_of_the_current_format() {
    let mut e = typed("ab");
    e.toggle_underline();
    e.new_line();
    assert_eq!(
        segs(&e),
        vec![
            vec![seg("ab", TextFormat::Normal)],
            vec![seg("", TextFormat::Underlined)]
        ]
    );
}

#[test]
fn backspace_undoes_insert_char_on_values() {
    let mut e = typed("ab");
    e.toggle_bold();
    e.insert_char('c');
    e.move_cursor_left();
    let before = segs(&e);
    let cursor = e.cursor();
    e.insert_char('x');
    e.backspace();
    let flat = |v: Vec<Vec<(String, TextFormat)>>| -> Vec<Vec<(char, TextFormat)>> {
        v.into_iter()
            .map(|l| l.into_iter().flat_map(|(t, f)| t.chars().map(move |c| (c, f)).collect::<Vec<_>>()).collect())
            .collect()
    };
    assert_eq!(flat(segs(&e)), flat(before));
    assert_eq!(e.cursor(), cursor);
}

#[test]
fn backspace_undoes_new_line_on_values() {
    let mut e = typed("hello");
    e.move_cursor_left();
    e.move_cursor_left();
    e.new_line();
    assert_eq!(e.cursor(), (0, 1));
    e.backspace();
    assert_eq!(
        segs(&e),
        vec![vec![seg("hel", TextFormat::Normal), seg("lo", TextFormat::Normal)]]
    );
    assert_eq!(e.cursor(), (3, 0));
    assert_eq!(e.file_contents(), "hello");
}

#[test]
fn cursor_moves_wrap_between_lines() {
    let mut e = typed("abc\nd");
    assert_eq!(e.cursor(), (1, 1));
    e.move_cursor_left();
    e.move_cursor_left();
    assert_eq!(e.cursor(), (3, 0));
    e.move_cursor_right();
    assert_eq!(e.cursor(), (0, 1));
    e.move_cursor_right();
    e.move_cursor_right();
    assert_eq!(e.cursor(), (1, 1));
}

#[test]
fn cursor_moves_up_and_down_clamp_the_column() {
    let mut e = typed("abc\nd");
    e.move_cursor_up();
    assert_eq!(e.cursor(), (1, 0));
    e.move_cursor_right();
    e.move_cursor_right();
    e.move_cursor_down();
    assert_eq!(e.cursor(), (1, 1));
    e.move_cursor_down();
    assert_eq!(e.cursor(), (1, 1));
    e.move_cursor_up();
    e.move_cursor_up();
    assert_eq!(e.cursor(), (1, 0));
}

#[test]
fn moving_left_then_right_restores_the_cursor() {
    let mut e = typed("ab\nc");
    for _ in 0..4 {
        let before = e.cursor();
        e.move_cursor_left();
        e.move_cursor_right();
        assert_eq!(e.cursor(), before);
        e.move_cursor_left();
    }
}

#[test]
fn terminal_toggles() {
    let mut e = TextEditor::new();
    e.toggle_bold();
    assert_eq!(e.current_format(), TextFormat::Bold);
    assert_eq!(e.get_format_name(), "Bold");
    e.toggle_bold();
    assert_eq!(e.current_format(), TextFormat::Normal);
    e.toggle_underline();
    assert_eq!(e.current_format(), TextFormat::Underlined);
    assert_eq!(e.get_format_name(), "Underlined");
    e.toggle_bold();
    assert_eq!(e.current_format(), TextFormat::Bold);
    e.toggle_underline();
    assert_eq!(e.current_format(), TextFormat::Underlined);
    e.toggle_underline();
    assert_eq!(e.current_format(), TextFormat::Normal);
}

#[test]
fn first_three_words_read_each_line_whole() {
    let mut e = typed("hello wor");
    e.toggle_bold();
    for c in "ld  foo bar".chars() {
        e.insert_char(c);
    }
    assert_eq!(e.get_first_three_words(), "hello_world_foo");
}

#[test]
fn a_word_split_into_segments_is_one_word() {
    let mut e = TextEditor::new();
    e.insert_char('a');
    e.insert_char('c');
    e.move_cursor_left();
    e.insert_char('b');
    assert_eq!(
        segs(&e),
        vec![vec![seg("ab", TextFormat::Normal), seg("c", TextFormat::Normal)]]
    );
    assert_eq!(e.get_first_three_words(), "abc");
    e.enter_save_mode();
    assert_eq!(e.mode(), EditorMode::SaveAs);
    assert_eq!(e.save_filename().as_str(), "abc.txt");
}

#[test]
fn first_three_words_span_lines() {
    let e = typed("  one\n\ttwo\u{3000}three four");
    assert_eq!(e.get_first_three_words(), "one_two_three");
    let e = typed("only two");
    assert_eq!(e.get_first_three_words(), "only_two");
    let e = typed(" \n ");
    assert_eq!(e.get_first_three_words(), "");
}

#[test]
fn save_prompt_proposes_a_name() {
    let mut e = typed("my first note here");
    e.enter_save_mode();
    assert_eq!(e.mode(), EditorMode::SaveAs);
    assert_eq!(e.save_filename().as_str(), "my_first_note.txt");
    e.exit_save_mode();
    assert_eq!(e.mode(), EditorMode::Normal);
    assert_eq!(e.save_filename().as_str(), "");

    let mut e = TextEditor::new();
    e.enter_save_mode();
    assert_eq!(e.save_filename().as_str(), "untitled.txt");
}

#[test]
fn save_prompt_editing() {
    let mut e = typed("a");
    e.enter_save_mode();
    e.update_save_filename('\n');
    assert_eq!(e.save_filename().as_str(), "a.txt");
    e.update_save_filename('\u{8}');
    assert_eq!(e.save_filename().as_str(), "a.tx");
    e.update_save_filename('\u{7f}');
    assert_eq!(e.save_filename().as_str(), "a.t");
    e.update_save_filename('z');
    assert_eq!(e.save_filename().as_str(), "a.tz");
    e.exit_save_mode();
    e.update_save_filename('\u{8}');
    assert_eq!(e.save_filename().as_str(), "");
}

#[test]
fn file_contents_join_lines_with_newlines() {
    let mut e = typed("ab");
    e.toggle_bold();
    e.insert_char('c');
    e.new_line();
    e.new_line();
    e.insert_char('d');
    assert_eq!(e.file_contents(), "abc\n\nd");
    assert_eq!(TextEditor::new().file_contents(), "");
}

#[test]
fn finish_save_reports_the_outcome() {
    let mut e = typed("x");
    e.enter_save_mode();
    e.finish_save(Ok("output/x.txt".to_string()));
    assert_eq!(e.mode(), EditorMode::Normal);
    assert_eq!(e.status_message().unwrap().as_str(), "File saved to: output/x.txt");
    e.enter_save_mode();
    e.finish_save(Err("permission denied".to_string()));
    assert_eq!(e.mode(), EditorMode::Normal);
    assert_eq!(e.status_message().unwrap().as_str(), "Error saving file: permission denied");
}

#[test]
fn keys_while_editing() {
    let mut e = TextEditor::new();
    assert_eq!(press(&mut e, Key::Char('h'), Modifiers::Plain), Action::Continue);
    assert_eq!(press(&mut e, Key::Char('I'), Modifiers::Shift), Action::Continue);
    assert_eq!(press(&mut e, Key::Char('q'), Modifiers::Control), Action::Continue);
    assert_eq!(press(&mut e, Key::Char('q'), Modifiers::Other), Action::Continue);
    assert_eq!(e.file_contents(), "hI");
    press(&mut e, Key::Char('b'), Modifiers::Control);
    assert_eq!(e.current_format(), TextFormat::Bold);
    press(&mut e, Key::Char('u'), Modifiers::Control);
    assert_eq!(e.current_format(), TextFormat::Underlined);
    press(&mut e, Key::Enter, Modifiers::Control);
    assert_eq!(e.cursor(), (0, 1));
    press(&mut e, Key::Backspace, Modifiers::Plain);
    assert_eq!(e.cursor(), (2, 0));
    press(&mut e, Key::Left, Modifiers::Plain);
    press(&mut e, Key::Up, Modifiers::Plain);
    press(&mut e, Key::Down, Modifiers::Plain);
    press(&mut e, Key::Right, Modifiers::Plain);
    assert_eq!(e.cursor(), (2, 0));
    press(&mut e, Key::Esc, Modifiers::Plain);
    press(&mut e, Key::Other, Modifiers::Plain);
    assert_eq!(e.file_contents(), "hI");
    assert_eq!(press(&mut e, Key::Char('x'), Modifiers::Control), Action::Quit);
}

#[test]
fn keys_clear_the_status_message() {
    let mut e = typed("a");
    e.finish_save(Err("e".to_string()));
    assert!(e.status_message().is_some());
    press(&mut e, Key::Other, Modifiers::Plain);
    assert!(e.status_message().is_some());
    press(&mut e, Key::Left, Modifiers::Plain);
    assert!(e.status_message().is_none());
}

#[test]
fn keys_at_the_save_prompt() {
    let mut e = typed("note");
    assert_eq!(press(&mut e, Key::Char('s'), Modifiers::Control), Action::Continue);
    assert_eq!(e.mode(), EditorMode::SaveAs);
    assert_eq!(e.save_filename().as_str(), "note.txt");
    press(&mut e, Key::Backspace, Modifiers::Plain);
    press(&mut e, Key::Char('X'), Modifiers::Control);
    assert_eq!(e.save_filename().as_str(), "note.txX");
    assert_eq!(press(&mut e, Key::Enter, Modifiers::Plain), Action::Save);
    assert_eq!(e.mode(), EditorMode::SaveAs);
    press(&mut e, Key::Esc, Modifiers::Plain);
    assert_eq!(e.mode(), EditorMode::Normal);
    assert_eq!(e.save_filename().as_str(), "");
    assert_eq!(e.file_contents(), "note");
}

#[test]
fn room_for_edits() {
    let e = typed("ab\ncd");
    assert!(e.has_room());
}
