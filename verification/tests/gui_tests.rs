use text_editor::gui::{is_bold, is_underlined, TextEditorApp, TextFormat};

#[test]
fn default_state() {
    let app = TextEditorApp::default();
    assert_eq!(app.content().as_str(), "");
    assert_eq!(app.current_format(), TextFormat::Normal);
    assert_eq!(app.save_filename().as_str(), "");
    assert!(!app.save_dialog_open());
    assert_eq!(app.output_path().as_str(), "output");
    assert!(app.status_message().is_none());
}

#[test]
fn format_predicates() {
    assert!(!is_bold(TextFormat::Normal));
    assert!(is_bold(TextFormat::Bold));
    assert!(!is_bold(TextFormat::Underlined));
    assert!(is_bold(TextFormat::BoldUnderlined));
    assert!(!is_underlined(TextFormat::Normal));
    assert!(!is_underlined(TextFormat::Bold));
    assert!(is_underlined(TextFormat::Underlined));
    assert!(is_underlined(TextFormat::BoldUnderlined));
}

#[test]
fn toggles_are_independent() {
    let mut app = TextEditorApp::default();
    app.toggle_bold();
    assert_eq!(app.current_format(), TextFormat::Bold);
    app.toggle_underline();
    assert_eq!(app.current_format(), TextFormat::BoldUnderlined);
    app.toggle_bold();
    assert_eq!(app.current_format(), TextFormat::Underlined);
    app.toggle_underline();
    assert_eq!(app.current_format(), TextFormat::Normal);
    for start in [TextFormat::Normal, TextFormat::Bold, TextFormat::Underlined, TextFormat::BoldUnderlined] {
        let mut a = TextEditorApp::default();
        while a.current_format() != start {
            a.toggle_bold();
            if a.current_format() != start {
                a.toggle_underline();
            }
        }
        a.toggle_bold();
        a.toggle_underline();
        let both = a.current_format();
        let mut b = TextEditorApp::default();
        while b.current_format() != start {
            b.toggle_bold();
            if b.current_format() != start {
                b.toggle_underline();
            }
        }
        b.toggle_underline();
        b.toggle_bold();
        assert_eq!(b.current_format(), both);
    }
}

#[test]
fn first_three_words_of_the_buffer() {
    let mut app = TextEditorApp::default();
    app.set_content("  Dear\tdiary,\n today was\u{a0}fine".to_string());
    assert_eq!(app.get_first_three_words(), "Dear_diary,_today");
    app.set_content("one".to_string());
    assert_eq!(app.get_first_three_words(), "one");
    app.set_content("é ü".to_string());
    assert_eq!(app.get_first_three_words(), "é_ü");
}

#[test]
fn save_dialog_proposes_a_name() {
    let mut app = TextEditorApp::default();
    app.set_content("shopping list for monday".to_string());
    app.enter_save_mode();
    assert!(app.save_dialog_open());
    assert_eq!(app.save_filename().as_str(), "shopping_list_for.txt");
    let mut app = TextEditorApp::default();
    app.enter_save_mode();
    assert_eq!(app.save_filename().as_str(), "untitled.txt");
}

#[test]
fn save_dialog_frames() {
    let mut app = TextEditorApp::default();
    assert!(!app.handle_save_dialog(true, "elsewhere".to_string(), "n.txt".to_string(), true, false));
    assert_eq!(app.output_path().as_str(), "output");

    app.enter_save_mode();
    assert!(!app.handle_save_dialog(true, "out".to_string(), "a.txt".to_string(), false, false));
    assert!(app.save_dialog_open());
    assert_eq!(app.output_path().as_str(), "out");
    assert_eq!(app.save_filename().as_str(), "a.txt");

    assert!(app.handle_save_dialog(true, "out".to_string(), "b.txt".to_string(), true, false));
    assert!(!app.save_dialog_open());
    assert_eq!(app.save_filename().as_str(), "b.txt");
    app.finish_save(Ok("out/b.txt".to_string()));
    assert_eq!(app.status_message().unwrap().as_str(), "File saved to: out/b.txt");

    app.enter_save_mode();
    assert!(!app.handle_save_dialog(true, "out".to_string(), "c.txt".to_string(), false, true));
    assert!(!app.save_dialog_open());

    app.enter_save_mode();
    assert!(!app.handle_save_dialog(false, "out".to_string(), "d.txt".to_string(), false, false));
    assert!(!app.save_dialog_open());
    app.finish_save(Err("disk full".to_string()));
    assert_eq!(app.status_message().unwrap().as_str(), "Error saving file: disk full");
}
