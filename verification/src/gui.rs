//! The state behind the windowed editor: one text buffer, a format that
//! can be bold and underlined at once, and a save dialog with an output
//! folder and a file name.

use vstd::prelude::*;
use crate::messages::{outcome_view, save_status, save_status_message};
use crate::strings::{chars_of, string_from_chars};
use crate::words::{
    default_filename, filename_from_words, first_three, join_first_three, join_underscore,
    split_whitespace, words,
};

verus! {

/// The format of the windowed editor's text.
#[derive(Clone, Copy, Debug, PartialEq, Eq, Structural)]
pub enum TextFormat {
    Normal,
    Bold,
    Underlined,
    BoldUnderlined,
}

/// The format is bold (alone or with underline).
pub open spec fn bold(format: TextFormat) -> bool {
    format == TextFormat::Bold || format == TextFormat::BoldUnderlined
}

/// The format is underlined (alone or with bold).
pub open spec fn underlined(format: TextFormat) -> bool {
    format == TextFormat::Underlined || format == TextFormat::BoldUnderlined
}

/// The format after the bold button: bold flips, underline stays.
pub open spec fn toggled_bold(f: TextFormat) -> TextFormat {
    match f {
        TextFormat::Normal => TextFormat::Bold,
        TextFormat::Bold => TextFormat::Normal,
        TextFormat::Underlined => TextFormat::BoldUnderlined,
        TextFormat::BoldUnderlined => TextFormat::Underlined,
    }
}

/// The format after the underline button: underline flips, bold stays.
pub open spec fn toggled_underline(f: TextFormat) -> TextFormat {
    match f {
        TextFormat::Normal => TextFormat::Underlined,
        TextFormat::Bold => TextFormat::BoldUnderlined,
        TextFormat::Underlined => TextFormat::Normal,
        TextFormat::BoldUnderlined => TextFormat::Bold,
    }
}

/// Whether `format` is bold.
pub fn is_bold(format: TextFormat) -> (b: bool)
    ensures
        b == bold(format),
{
    matches!(format, TextFormat::Bold | TextFormat::BoldUnderlined)
}

/// Whether `format` is underlined.
pub fn is_underlined(format: TextFormat) -> (b: bool)
    ensures
        b == underlined(format),
{
    matches!(format, TextFormat::Underlined | TextFormat::BoldUnderlined)
}

/// The mathematical model of a `TextEditorApp`.
pub struct AppState {
    pub content: Seq<char>,
    pub format: TextFormat,
    pub save_filename: Seq<char>,
    pub save_dialog_open: bool,
    pub output_path: Seq<char>,
    pub status_message: Option<Seq<char>>,
}

impl AppState {
    /// The first three words of the buffer joined with `'_'`.
    pub open spec fn first_three_words(self) -> Seq<char> {
        join_underscore(first_three(words(self.content)))
    }

    /// The state with the save dialog open, proposing the first three words
    /// and `.txt` (or `untitled.txt`) as the name.
    pub open spec fn enter_save_mode(self) -> AppState {
        AppState {
            save_dialog_open: true,
            save_filename: default_filename(self.first_three_words()),
            ..self
        }
    }

    /// The state after a frame of the save dialog in which the folder and
    /// name fields held `output_path` and `save_filename`, the window stayed
    /// open or not (`open`), and the buttons were clicked or not. The
    /// dialog stays open only if the window stayed open and neither button
    /// was clicked. A closed dialog changes nothing.
    pub open spec fn handle_save_dialog(
        self,
        open: bool,
        output_path: Seq<char>,
        save_filename: Seq<char>,
        save_clicked: bool,
        cancel_clicked: bool,
    ) -> AppState {
        if !self.save_dialog_open {
            self
        } else {
            AppState {
                output_path,
                save_filename,
                save_dialog_open: open && !save_clicked && !cancel_clicked,
                ..self
            }
        }
    }
}

/// The state of the windowed editor.
pub struct TextEditorApp {
    content: String,
    current_format: TextFormat,
    save_filename: String,
    save_dialog_open: bool,
    output_path: String,
    status_message: Option<String>,
}

impl View for TextEditorApp {
    type V = AppState;

    closed spec fn view(&self) -> AppState {
        AppState {
            content: self.content@,
            format: self.current_format,
            save_filename: self.save_filename@,
            save_dialog_open: self.save_dialog_open,
            output_path: self.output_path@,
            status_message: match self.status_message {
                Some(m) => Some(m@),
                None => None,
            },
        }
    }
}

impl Default for TextEditorApp {
    /// An empty buffer, format `Normal`, the dialog closed with no name,
    /// `output` as the folder, and no status message.
    fn default() -> (app: Self)
        ensures
            app@ == (AppState {
                content: Seq::empty(),
                format: TextFormat::Normal,
                save_filename: Seq::empty(),
                save_dialog_open: false,
                output_path: "output"@,
                status_message: None,
            }),
    {
        TextEditorApp {
            content: String::new(),
            current_format: TextFormat::Normal,
            save_filename: String::new(),
            save_dialog_open: false,
            output_path: String::from_str("output"),
            status_message: None,
        }
    }
}

impl TextEditorApp {
    /// Flips bold for the current format, keeping underline.
    pub fn toggle_bold(&mut self)
        ensures
            final(self)@ == (AppState { format: toggled_bold(old(self)@.format), ..old(self)@ }),
    {
        self.current_format = match self.current_format {
            TextFormat::Normal => TextFormat::Bold,
            TextFormat::Bold => TextFormat::Normal,
            TextFormat::Underlined => TextFormat::BoldUnderlined,
            TextFormat::BoldUnderlined => TextFormat::Underlined,
        };
    }

    /// Flips underline for the current format, keeping bold.
    pub fn toggle_underline(&mut self)
        ensures
            final(self)@ == (AppState { format: toggled_underline(old(self)@.format), ..old(self)@ }),
    {
        self.current_format = match self.current_format {
            TextFormat::Normal => TextFormat::Underlined,
            TextFormat::Bold => TextFormat::BoldUnderlined,
            TextFormat::Underlined => TextFormat::Normal,
            TextFormat::BoldUnderlined => TextFormat::Bold,
        };
    }

    /// Opens the save dialog, proposing the first three words of the buffer
    /// and `.txt` as the name, or `untitled.txt` when it has no words.
    pub fn enter_save_mode(&mut self)
        ensures
            final(self)@ == old(self)@.enter_save_mode(),
    {
        self.save_dialog_open = true;
        let first_three_words = self.first_three_word_chars();
        self.save_filename = filename_from_words(&first_three_words);
    }

    /// The first three words of the buffer joined with `'_'`, as characters.
    fn first_three_word_chars(&self) -> (w: Vec<char>)
        ensures
            w@ == self@.first_three_words(),
    {
        let chars = chars_of(self.content.as_str());
        let ws = split_whitespace(&chars);
        join_first_three(&ws)
    }

    /// The first three whitespace-separated words of the buffer joined with
    /// `'_'` (fewer when the buffer has fewer).
    pub fn get_first_three_words(&self) -> (name: String)
        ensures
            name@ == self@.first_three_words(),
    {
        let w = self.first_three_word_chars();
        string_from_chars(&w)
    }

    /// Takes in what one frame of the save dialog produced and says whether
    /// to save now (to the folder and name now held). Does nothing while
    /// the dialog is closed.
    pub fn handle_save_dialog(
        &mut self,
        open: bool,
        output_path: String,
        save_filename: String,
        save_clicked: bool,
        cancel_clicked: bool,
    ) -> (save: bool)
        ensures
            final(self)@ == old(self)@.handle_save_dialog(
                open,
                output_path@,
                save_filename@,
                save_clicked,
                cancel_clicked,
            ),
            save == (old(self)@.save_dialog_open && save_clicked),
    {
        if !self.save_dialog_open {
            return false;
        }
        let mut open = open;
        self.output_path = output_path;
        self.save_filename = save_filename;
        if save_clicked {
            open = false;
        }
        if cancel_clicked {
            open = false;
        }
        self.save_dialog_open = open;
        save_clicked
    }

    /// Records the outcome of a save (the path written to, or the error's
    /// text) on the status line.
    pub fn finish_save(&mut self, outcome: Result<String, String>)
        ensures
            final(self)@ == (AppState {
                status_message: Some(save_status(outcome_view(outcome))),
                ..old(self)@
            }),
    {
        self.status_message = Some(save_status_message(&outcome));
    }

    /// The text buffer.
    pub fn content(&self) -> (content: &String)
        ensures
            content@ == self@.content,
    {
        &self.content
    }

    /// Replaces the text buffer with what the text area now holds.
    pub fn set_content(&mut self, content: String)
        ensures
            final(self)@ == (AppState { content: content@, ..old(self)@ }),
    {
        self.content = content;
    }

    /// The current format.
    pub fn current_format(&self) -> (format: TextFormat)
        ensures
            format == self@.format,
    {
        self.current_format
    }

    /// The file name in the save dialog.
    pub fn save_filename(&self) -> (name: &String)
        ensures
            name@ == self@.save_filename,
    {
        &self.save_filename
    }

    /// The output folder in the save dialog.
    pub fn output_path(&self) -> (path: &String)
        ensures
            path@ == self@.output_path,
    {
        &self.output_path
    }

    /// Whether the save dialog is open.
    pub fn save_dialog_open(&self) -> (open: bool)
        ensures
            open == self@.save_dialog_open,
    {
        self.save_dialog_open
    }

    /// The status message, if any.
    pub fn status_message(&self) -> (message: Option<&String>)
        ensures
            match message {
                Some(m) => self@.status_message == Some(m@),
                None => self@.status_message is None,
            },
    {
        match &self.status_message {
            Some(m) => Some(m),
            None => None,
        }
    }
}

} // verus!
