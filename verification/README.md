# text_editor

A small editor of formatted text (bold, underline), with a terminal front
end and a windowed one, whose editing logic is verified with Verus.

- `src/segments.rs`: a line as a sequence of formatted segments; its
  length, segment positions, the segment the cursor is in, what it shows
  (its formatted characters), and the three edits of a line (typing,
  deleting, splitting), each proved to change what the line shows exactly
  as intended.
- `src/editor.rs`: the terminal editor. `EditorState` is its model and the
  transitions of every command (including the key handling of the main
  loop); `TextEditor` implements them.
- `src/gui.rs`: the state of the windowed editor and its save dialog.
- `src/words.rs`: whitespace, words and the default file name.
- `src/messages.rs`: the status message after a save.
- `src/strings.rs`: the few `String` operations taken from std.
- `src/laws.rs`: properties relating commands (Backspace undoes typing and
  Enter, the arrows undo each other, the toggles).
- `app/`: the front ends. `text_editor` runs the terminal editor,
  `text_editor --gui` the windowed one; they draw, read keys and write
  files.
