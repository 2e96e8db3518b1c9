# Rustle

A terminal text editor with Rust syntax highlighting, search and
grapheme-aware cursor movement. Its logic is a library verified with Verus;
a small program drives the terminal.

## Layout

- `src/` — the verified library.
  - `rope.rs` — the document as a `ropey::Rope`: its text as a sequence of
    chars and a model of its lines (where each line starts, which chars end
    one), with the calls into ropey behind trusted wrappers.
  - `unicode.rs` — grapheme clusters, display widths and character
    properties, named after what unicode-segmentation, unicode-width and the
    standard library compute.
  - `text.rs` — small string helpers (decimal numbers, path names).
  - `editor/` — the editor: key commands, the status, message and search
    bars, and `editor/view/` with the buffer, the highlighter and the view
    of the document (cursor, scrolling, editing, search, rendering of rows).
- `app/` — the program: terminal input and output through crossterm, reading
  and writing the file, and the event loop that hands events to the editor
  and draws what it lays out.
- `tests/` — tests of the library on concrete inputs.

## Keys

| Key               | Action                                   | Mode(s)                |
| :---------------- | :--------------------------------------- | :--------------------- |
| Ctrl + Q          | Quit (twice with unsaved changes)        | All                    |
| Ctrl + S          | Save the file                            | All                    |
| Ctrl + F          | Enter search mode                        | Edit, navigation       |
| Enter             | Search and move between the matches      | Search                 |
| Esc               | Leave search or navigation               | Search, navigation     |
| Up / Down         | Previous / next match                    | Navigation             |
| Arrows, Home, End, PageUp, PageDown | Move the cursor        | Edit                   |
| Backspace, Delete | Delete before / at the cursor            | Edit (Backspace: also search) |
