# ni

A tiny vim-flavoured modal editor for terminal labels: text stays centred on
screen, line by line or as a block (`B` toggles), and the buffer is saved to
its file as you type.

## Layout

- `src/text.rs` — whitespace classification, UTF-8 byte offsets, splitting a
  file's text into lines and joining lines back into text.
- `src/model.rs` — the mathematical model of the editor state and of what
  every command and key does to it.
- `src/editor.rs` — the executable editor; each command is proved to act as
  the model says and to keep the state well formed.
- `src/render.rs` — the screen layout of a repaint: scrolling, centring,
  clipping, the cursor and the "Save as" box.
- `src/laws.rs` — properties of the editor as a whole (undo, autosave,
  prompt, motions, layout), proved over the model.
- `app/main.rs` — the terminal front end (crossterm): reads the file and
  the keys, paints the frames, writes the file.
