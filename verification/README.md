# Preview — verified editing core

The editing logic of the Preview image viewer (a GTK4 / libadwaita app),
written in Verus and proved against its contracts.

- `src/` — the verified library (`preview`):
  - `raster`: RGBA8 images and the pixel maps of quarter turns, flips and
    crops, with proofs that turns undo each other, flips undo themselves,
    two turns are both flips and four turns change nothing;
  - `transforms`: crop / rotate / flip / resize, calling the `image` crate;
  - `pixels`: conversion to and from cairo's premultiplied BGRA surfaces;
  - `history`: undo / redo of document snapshots, keeping the newest twenty;
  - `selection`: annotation lists with a selection that stays valid;
  - `tools`, `gestures`, `draft`, `text`, `export`: the decisions behind
    tool switches, clicks, drags, keys, the text being typed, the text
    cursor and the window title, and saving;
  - `document`: an edit of the picture, an undo and a redo as whole steps
    on the picture, the annotation lists, the draft and the history.
- `app/` — the GTK program around it: widgets, drawing, dialogs, file I/O,
  and the floating-point geometry (zoom, hit tests, coordinate transforms).
- `tests/` — tests of the library on concrete images and sequences of edits.
