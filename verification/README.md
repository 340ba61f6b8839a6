# SpotFreeze

Freeze the screen, then spotlight a region, zoom in, or snip a part of the
frozen frame to the clipboard.

The library under `src/` holds everything that decides or computes, written in
Verus: each function states what it returns or changes, and Verus proves it.

- `geometry`, `text`: points, rectangles, and text helpers.
- `capture`: frames (32-bit BGRA, top-down), clipboard bitmaps, PNG, row copies.
- `hotkeys`: gestures and their texts, key codes, the plan of keys that act
  while frozen, the book of registered hotkeys.
- `overlay`: compositing, the spotlight, zoom and snip layers, the controller of
  a frozen session, fades, the legend, overlay windows.
- `settings`: the settings, their plain values, and their commented JSON text.
- `autostart`, `cli`, `tray`: launch at login, the command line, tray icons and
  menus.
- `platform`: the decisions of the Wayland, macOS and Windows shells.

What needs the operating system, an outside trait or floating point is under
`app/`, a Wayland program around the library. Zoom factors pass through the
library as the bit patterns of single-precision numbers; the sample positions of
a zoomed view and the power that a wheel turn raises the zoom to are computed by
the program and handed in.

A frame is always well formed (`DibBuffer::wf`), a session always keeps its
parallel vectors in step (`FreezeState::wf`), and the public `lemma_` functions
state what holds across calls, such as that leaving capture mode restores the
view it was entered from, or that a deferred repaint covers what it stands for.

Four things are believed rather than proved, each described where it stands:
`String::push`, `char::from_u32`, the PNG encoder, and the JSONC parser.
