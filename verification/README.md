# super_v

A clipboard history whose behaviour is proved with Verus.

- `src/history.rs`: the history (newest first, each item once, at most a
  fixed number of entries), its specification and its table rendering.
- `src/laws.rs`: what holds across the history's operations.
- `src/common.rs`: clipboard items, the empty-clipboard error, and reading an
  item from the system clipboard through arboard.
- `src/poller.rs`: the decisions of the background watcher.
- `src/picker.rs`, `src/emoji.rs`: the decisions of the picker window
  (previews, pasting, emoji search, animation timing).
- `src/text.rs`: decimal numbers and line endings.
- `app/`: the program around the library (demonstration, watcher loop,
  monitor).

The GTK picker window and the connection through which it asks the running
watcher for its history are not part of this crate; the window's decisions
(previews, pasting, emoji search, tabs, deletion, clearing) are verified in
`src/picker.rs`, `src/emoji.rs` and `src/history.rs`.
