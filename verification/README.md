# zuttomo

A conversation helper for Japanese and Taiwan Mandarin at the command line. It
keeps a history, asks one of three backends, and serves a small form on which a
partner can type on a phone.

- `src/` is the library, verified with Verus: the commands of the prompt and the
  state of a conversation, the history file, requests and replies of the
  backends, the configuration, and the form with its HTTP requests and
  responses. What it takes from `serde_json` and from the standard library
  without proof is declared in `json.rs`, `encoding.rs` and `text.rs`.
- `app/` is the program around it: files, processes, connections and the loop at
  the prompt.
- `tests/` runs the library on concrete values.
