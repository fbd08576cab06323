# hwpcore

The verified core of a toolkit for HWP word-processor documents, written in
Verus: every function in `src/` carries a contract that Verus proves, with
four exceptions whose contracts are trusted rather than proved. They are thin
wrappers around calls the library does not re-implement:

- `text::push_char` — std's `String::push`;
- `props::parse_json_object` — `serde_json::from_str` into a JSON object;
- `script::inflate_raw` — raw deflate decoding with flate2's `DeflateDecoder`;
- `script::decode_utf16_lossy` — std's `String::from_utf16_lossy`.

Each states what the outside code documents (the JSON parse and the inflate
result are named by uninterpreted spec functions of their input), and the
verified code around them is proved against those statements.

Layout:

- `src/model.rs` — the document model (sections, paragraphs, tables, cells,
  form objects, shape tables).
- Form objects: `form_query.rs` (the operations on a document and their JSON
  answers), `form_edit.rs` (putting a form into a paragraph and taking it out),
  `positions.rs` (control positions and character offsets), `path.rs`
  (reaching cell and text-box paragraphs), `extract.rs`, `props.rs`,
  `script.rs` (combo box items from the document script), `form_json.rs`.
- The compatibility check: `lint_report.rs` assembles the report from
  `lint_cells.rs`, `lint_table.rs`, `lint_style.rs`, `lint_orphan.rs`,
  `lint_pushed.rs` and `lint_chars.rs`; `lint_walk.rs` and `collect.rs` walk the
  document; `decimal.rs` prints quotients as `{:.1}` does.
- `help.rs` — the help text of the office commands.

`app/` holds the command-line front end and the checks that need a page
layout (their geometry is floating point). `tests/` runs the library.
