# doc_comments

Finds the leading documentation comment of a source file and renders the text
shown after the file's (or its directory's) name in a listing.

- TypeScript (`.ts`, `.tsx`): a leading `/** ... */` comment.
- Python (`.py`): the module docstring.
- Rust (`.rs`): leading `//!` lines or a leading `/*! ... */` block.

The extractors give each doc on one line, its lines joined by spaces. In a
listing, a doc of one line stays inline after the name (` /** Doc */`). Rust
`//!` docs of several lines are shown one `//!` line each, below the name.

A directory shows the docs of its entry files that have one, in the order
`index.ts`, `index.tsx`, `__init__.py`, `mod.rs`, with an empty line between
two of them.

Layout:

- `src/` is the verified library. Every function has a contract over the
  character sequences of its inputs; `src/laws.rs` states and proves
  properties that hold of every input.
  - `text.rs`, `lines.rs`, `chars.rs`: character classes, trimming, searching,
    splitting into lines and collapsing a comment body into one line.
  - `leading.rs`: the byte order mark and `#!` line allowed before a doc.
  - `tsdoc.rs`, `python.rs`, `rust_docs.rs`: the three extractors.
  - `language.rs`: the supported languages and their comment syntax.
  - `shown.rs`: the text shown for a file or a directory from what was read
    of it.
- `app/` reads the file system and hands the library what it read.
- `tests/` runs the library on concrete inputs.
