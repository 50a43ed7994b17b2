//! Extraction of the leading documentation comment of a source file, and the
//! text shown for it after the file's or directory's name in a listing.
//!
//! Supported: TypeScript (`/** ... */`), Python (the module docstring) and
//! Rust (`//!` lines or a `/*! ... */` block). The extractors give each doc
//! on one line. In a listing, a doc of one line stays inline after the name;
//! Rust `//!` docs of several lines, and a directory whose entry files have
//! several docs, are shown below the name, one line each.
pub mod chars;
pub mod language;
pub mod laws;
pub mod leading;
pub mod lines;
pub mod python;
pub mod rust_docs;
pub mod shown;
pub mod syntax_laws;
pub mod text;
pub mod tsdoc;
