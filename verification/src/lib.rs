//! Decoder for the binary container format that a desktop filesystem uses to
//! cache folder-view metadata (`.DS_Store` files).
//!
//! The decoder validates the fixed file signature, reads 4-byte big-endian
//! blocks, resolves the bit-packed allocation index to locate the root
//! directory page, and decodes that page's UTF-16 name records into a tree of
//! named nodes. The caller supplies the whole file as a byte buffer; the
//! decoder performs no I/O of its own.

pub mod error;
pub mod format;
pub mod parser;
pub mod text;

pub use error::ParseError;
pub use parser::DsStore;
pub use parser::DsStoreParser;
