//! A reader for ZIM archives: many compressed documents bundled into one file,
//! with lookups by URL order and on-demand cluster decompression.
//!
//! The library reads an archive in place from a byte slice it borrows (such as a
//! mapped file); every offset and length read from the file is checked before it
//! is used.

pub mod error;
pub mod codec;
pub mod entry;
pub mod cluster;
pub mod archive;
pub mod lemmas;

pub use error::{ErrorKind, ParsingError};
pub use entry::{MimeType, Target, DirectoryEntry};
pub use cluster::Cluster;
pub use archive::{Zim, DirectoryIterator};
