//! Structural parser for the X3F camera raw container.
//!
//! A file is a 40-byte header, an optional 192-byte extended header, a data
//! region, a directory of the data region's sections, and a 4-byte trailer
//! that holds the directory's offset. Every type here is a borrowed window
//! into the caller's buffer; nothing is copied and nothing is decoded.

pub mod container;
pub mod data;
pub mod debug_helper;
pub mod directory;
pub mod directory_pointer;
pub mod endian;
pub mod error;
pub mod header;

pub use crate::container::X3F;
pub use crate::data::{Camf, Image, Prop, SectionData, SectionKind};
pub use crate::debug_helper::TruncatedBytes;
pub use crate::directory::{DirectoryEntriesIter, DirectoryEntryRef, DirectoryRef};
pub use crate::directory_pointer::DirectoryPointerRef;
pub use crate::error::X3FError;
pub use crate::header::{ExtendedHeaderRef, HeaderRef};
