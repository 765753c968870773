//! Decoder for the version-aware header of a game save file.
//!
//! The header's physical encoding (integer widths, length prefixes, field
//! presence) changed across a series of released format eras.  This crate
//! classifies the declared version into an era, binds that era's decoding
//! rules, and decodes the header fields in their fixed order, returning a
//! complete header value or a typed error.  Locating the header inside the
//! save container and decompressing it are left to callers.

pub mod error;
pub mod reader;
pub mod saves;
pub mod versions;
