//! Verified core of a collaborative-canvas snapshot viewer.
//!
//! A remote service publishes a 1000 x 1000 shared bitmap as a compact binary
//! snapshot: a 4-byte header followed by 1000 rows of 500 bytes, each byte
//! packing two 4-bit palette indices. This crate decodes such a snapshot
//! through a fixed 16-entry color palette into a dense RGBA pixel buffer and
//! exposes that buffer as the flat byte sequence a rendering surface consumes.
//! Fetching the snapshot and uploading the texture are left to the caller.

pub mod buffer;
pub mod color;
pub mod decode;
pub mod palette;
pub mod vertex;
