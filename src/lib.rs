//! In-memory texture storage: pixel-format classification and geometry,
//! subresource addressing, an owning texture container, container-file
//! header readers and a byte buffer for encoded output.
pub mod blob;
pub mod dds;
pub mod error;
pub mod format;
pub mod hdr;
pub mod metadata;
pub mod scratch_image;
pub mod tga;
