//! Parsing of Portable Executable (PE) images, 32-bit and 64-bit, from an
//! in-memory byte buffer: header classification, address translation, the
//! section table and the export directory.
pub mod bytes;
pub mod error;
pub mod export;
pub mod headers;
pub mod image;
pub mod layout;
pub mod section;

pub use error::ParseError;
pub use export::{dump_exports, Address, Export, ExportPolicy};
pub use headers::{classify, Headers, ImageKind, MIN_HEADER_SIZE};
pub use image::Pe;
pub use layout::{Layout, SectionHeader};
pub use section::{Section, MEM_EXECUTE, MEM_WRITE};
