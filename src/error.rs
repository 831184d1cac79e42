use vstd::prelude::*;

verus! {

/// Why a buffer could not be parsed as a PE image.
#[derive(Clone, Copy, Debug, PartialEq, Eq, Structural)]
pub enum ParseError {
    /// Bad magic, truncated header region or inconsistent header size.
    InvalidFormat,
    /// A section name that is not valid UTF-8.
    InvalidSectionName,
    /// An address that neither the header region nor any section holds.
    AddressOutOfRange,
    /// A present but corrupt export directory.
    ExportDirectoryError,
}

} // verus!
