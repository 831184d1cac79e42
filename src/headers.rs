use vstd::prelude::*;

use crate::bytes::{read_u16, read_u32, read_u64, u16_le, u32_le, u64_le};
use crate::error::ParseError;

verus! {

/// Size of the DOS header: no shorter buffer can hold a PE image.
pub const MIN_HEADER_SIZE: usize = 64;

/// Size of one entry of the section table.
pub const SECTION_HEADER_SIZE: usize = 40;

/// Optional-header magic of a 32-bit image.
pub const PE32_MAGIC: u16 = 0x10b;

/// Optional-header magic of a 64-bit image.
pub const PE64_MAGIC: u16 = 0x20b;

/// Which optional-header layout an image uses.
#[derive(Clone, Copy, Debug, PartialEq, Eq, Structural)]
pub enum ImageKind {
    Pe32,
    Pe64,
}

/// What the DOS, NT and optional headers say, once classified.
#[derive(Clone, Copy, Debug, PartialEq, Eq, Structural)]
pub struct Headers {
    pub kind: ImageKind,
    pub entry_rva: u32,
    pub image_base: u64,
    pub headers_size: u32,
    /// File offset of the section table.
    pub section_table: usize,
    pub section_count: usize,
    /// Export data directory; an RVA of zero means there is none.
    pub export_rva: u32,
    pub export_size: u32,
}

/// Fixed part of the optional header of each layout, data directory count included.
pub open spec fn fixed_optional_size(kind: ImageKind) -> int {
    match kind {
        ImageKind::Pe32 => 96,
        ImageKind::Pe64 => 112,
    }
}

pub open spec fn has_signature(b: Seq<u8>, nt: int) -> bool {
    b[nt] == 0x50u8 && b[nt + 1] == 0x45u8 && b[nt + 2] == 0u8 && b[nt + 3] == 0u8
}

/// The header fields of `b`, given the NT header at `nt` and the optional header kind.
pub open spec fn headers_with(b: Seq<u8>, nt: int, kind: ImageKind) -> Result<Headers, ParseError> {
    let opt = nt + 24;
    let opt_size = u16_le(b, nt + 20);
    let fixed = fixed_optional_size(kind);
    let table = opt + opt_size;
    let count = u16_le(b, nt + 6);
    if opt_size < fixed || table > b.len() || table + 40 * count > b.len() {
        Err(ParseError::InvalidFormat)
    } else if u32_le(b, opt + 60) > b.len() {
        Err(ParseError::InvalidFormat)
    } else {
        let has_export = u32_le(b, opt + fixed - 4) >= 1 && opt_size >= fixed + 8;
        Ok(
            Headers {
                kind,
                entry_rva: u32_le(b, opt + 16) as u32,
                image_base: match kind {
                    ImageKind::Pe32 => u32_le(b, opt + 28) as u64,
                    ImageKind::Pe64 => u64_le(b, opt + 24) as u64,
                },
                headers_size: u32_le(b, opt + 60) as u32,
                section_table: table as usize,
                section_count: count as usize,
                export_rva: if has_export { u32_le(b, opt + fixed) as u32 } else { 0 },
                export_size: if has_export { u32_le(b, opt + fixed + 4) as u32 } else { 0 },
            },
        )
    }
}

/// The classified headers of `b`, or `InvalidFormat`.
pub open spec fn headers_of(b: Seq<u8>) -> Result<Headers, ParseError> {
    if b.len() < MIN_HEADER_SIZE || b[0] != 0x4Du8 || b[1] != 0x5Au8 {
        Err(ParseError::InvalidFormat)
    } else {
        let nt = u32_le(b, 0x3c);
        if nt + 26 > b.len() || !has_signature(b, nt) {
            Err(ParseError::InvalidFormat)
        } else {
            let magic = u16_le(b, nt + 24);
            if magic == PE32_MAGIC {
                headers_with(b, nt, ImageKind::Pe32)
            } else if magic == PE64_MAGIC {
                headers_with(b, nt, ImageKind::Pe64)
            } else {
                Err(ParseError::InvalidFormat)
            }
        }
    }
}

/// A well-formed classification: the section table and the header region lie in `b`.
pub open spec fn headers_fit(h: Headers, len: int) -> bool {
    &&& h.section_table + SECTION_HEADER_SIZE * h.section_count <= len
    &&& h.headers_size <= len
}

pub proof fn lemma_headers_fit(b: Seq<u8>)
    requires
        headers_of(b) is Ok,
    ensures
        headers_fit(headers_of(b)->Ok_0, b.len() as int),
{
}

fn classify_with(b: &[u8], nt: u32, kind: ImageKind) -> (r: Result<Headers, ParseError>)
    requires
        nt + 26 <= b@.len(),
    ensures
        r == headers_with(b@, nt as int, kind),
{
    let len = b.len() as u64;
    let nt = nt as usize;
    let opt: usize = nt + 24;
    let opt_size = read_u16(b, nt + 20);
    let count = read_u16(b, nt + 6);
    let fixed: usize = match kind {
        ImageKind::Pe32 => 96,
        ImageKind::Pe64 => 112,
    };
    let table = opt as u64 + opt_size as u64;
    if (opt_size as usize) < fixed || table > len || table + 40 * (count as u64) > len {
        return Err(ParseError::InvalidFormat);
    }
    let headers_size = read_u32(b, opt + 60);
    if headers_size as u64 > len {
        return Err(ParseError::InvalidFormat);
    }
    let entry_rva = read_u32(b, opt + 16);
    let image_base = match kind {
        ImageKind::Pe32 => read_u32(b, opt + 28) as u64,
        ImageKind::Pe64 => read_u64(b, opt + 24),
    };
    let has_export = read_u32(b, opt + fixed - 4) >= 1 && opt_size as usize >= fixed + 8;
    let (export_rva, export_size) = if has_export {
        (read_u32(b, opt + fixed), read_u32(b, opt + fixed + 4))
    } else {
        (0, 0)
    };
    Ok(
        Headers {
            kind,
            entry_rva,
            image_base,
            headers_size,
            section_table: table as usize,
            section_count: count as usize,
            export_rva,
            export_size,
        },
    )
}

/// Reads the DOS and NT headers and picks the optional-header layout from its magic.
pub fn classify(b: &[u8]) -> (r: Result<Headers, ParseError>)
    ensures
        r == headers_of(b@),
{
    if b.len() < MIN_HEADER_SIZE || b[0] != 0x4D || b[1] != 0x5A {
        return Err(ParseError::InvalidFormat);
    }
    let nt = read_u32(b, 0x3c);
    if nt as u64 + 26 > b.len() as u64 {
        return Err(ParseError::InvalidFormat);
    }
    let at = nt as usize;
    if !(b[at] == 0x50 && b[at + 1] == 0x45 && b[at + 2] == 0 && b[at + 3] == 0) {
        return Err(ParseError::InvalidFormat);
    }
    let magic = read_u16(b, at + 24);
    if magic == PE32_MAGIC {
        classify_with(b, nt, ImageKind::Pe32)
    } else if magic == PE64_MAGIC {
        classify_with(b, nt, ImageKind::Pe64)
    } else {
        Err(ParseError::InvalidFormat)
    }
}

} // verus!
