use core::ops::Range;
use vstd::prelude::*;

use crate::error::ParseError;
use crate::layout::SectionHeader;

verus! {

/// Characteristics flag of a section that holds executable code.
pub const MEM_EXECUTE: u32 = 0x2000_0000;

/// Characteristics flag of a section that may be written.
pub const MEM_WRITE: u32 = 0x8000_0000;

/// The characters that `std::str::from_utf8` decodes `b` to, or `None` where `b` is not
/// valid UTF-8.
pub uninterp spec fn utf8_decode(b: Seq<u8>) -> Option<Seq<char>>;

/// Relies on `std::str::from_utf8`: it accepts exactly the valid UTF-8 byte strings and
/// then yields their characters.
#[verifier::external_body]
pub(crate) fn decode_utf8(b: &[u8]) -> (r: Option<String>)
    ensures
        match r {
            Some(s) => utf8_decode(b@) == Some(s@),
            None => utf8_decode(b@) is None,
        },
{
    std::str::from_utf8(b).ok().map(String::from)
}

/// `s` without its trailing nul bytes.
pub open spec fn trim_nul(s: Seq<u8>) -> Seq<u8>
    decreases s.len(),
{
    if s.len() > 0 && s.last() == 0u8 {
        trim_nul(s.drop_last())
    } else {
        s
    }
}

/// The null-padded eight-byte name of the section table entry at `off`.
pub open spec fn name_bytes(b: Seq<u8>, off: int) -> Seq<u8> {
    trim_nul(b.subrange(off, off + 8))
}

/// `x` clipped to an image of `len` bytes.
pub open spec fn clip(x: int, len: int) -> int {
    if x < len {
        x
    } else {
        len
    }
}

/// End of a virtual range, wrapped modulo 2^32 as a 32-bit sum wraps.
pub open spec fn wrapping_end(sum: int) -> int {
    if sum > u32::MAX {
        sum - 0x1_0000_0000
    } else {
        sum
    }
}

/// A typed view of one section of an image.
#[derive(Debug)]
pub struct Section<'a> {
    pub name: String,
    pub bytes: &'a [u8],
    pub virtual_range: Range<u32>,
    pub executable: bool,
    pub writeable: bool,
}

/// `s` is the section that entry `h` of the table of image `b` describes, named `name`.
pub open spec fn section_from(s: Section, b: Seq<u8>, h: SectionHeader, name: Seq<char>) -> bool {
    let start = clip(h.raw_pointer as int, b.len() as int);
    let end = clip(h.raw_pointer + h.raw_size, b.len() as int);
    &&& s.name@ == name
    &&& s.bytes@ == b.subrange(start, end)
    &&& s.virtual_range.start == h.virtual_address
    &&& s.virtual_range.end == wrapping_end(h.virtual_address as int + h.virtual_size as int)
    &&& s.executable == (h.characteristics & MEM_EXECUTE != 0)
    &&& s.writeable == (h.characteristics & MEM_WRITE != 0)
}

/// Length of `b[0..n]` once its trailing nul bytes are gone.
fn trimmed_len(b: &[u8]) -> (n: usize)
    ensures
        n <= b@.len(),
        b@.subrange(0, n as int) == trim_nul(b@),
{
    let mut n = b.len();
    assert(b@.subrange(0, n as int) =~= b@);
    while n > 0 && b[n - 1] == 0
        invariant
            n <= b@.len(),
            trim_nul(b@.subrange(0, n as int)) == trim_nul(b@),
        decreases n,
    {
        assert(b@.subrange(0, n as int).drop_last() =~= b@.subrange(0, n - 1));
        n -= 1;
    }
    n
}

impl<'a> Section<'a> {
    /// Builds the section that table entry `sec` of `image` describes. Its bytes are the
    /// raw range clipped to the image; its name must be valid UTF-8.
    pub fn new(sec: &SectionHeader, image: &'a [u8]) -> (r: Result<Section<'a>, ParseError>)
        requires
            sec.entry_offset + 8 <= image@.len(),
        ensures
            match utf8_decode(name_bytes(image@, sec.entry_offset as int)) {
                Some(name) => r is Ok && section_from(r->Ok_0, image@, *sec, name),
                None => r == Err::<Section, ParseError>(ParseError::InvalidSectionName),
            },
    {
        let len = image.len() as u64;
        let at = sec.entry_offset;
        let raw_name = vstd::slice::slice_subrange(image, at, at + 8);
        let n = trimmed_len(raw_name);
        let name = match decode_utf8(vstd::slice::slice_subrange(raw_name, 0, n)) {
            Some(name) => name,
            None => return Err(ParseError::InvalidSectionName),
        };
        let start = if (sec.raw_pointer as u64) < len { sec.raw_pointer as u64 } else { len };
        let end_raw = sec.raw_pointer as u64 + sec.raw_size as u64;
        let end = if end_raw < len { end_raw } else { len };
        let bytes = vstd::slice::slice_subrange(image, start as usize, end as usize);
        Ok(Section {
            name,
            bytes,
            virtual_range: Range { start: sec.virtual_address, end: sec.virtual_address.wrapping_add(sec.virtual_size) },
            executable: sec.characteristics & MEM_EXECUTE != 0,
            writeable: sec.characteristics & MEM_WRITE != 0,
        })
    }
}

} // verus!
