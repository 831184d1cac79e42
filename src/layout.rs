use vstd::prelude::*;

use crate::bytes::{read_u32, u32_le};
use crate::error::ParseError;
use crate::headers::{classify, headers_fit, headers_of, lemma_headers_fit, Headers};

verus! {

/// One entry of the section table, as stored on disk.
#[derive(Clone, Copy, Debug, PartialEq, Eq, Structural)]
pub struct SectionHeader {
    /// File offset of this entry; its first eight bytes are the name.
    pub entry_offset: usize,
    pub virtual_size: u32,
    pub virtual_address: u32,
    pub raw_size: u32,
    pub raw_pointer: u32,
    pub characteristics: u32,
}

/// The section table entry at file offset `off`.
pub open spec fn section_header_at(b: Seq<u8>, off: int) -> SectionHeader {
    SectionHeader {
        entry_offset: off as usize,
        virtual_size: u32_le(b, off + 8) as u32,
        virtual_address: u32_le(b, off + 12) as u32,
        raw_size: u32_le(b, off + 16) as u32,
        raw_pointer: u32_le(b, off + 20) as u32,
        characteristics: u32_le(b, off + 36) as u32,
    }
}

/// The whole section table that `h` locates, in table order.
pub open spec fn section_headers_of(b: Seq<u8>, h: Headers) -> Seq<SectionHeader> {
    Seq::new(h.section_count as nat, |i: int| section_header_at(b, h.section_table + 40 * i))
}

/// Whether `rva` lies in the virtual range `[virtual_address, virtual_address + virtual_size)`.
pub open spec fn holds_rva(s: SectionHeader, rva: int) -> bool {
    s.virtual_address <= rva && rva < s.virtual_address + s.virtual_size
}

/// Index of the first section from `i` on whose virtual range holds `rva`.
pub open spec fn first_holding(secs: Seq<SectionHeader>, rva: int, i: int) -> Option<int>
    decreases secs.len() - i,
{
    if i >= secs.len() || i < 0 {
        None
    } else if holds_rva(secs[i], rva) {
        Some(i)
    } else {
        first_holding(secs, rva, i + 1)
    }
}

/// File offset of `rva` inside section `s`: only where the section's raw data backs
/// it and the offset lies in an image of `len` bytes.
pub open spec fn offset_in(s: SectionHeader, rva: int, len: int) -> Option<int> {
    let delta = rva - s.virtual_address;
    if delta < s.raw_size && s.raw_pointer + delta < len {
        Some(s.raw_pointer + delta)
    } else {
        None
    }
}

/// The file offset of `rva`: identity inside the header region, else through the first
/// section whose virtual range holds it.
pub open spec fn rva_offset(secs: Seq<SectionHeader>, headers_size: int, len: int, rva: int) -> Option<
    int,
> {
    if rva < headers_size {
        Some(rva)
    } else {
        match first_holding(secs, rva, 0) {
            Some(i) => offset_in(secs[i], rva, len),
            None => None,
        }
    }
}

/// Where the first section holding `rva` is `i`, lookup from any earlier index finds it.
pub proof fn lemma_first_holding(secs: Seq<SectionHeader>, rva: int, i: int, from: int)
    requires
        0 <= from <= i < secs.len(),
        holds_rva(secs[i], rva),
        forall|j: int| from <= j < i ==> !holds_rva(#[trigger] secs[j], rva),
    ensures
        first_holding(secs, rva, from) == Some(i),
    decreases i - from,
{
    if from < i {
        lemma_first_holding(secs, rva, i, from + 1);
    }
}

/// Where no section from `from` on holds `rva`, lookup finds none.
proof fn lemma_none_holding(secs: Seq<SectionHeader>, rva: int, from: int)
    requires
        0 <= from,
        forall|j: int| from <= j < secs.len() ==> !holds_rva(#[trigger] secs[j], rva),
    ensures
        first_holding(secs, rva, from) is None,
    decreases secs.len() - from,
{
    if from < secs.len() {
        lemma_none_holding(secs, rva, from + 1);
    }
}

/// The mathematical content of a `Layout`.
pub ghost struct LayoutView {
    pub headers: Headers,
    pub sections: Seq<SectionHeader>,
    pub image_len: int,
}

impl LayoutView {
    /// The file offset of `rva` in this image, if it has one.
    pub open spec fn offset_of(self, rva: int) -> Option<int> {
        rva_offset(self.sections, self.headers.headers_size as int, self.image_len, rva)
    }
}

/// The layout of image `b`: its classified headers and its section table.
pub open spec fn layout_of(b: Seq<u8>) -> Result<LayoutView, ParseError> {
    match headers_of(b) {
        Err(e) => Err(e),
        Ok(h) => Ok(LayoutView { headers: h, sections: section_headers_of(b, h), image_len: b.len() as int }),
    }
}

/// The classified headers and section table of one image, and the image's length.
#[derive(Debug)]
pub struct Layout {
    pub headers: Headers,
    pub sections: Vec<SectionHeader>,
    pub image_len: usize,
}

impl View for Layout {
    type V = LayoutView;

    open spec fn view(&self) -> LayoutView {
        LayoutView { headers: self.headers, sections: self.sections@, image_len: self.image_len as int }
    }
}

impl Layout {
    pub open spec fn wf(&self) -> bool {
        self.headers.headers_size <= self.image_len
    }

    /// Classifies the headers of `b` and reads its section table.
    pub fn from_bytes(b: &[u8]) -> (r: Result<Layout, ParseError>)
        ensures
            match r {
                Ok(l) => layout_of(b@) == Ok::<LayoutView, ParseError>(l@) && l.wf(),
                Err(e) => layout_of(b@) == Err::<LayoutView, ParseError>(e),
            },
    {
        let h = classify(b)?;
        proof {
            lemma_headers_fit(b@);
        }
        let sections = read_section_headers(b, &h);
        Ok(Layout { headers: h, sections, image_len: b.len() })
    }

    /// Converts an RVA to a file offset, or fails with `AddressOutOfRange`.
    pub fn rva_to_offset(&self, rva: u32) -> (r: Result<usize, ParseError>)
        requires
            self.wf(),
        ensures
            r is Ok ==> r->Ok_0 < self.image_len,
            match self@.offset_of(rva as int) {
                Some(o) => r is Ok && r->Ok_0 == o,
                None => r == Err::<usize, ParseError>(ParseError::AddressOutOfRange),
            },
    {
        if rva < self.headers.headers_size {
            return Ok(rva as usize);
        }
        let mut i: usize = 0;
        while i < self.sections.len()
            invariant
                i <= self.sections@.len(),
                rva >= self.headers.headers_size,
                forall|j: int| 0 <= j < i ==> !holds_rva(#[trigger] self.sections@[j], rva as int),
            decreases self.sections@.len() - i,
        {
            let s = self.sections[i];
            if s.virtual_address <= rva && (rva as u64) < s.virtual_address as u64
                + s.virtual_size as u64 {
                proof {
                    lemma_first_holding(self.sections@, rva as int, i as int, 0);
                }
                let delta = rva - s.virtual_address;
                if delta < s.raw_size && (s.raw_pointer as u64 + delta as u64) < self.image_len as u64 {
                    let o = (s.raw_pointer as u64 + delta as u64) as usize;
                    return Ok(o);
                }
                return Err(ParseError::AddressOutOfRange);
            }
            i += 1;
        }
        proof {
            lemma_none_holding(self.sections@, rva as int, 0);
        }
        Err(ParseError::AddressOutOfRange)
    }
}

fn read_section_headers(b: &[u8], h: &Headers) -> (r: Vec<SectionHeader>)
    requires
        headers_fit(*h, b@.len() as int),
    ensures
        r@ == section_headers_of(b@, *h),
{
    let mut r: Vec<SectionHeader> = Vec::new();
    let mut i: usize = 0;
    while i < h.section_count
        invariant
            i <= h.section_count,
            headers_fit(*h, b@.len() as int),
            r@ == section_headers_of(b@, *h).take(i as int),
        decreases h.section_count - i,
    {
        let n = b.len();
        assert(h.section_table + 40 * i + 40 <= n) by (nonlinear_arith)
            requires
                i < h.section_count,
                h.section_table + 40 * h.section_count <= n,
        ;
        let off = h.section_table + 40 * i;
        let s = SectionHeader {
            entry_offset: off,
            virtual_size: read_u32(b, off + 8),
            virtual_address: read_u32(b, off + 12),
            raw_size: read_u32(b, off + 16),
            raw_pointer: read_u32(b, off + 20),
            characteristics: read_u32(b, off + 36),
        };
        r.push(s);
        i += 1;
        assert(r@ =~= section_headers_of(b@, *h).take(i as int));
    }
    assert(r@ =~= section_headers_of(b@, *h));
    r
}

} // verus!
