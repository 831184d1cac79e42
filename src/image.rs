use vstd::prelude::*;

use crate::error::ParseError;
use crate::export::{dump_exports, exports_of, Address, Export, ExportPolicy};
use crate::headers::MIN_HEADER_SIZE;
use crate::layout::{holds_rva, lemma_first_holding, layout_of, Layout, LayoutView, SectionHeader};
use crate::section::{clip, name_bytes, section_from, utf8_decode, Section};

verus! {

/// A parsed PE image, borrowing from the buffer it was parsed from.
#[derive(Debug)]
pub struct Pe<'a> {
    pub base: u64,
    pub headers: &'a [u8],
    pub sections: Vec<Section<'a>>,
    pub entry: Address,
    pub exports: Vec<Export>,
}

/// Whether every section name of the table decodes as UTF-8.
pub open spec fn names_valid(b: Seq<u8>, secs: Seq<SectionHeader>) -> bool {
    forall|i: int|
        0 <= i < secs.len() ==> (#[trigger] utf8_decode(name_bytes(b, secs[i].entry_offset as int))) is Some
}

/// The decoded name of table entry `h` of image `b`.
pub open spec fn section_name(b: Seq<u8>, h: SectionHeader) -> Seq<char> {
    utf8_decode(name_bytes(b, h.entry_offset as int))->0
}

/// `p` is the image `b` with layout `l`, entry offset `entry` and exports `ex`.
pub open spec fn image_from(
    p: Pe,
    b: Seq<u8>,
    l: LayoutView,
    entry: int,
    ex: Seq<(Seq<char>, Address)>,
) -> bool {
    &&& p.base == l.headers.image_base
    &&& p.headers@ == b.subrange(0, l.headers.headers_size as int)
    &&& p.entry.rva == l.headers.entry_rva
    &&& p.entry.offset == entry
    &&& p.sections@.len() == l.sections.len()
    &&& forall|i: int|
        0 <= i < l.sections.len() ==> section_from(
            #[trigger] p.sections@[i],
            b,
            l.sections[i],
            section_name(b, l.sections[i]),
        )
    &&& p.exports@.map_values(|e: Export| e@) == ex
}

/// What parsing `b` under `policy` gives: the first failure of header classification,
/// section names, entry point translation and export reading, in that order, or else
/// the image they describe.
pub open spec fn parsed_as(b: Seq<u8>, policy: ExportPolicy, r: Result<Pe, ParseError>) -> bool {
    match layout_of(b) {
        Err(e) => r == Err::<Pe, ParseError>(e),
        Ok(l) => if !names_valid(b, l.sections) {
            r == Err::<Pe, ParseError>(ParseError::InvalidSectionName)
        } else {
            match l.offset_of(l.headers.entry_rva as int) {
                None => r == Err::<Pe, ParseError>(ParseError::AddressOutOfRange),
                Some(entry) => match exports_of(b, l, policy) {
                    Err(e) => r == Err::<Pe, ParseError>(e),
                    Ok(ex) => r is Ok && image_from(r->Ok_0, b, l, entry, ex),
                },
            }
        },
    }
}

fn build_sections<'a>(image: &'a [u8], l: &Layout) -> (r: Result<Vec<Section<'a>>, ParseError>)
    requires
        layout_of(image@) == Ok::<LayoutView, ParseError>(l@),
    ensures
        names_valid(image@, l@.sections) ==> r is Ok && r->Ok_0@.len() == l@.sections.len() && (
        forall|i: int|
            0 <= i < l@.sections.len() ==> section_from(
                #[trigger] r->Ok_0@[i],
                image@,
                l@.sections[i],
                section_name(image@, l@.sections[i]),
            )),
        !names_valid(image@, l@.sections) ==> r == Err::<Vec<Section>, ParseError>(
            ParseError::InvalidSectionName,
        ),
{
    let mut res: Vec<Section<'a>> = Vec::new();
    let mut i: usize = 0;
    while i < l.sections.len()
        invariant
            layout_of(image@) == Ok::<LayoutView, ParseError>(l@),
            i <= l@.sections.len(),
            res@.len() == i,
            forall|j: int|
                0 <= j < i ==> (#[trigger] utf8_decode(
                    name_bytes(image@, l@.sections[j].entry_offset as int),
                )) is Some,
            forall|j: int|
                0 <= j < i ==> section_from(
                    #[trigger] res@[j],
                    image@,
                    l@.sections[j],
                    section_name(image@, l@.sections[j]),
                ),
        decreases l@.sections.len() - i,
    {
        let h = l.sections[i];
        let n = image.len();
        assert(h.entry_offset + 8 <= n) by (nonlinear_arith)
            requires
                h.entry_offset == l.headers.section_table + 40 * i,
                i < l.headers.section_count,
                l.headers.section_table + 40 * l.headers.section_count <= n,
        ;
        let s = Section::new(&h, image)?;
        res.push(s);
        i += 1;
    }
    Ok(res)
}

impl<'a> Pe<'a> {
    /// Parses `data` as a PE image under the given export policy.
    pub fn parse_with(data: &'a [u8], policy: ExportPolicy) -> (r: Result<Pe<'a>, ParseError>)
        ensures
            parsed_as(data@, policy, r),
    {
        let l = Layout::from_bytes(data)?;
        let sections = build_sections(data, &l)?;
        let entry = Address::new(l.headers.entry_rva, &l)?;
        let exports = dump_exports(data, &l, policy)?;
        let headers = vstd::slice::slice_subrange(data, 0, l.headers.headers_size as usize);
        Ok(Pe { base: l.headers.image_base, headers, sections, entry, exports })
    }

    /// Parses `data` as a PE image, skipping exports whose address has no file offset.
    pub fn parse(data: &'a [u8]) -> (r: Result<Pe<'a>, ParseError>)
        ensures
            parsed_as(data@, ExportPolicy::Lenient, r),
    {
        Pe::parse_with(data, ExportPolicy::Lenient)
    }
}

/// Two sections that agree on everything a caller can read.
pub open spec fn same_section(s: Section, t: Section) -> bool {
    &&& s.name@ == t.name@
    &&& s.bytes@ == t.bytes@
    &&& s.virtual_range == t.virtual_range
    &&& s.executable == t.executable
    &&& s.writeable == t.writeable
}

/// Two images that agree on everything a caller can read.
pub open spec fn same_image(p: Pe, q: Pe) -> bool {
    &&& p.base == q.base
    &&& p.headers@ == q.headers@
    &&& p.entry == q.entry
    &&& p.sections@.len() == q.sections@.len()
    &&& forall|i: int|
        0 <= i < p.sections@.len() ==> same_section(#[trigger] p.sections@[i], q.sections@[i])
    &&& p.exports@.map_values(|e: Export| e@) == q.exports@.map_values(|e: Export| e@)
}

/// Outside the header region, the entry point's file offset is what one finds by hand:
/// take the first section whose virtual range holds the entry RVA, and add the RVA's
/// distance from that section's virtual start to the section's raw pointer. The
/// offset then lies within the section's raw data.
pub proof fn lemma_entry_offset(b: Seq<u8>, policy: ExportPolicy, r: Result<Pe, ParseError>, i: int)
    requires
        parsed_as(b, policy, r),
        r is Ok,
        ({
            let l = layout_of(b)->Ok_0;
            &&& l.headers.entry_rva >= l.headers.headers_size
            &&& 0 <= i < l.sections.len()
            &&& holds_rva(l.sections[i], l.headers.entry_rva as int)
            &&& forall|j: int|
                0 <= j < i ==> !holds_rva(#[trigger] l.sections[j], l.headers.entry_rva as int)
        }),
    ensures
        ({
            let l = layout_of(b)->Ok_0;
            let s = l.sections[i];
            &&& r->Ok_0.entry.offset == s.raw_pointer + l.headers.entry_rva - s.virtual_address
            &&& r->Ok_0.entry.offset < s.raw_pointer + s.raw_size
        }),
{
    let l = layout_of(b)->Ok_0;
    lemma_first_holding(l.sections, l.headers.entry_rva as int, i, 0);
}

/// Inside the header region, the entry point's file offset is its RVA.
pub proof fn lemma_entry_in_headers(b: Seq<u8>, policy: ExportPolicy, r: Result<Pe, ParseError>)
    requires
        parsed_as(b, policy, r),
        r is Ok,
        layout_of(b)->Ok_0.headers.entry_rva < layout_of(b)->Ok_0.headers.headers_size,
    ensures
        r->Ok_0.entry.offset == r->Ok_0.entry.rva,
{
}

/// A buffer shorter than the DOS header never parses: it fails with `InvalidFormat`.
pub proof fn lemma_short_buffer(b: Seq<u8>, policy: ExportPolicy, r: Result<Pe, ParseError>)
    requires
        b.len() < MIN_HEADER_SIZE,
        parsed_as(b, policy, r),
    ensures
        r == Err::<Pe, ParseError>(ParseError::InvalidFormat),
{
}

/// A well-formed image without an export directory parses, with no exports and one
/// section for each entry of its section table.
pub proof fn lemma_no_export_directory(b: Seq<u8>, policy: ExportPolicy, r: Result<Pe, ParseError>)
    requires
        parsed_as(b, policy, r),
        layout_of(b) is Ok,
        layout_of(b)->Ok_0.headers.export_rva == 0,
        names_valid(b, layout_of(b)->Ok_0.sections),
        layout_of(b)->Ok_0.offset_of(layout_of(b)->Ok_0.headers.entry_rva as int) is Some,
    ensures
        r is Ok,
        r->Ok_0.exports@.len() == 0,
        r->Ok_0.sections@.len() == layout_of(b)->Ok_0.headers.section_count,
{
    assert(r->Ok_0.exports@.map_values(|e: Export| e@).len() == 0);
}

/// A section whose raw range runs past the end of the image gets the bytes from its
/// raw pointer (clipped) to the end of the image, and no more.
pub proof fn lemma_section_clipped(s: Section, b: Seq<u8>, h: SectionHeader, name: Seq<char>)
    requires
        section_from(s, b, h, name),
        h.raw_pointer + h.raw_size > b.len(),
    ensures
        s.bytes@ == b.subrange(clip(h.raw_pointer as int, b.len() as int), b.len() as int),
        s.bytes@.len() == b.len() - clip(h.raw_pointer as int, b.len() as int),
{
}

/// Parsing is deterministic: two parses of one buffer under one policy fail alike, or
/// both succeed with images that agree on everything a caller can read.
pub proof fn lemma_parse_deterministic(
    b: Seq<u8>,
    policy: ExportPolicy,
    r1: Result<Pe, ParseError>,
    r2: Result<Pe, ParseError>,
)
    requires
        parsed_as(b, policy, r1),
        parsed_as(b, policy, r2),
    ensures
        r1 is Err ==> r1 == r2,
        r1 is Ok ==> r2 is Ok && same_image(r1->Ok_0, r2->Ok_0),
{
    if r1 is Ok {
        let l = layout_of(b)->Ok_0;
        let p = r1->Ok_0;
        let q = r2->Ok_0;
        assert forall|i: int| 0 <= i < p.sections@.len() implies same_section(
            #[trigger] p.sections@[i],
            q.sections@[i],
        ) by {
            let n = section_name(b, l.sections[i]);
            assert(section_from(p.sections@[i], b, l.sections[i], n));
            assert(section_from(q.sections@[i], b, l.sections[i], n));
        }
    }
}

} // verus!
