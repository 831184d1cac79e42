use vstd::prelude::*;

use crate::bytes::{read_u16, read_u32, u16_le, u32_le};
use crate::error::ParseError;
use crate::layout::{Layout, LayoutView};
use crate::section::utf8_decode;

verus! {

/// Size of the export directory table.
pub const EXPORT_DIRECTORY_SIZE: usize = 40;

/// An RVA together with the file offset it translates to.
#[derive(Clone, Copy, Debug, PartialEq, Eq, Structural)]
pub struct Address {
    pub offset: usize,
    pub rva: u32,
}

impl Address {
    /// Translates `rva` through `layout`; the offset then lies inside the image.
    pub fn new(rva: u32, layout: &Layout) -> (r: Result<Address, ParseError>)
        requires
            layout.wf(),
        ensures
            match layout@.offset_of(rva as int) {
                Some(o) => r is Ok && r->Ok_0.offset == o && r->Ok_0.rva == rva,
                None => r == Err::<Address, ParseError>(ParseError::AddressOutOfRange),
            },
            r is Ok ==> r->Ok_0.offset < layout.image_len,
    {
        let offset = layout.rva_to_offset(rva)?;
        Ok(Address { offset, rva })
    }
}

/// A named export and where it lives.
#[derive(Debug)]
pub struct Export {
    pub name: String,
    pub addr: Address,
}

impl View for Export {
    type V = (Seq<char>, Address);

    open spec fn view(&self) -> (Seq<char>, Address) {
        (self.name@, self.addr)
    }
}

/// What to do with a named export whose address has no file offset.
#[derive(Clone, Copy, Debug, PartialEq, Eq, Structural)]
pub enum ExportPolicy {
    /// Skip that export and go on.
    Lenient,
    /// Fail the whole parse with `AddressOutOfRange`.
    Strict,
}

/// The export directory of an image, with its three tables located in the file.
#[derive(Clone, Copy, Debug, PartialEq, Eq, Structural)]
pub struct ExportDirectory {
    pub rva: u32,
    pub size: u32,
    pub function_count: u32,
    pub name_count: u32,
    /// File offsets of the tables; zero for an empty table.
    pub functions: usize,
    pub names: usize,
    pub ordinals: usize,
}

/// File offset of a table of `count` entries of `width` bytes at `rva`, where it lies
/// whole in the image.
pub open spec fn table_at(l: LayoutView, rva: int, count: int, width: int) -> Option<int> {
    if count == 0 {
        Some(0)
    } else {
        match l.offset_of(rva) {
            Some(o) => if o + count * width <= l.image_len {
                Some(o)
            } else {
                None
            },
            None => None,
        }
    }
}

/// The export directory of image `b`: none where the data directory is empty, an error
/// where it or one of its tables cannot be located.
pub open spec fn export_directory_of(b: Seq<u8>, l: LayoutView) -> Result<
    Option<ExportDirectory>,
    ParseError,
> {
    let rva = l.headers.export_rva;
    if rva == 0 {
        Ok(None)
    } else {
        match l.offset_of(rva as int) {
            None => Err(ParseError::ExportDirectoryError),
            Some(d) => if d + EXPORT_DIRECTORY_SIZE > l.image_len {
                Err(ParseError::ExportDirectoryError)
            } else {
                let nf = u32_le(b, d + 20);
                let nn = u32_le(b, d + 24);
                match (
                    table_at(l, u32_le(b, d + 28), nf, 4),
                    table_at(l, u32_le(b, d + 32), nn, 4),
                    table_at(l, u32_le(b, d + 36), nn, 2),
                ) {
                    (Some(f), Some(n), Some(o)) => Ok(
                        Some(
                            ExportDirectory {
                                rva,
                                size: l.headers.export_size,
                                function_count: nf as u32,
                                name_count: nn as u32,
                                functions: f as usize,
                                names: n as usize,
                                ordinals: o as usize,
                            },
                        ),
                    ),
                    _ => Err(ParseError::ExportDirectoryError),
                }
            },
        }
    }
}

/// The three tables of `d` lie in an image of `len` bytes.
pub open spec fn tables_fit(d: ExportDirectory, len: int) -> bool {
    &&& d.function_count > 0 ==> d.functions + 4 * d.function_count <= len
    &&& d.name_count > 0 ==> d.names + 4 * d.name_count <= len
    &&& d.name_count > 0 ==> d.ordinals + 2 * d.name_count <= len
}

/// Position of the first nul byte of `b` at or after `i`.
pub open spec fn nul_from(b: Seq<u8>, i: int) -> Option<int>
    decreases b.len() - i,
{
    if i < 0 || i >= b.len() {
        None
    } else if b[i] == 0u8 {
        Some(i)
    } else {
        nul_from(b, i + 1)
    }
}

/// The nul-terminated UTF-8 string at `rva`, if there is one.
pub open spec fn c_string_at(b: Seq<u8>, l: LayoutView, rva: int) -> Option<Seq<char>> {
    match l.offset_of(rva) {
        None => None,
        Some(o) => match nul_from(b, o) {
            None => None,
            Some(e) => utf8_decode(b.subrange(o, e)),
        },
    }
}

/// Whether `rva` points back into the export directory, as a forwarder's string does.
pub open spec fn is_forwarder(d: ExportDirectory, rva: int) -> bool {
    d.rva <= rva && rva < d.rva + d.size
}

/// The export named by entry `i` of the name table: none for a forwarder, a null
/// address or an unreadable name, and, under the lenient policy, for an address
/// without file offset.
pub open spec fn export_entry(
    b: Seq<u8>,
    l: LayoutView,
    d: ExportDirectory,
    policy: ExportPolicy,
    i: int,
) -> Result<Option<(Seq<char>, Address)>, ParseError> {
    let ordinal = u16_le(b, d.ordinals + 2 * i);
    if ordinal >= d.function_count {
        Err(ParseError::ExportDirectoryError)
    } else {
        let f = u32_le(b, d.functions + 4 * ordinal);
        if f == 0 || is_forwarder(d, f) {
            Ok(None)
        } else {
            match c_string_at(b, l, u32_le(b, d.names + 4 * i)) {
                None => Ok(None),
                Some(name) => match l.offset_of(f) {
                    Some(o) => Ok(Some((name, Address { offset: o as usize, rva: f as u32 }))),
                    None => if policy == ExportPolicy::Strict {
                        Err(ParseError::AddressOutOfRange)
                    } else {
                        Ok(None)
                    },
                },
            }
        }
    }
}

/// The exports named by the first `n` entries of the name table, in table order.
pub open spec fn exports_upto(
    b: Seq<u8>,
    l: LayoutView,
    d: ExportDirectory,
    policy: ExportPolicy,
    n: int,
) -> Result<Seq<(Seq<char>, Address)>, ParseError>
    decreases n,
{
    if n <= 0 {
        Ok(Seq::empty())
    } else {
        match exports_upto(b, l, d, policy, n - 1) {
            Err(e) => Err(e),
            Ok(s) => match export_entry(b, l, d, policy, n - 1) {
                Err(e) => Err(e),
                Ok(None) => Ok(s),
                Ok(Some(x)) => Ok(s.push(x)),
            },
        }
    }
}

/// All named exports of image `b`: empty where there is no export directory.
pub open spec fn exports_of(b: Seq<u8>, l: LayoutView, policy: ExportPolicy) -> Result<
    Seq<(Seq<char>, Address)>,
    ParseError,
> {
    match export_directory_of(b, l) {
        Err(e) => Err(e),
        Ok(None) => Ok(Seq::empty()),
        Ok(Some(d)) => exports_upto(b, l, d, policy, d.name_count as int),
    }
}

proof fn lemma_error_stays(
    b: Seq<u8>,
    l: LayoutView,
    d: ExportDirectory,
    policy: ExportPolicy,
    k: int,
    m: int,
)
    requires
        0 <= k <= m,
        exports_upto(b, l, d, policy, k) is Err,
    ensures
        exports_upto(b, l, d, policy, m) == exports_upto(b, l, d, policy, k),
    decreases m - k,
{
    if k < m {
        lemma_error_stays(b, l, d, policy, k, m - 1);
    }
}

/// Relies on `pelite::util::CStr::from_bytes`, which ends the string at the first nul
/// byte and finds none without one, and on `CStr::to_str`, which decodes the bytes before
/// that nul with `std::str::from_utf8`.
#[verifier::external_body]
fn c_str_prefix(b: &[u8]) -> (r: Option<String>)
    ensures
        match nul_from(b@, 0) {
            None => r is None,
            Some(e) => match utf8_decode(b@.subrange(0, e)) {
                Some(s) => r is Some && r->0@ == s,
                None => r is None,
            },
        },
{
    match pelite::util::CStr::from_bytes(b) {
        Some(c) => match c.to_str() {
            Ok(s) => Some(String::from(s)),
            Err(_) => None,
        },
        None => None,
    }
}

/// A nul found from `o` on in `b` is the one found from the start of `b[o..]`, shifted.
proof fn lemma_nul_shift(b: Seq<u8>, o: int, i: int)
    requires
        0 <= o <= i <= b.len(),
    ensures
        nul_from(b, i) == (match nul_from(b.subrange(o, b.len() as int), i - o) {
            Some(e) => Some(e + o),
            None => None::<int>,
        }),
        nul_from(b, i) matches Some(e) ==> i <= e < b.len(),
    decreases b.len() - i,
{
    if i < b.len() {
        lemma_nul_shift(b, o, i + 1);
    }
}

fn read_c_string(b: &[u8], l: &Layout, rva: u32) -> (r: Option<String>)
    requires
        l.wf(),
        l.image_len == b@.len(),
    ensures
        match c_string_at(b@, l@, rva as int) {
            Some(s) => r is Some && r->0@ == s,
            None => r is None,
        },
{
    let o = match l.rva_to_offset(rva) {
        Ok(o) => o,
        Err(_) => return None,
    };
    let rest = vstd::slice::slice_subrange(b, o, b.len());
    proof {
        lemma_nul_shift(b@, o as int, o as int);
        if let Some(e) = nul_from(b@, o as int) {
            assert(rest@.subrange(0, e - o) =~= b@.subrange(o as int, e));
        }
    }
    c_str_prefix(rest)
}

fn locate_table(l: &Layout, rva: u32, count: u32, width: u32) -> (r: Option<usize>)
    requires
        l.wf(),
        width <= 4,
    ensures
        match table_at(l@, rva as int, count as int, width as int) {
            Some(o) => r is Some && r->0 == o,
            None => r is None,
        },
{
    if count == 0 {
        return Some(0);
    }
    assert(count * width <= 0x4_0000_0000) by (nonlinear_arith)
        requires
            count <= u32::MAX,
            width <= 4,
    ;
    match l.rva_to_offset(rva) {
        Ok(o) => if count as u64 * width as u64 <= (l.image_len - o) as u64 {
            Some(o)
        } else {
            None
        },
        Err(_) => None,
    }
}

fn read_export_directory(b: &[u8], l: &Layout) -> (r: Result<Option<ExportDirectory>, ParseError>)
    requires
        l.wf(),
        l.image_len == b@.len(),
    ensures
        r == export_directory_of(b@, l@),
        r matches Ok(Some(d)) ==> tables_fit(d, b@.len() as int),
{
    let rva = l.headers.export_rva;
    if rva == 0 {
        return Ok(None);
    }
    let d = match l.rva_to_offset(rva) {
        Ok(d) => d,
        Err(_) => return Err(ParseError::ExportDirectoryError),
    };
    if EXPORT_DIRECTORY_SIZE > b.len() - d {
        return Err(ParseError::ExportDirectoryError);
    }
    let nf = read_u32(b, d + 20);
    let nn = read_u32(b, d + 24);
    let f = locate_table(l, read_u32(b, d + 28), nf, 4);
    let n = locate_table(l, read_u32(b, d + 32), nn, 4);
    let o = locate_table(l, read_u32(b, d + 36), nn, 2);
    match (f, n, o) {
        (Some(f), Some(n), Some(o)) => Ok(
            Some(
                ExportDirectory {
                    rva,
                    size: l.headers.export_size,
                    function_count: nf,
                    name_count: nn,
                    functions: f,
                    names: n,
                    ordinals: o,
                },
            ),
        ),
        _ => Err(ParseError::ExportDirectoryError),
    }
}

fn read_export_entry(
    b: &[u8],
    l: &Layout,
    d: &ExportDirectory,
    policy: ExportPolicy,
    i: u32,
) -> (r: Result<Option<Export>, ParseError>)
    requires
        l.wf(),
        l.image_len == b@.len(),
        tables_fit(*d, b@.len() as int),
        i < d.name_count,
    ensures
        match export_entry(b@, l@, *d, policy, i as int) {
            Ok(Some(x)) => r is Ok && r->Ok_0 is Some && r->Ok_0->0@ == x,
            Ok(None) => r == Ok::<Option<Export>, ParseError>(None),
            Err(e) => r == Err::<Option<Export>, ParseError>(e),
        },
{
    let len = b.len();
    assert(d.ordinals + 2 * i + 2 <= len && d.names + 4 * i + 4 <= len) by (nonlinear_arith)
        requires
            i < d.name_count,
            d.ordinals + 2 * d.name_count <= len,
            d.names + 4 * d.name_count <= len,
    ;
    let ordinal = read_u16(b, d.ordinals + 2 * i as usize);
    if ordinal as u32 >= d.function_count {
        return Err(ParseError::ExportDirectoryError);
    }
    assert(d.functions + 4 * ordinal + 4 <= len) by (nonlinear_arith)
        requires
            ordinal < d.function_count,
            d.functions + 4 * d.function_count <= len,
    ;
    let f = read_u32(b, d.functions + 4 * ordinal as usize);
    if f == 0 || (d.rva <= f && (f as u64) < d.rva as u64 + d.size as u64) {
        return Ok(None);
    }
    let name = match read_c_string(b, l, read_u32(b, d.names + 4 * i as usize)) {
        Some(name) => name,
        None => return Ok(None),
    };
    match Address::new(f, l) {
        Ok(addr) => Ok(Some(Export { name, addr })),
        Err(e) => match policy {
            ExportPolicy::Strict => Err(e),
            ExportPolicy::Lenient => Ok(None),
        },
    }
}

/// Reads the named exports of image `b` in name-table order. A missing export directory
/// gives an empty list; a corrupt one fails with `ExportDirectoryError`.
pub fn dump_exports(b: &[u8], l: &Layout, policy: ExportPolicy) -> (r: Result<
    Vec<Export>,
    ParseError,
>)
    requires
        l.wf(),
        l.image_len == b@.len(),
    ensures
        match exports_of(b@, l@, policy) {
            Ok(s) => r is Ok && r->Ok_0@.map_values(|e: Export| e@) == s,
            Err(e) => r == Err::<Vec<Export>, ParseError>(e),
        },
{
    let d = match read_export_directory(b, l)? {
        Some(d) => d,
        None => {
            let v: Vec<Export> = Vec::new();
            assert(v@.map_values(|e: Export| e@) =~= Seq::<(Seq<char>, Address)>::empty());
            return Ok(v);
        },
    };
    let mut res: Vec<Export> = Vec::new();
    let mut i: u32 = 0;
    assert(res@.map_values(|e: Export| e@) =~= Seq::<(Seq<char>, Address)>::empty());
    while i < d.name_count
        invariant
            l.wf(),
            l.image_len == b@.len(),
            tables_fit(d, b@.len() as int),
            export_directory_of(b@, l@) == Ok::<Option<ExportDirectory>, ParseError>(Some(d)),
            i <= d.name_count,
            exports_upto(b@, l@, d, policy, i as int) is Ok,
            res@.map_values(|e: Export| e@) == exports_upto(b@, l@, d, policy, i as int)->Ok_0,
        decreases d.name_count - i,
    {
        match read_export_entry(b, l, &d, policy, i) {
            Ok(Some(x)) => {
                res.push(x);
                assert(res@.map_values(|e: Export| e@) =~= exports_upto(
                    b@,
                    l@,
                    d,
                    policy,
                    i + 1,
                )->Ok_0);
            },
            Ok(None) => {},
            Err(e) => {
                proof {
                    lemma_error_stays(b@, l@, d, policy, i + 1, d.name_count as int);
                }
                return Err(e);
            },
        }
        i += 1;
    }
    Ok(res)
}

} // verus!
