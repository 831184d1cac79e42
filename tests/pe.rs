use libstudio_file::{
    classify, dump_exports, Address, ExportPolicy, ImageKind, Layout, ParseError, Pe, Section,
    MEM_EXECUTE, MEM_WRITE,
};

const OPT: usize = 0x58;

fn put16(b: &mut [u8], at: usize, v: u16) {
    b[at..at + 2].copy_from_slice(&v.to_le_bytes());
}

fn put32(b: &mut [u8], at: usize, v: u32) {
    b[at..at + 4].copy_from_slice(&v.to_le_bytes());
}

fn put64(b: &mut [u8], at: usize, v: u64) {
    b[at..at + 8].copy_from_slice(&v.to_le_bytes());
}

struct Sec {
    name: [u8; 8],
    vsize: u32,
    va: u32,
    raw_size: u32,
    raw_ptr: u32,
    flags: u32,
}

fn text() -> Sec {
    Sec {
        name: *b".text\0\0\0",
        vsize: 0x200,
        va: 0x1000,
        raw_size: 0x200,
        raw_ptr: 0x400,
        flags: 0x6000_0020,
    }
}

fn opt_size(wide: bool) -> usize {
    if wide {
        240
    } else {
        224
    }
}

/// A minimal image: DOS header, NT headers, section table, headers of 0x400 bytes.
fn image(wide: bool, entry: u32, secs: &[Sec], len: usize) -> Vec<u8> {
    let mut b = vec![0u8; len];
    b[0] = b'M';
    b[1] = b'Z';
    put32(&mut b, 0x3c, 0x40);
    b[0x40..0x44].copy_from_slice(b"PE\0\0");
    put16(&mut b, 0x44, if wide { 0x8664 } else { 0x14c });
    put16(&mut b, 0x46, secs.len() as u16);
    put16(&mut b, 0x54, opt_size(wide) as u16);
    put16(&mut b, OPT, if wide { 0x20b } else { 0x10b });
    put32(&mut b, OPT + 16, entry);
    if wide {
        put64(&mut b, OPT + 24, 0x1_4000_0000);
        put32(&mut b, OPT + 108, 16);
    } else {
        put32(&mut b, OPT + 28, 0x40_0000);
        put32(&mut b, OPT + 92, 16);
    }
    put32(&mut b, OPT + 60, 0x400);
    let table = OPT + opt_size(wide);
    for (i, s) in secs.iter().enumerate() {
        let at = table + 40 * i;
        b[at..at + 8].copy_from_slice(&s.name);
        put32(&mut b, at + 8, s.vsize);
        put32(&mut b, at + 12, s.va);
        put32(&mut b, at + 16, s.raw_size);
        put32(&mut b, at + 20, s.raw_ptr);
        put32(&mut b, at + 36, s.flags);
    }
    b
}

fn set_export_dir(b: &mut [u8], wide: bool, rva: u32, size: u32) {
    let dirs = OPT + if wide { 112 } else { 96 };
    put32(b, dirs, rva);
    put32(b, dirs + 4, size);
}

/// An export directory at RVA 0x1100 (offset 0x500) of `text()`, naming
/// `alpha` -> functions[0] and `beta` -> functions[1].
fn with_exports(functions: [u32; 2]) -> Vec<u8> {
    let mut b = image(true, 0x1050, &[text()], 0x600);
    set_export_dir(&mut b, true, 0x1100, 0x28);
    put32(&mut b, 0x500 + 20, 2);
    put32(&mut b, 0x500 + 24, 2);
    put32(&mut b, 0x500 + 28, 0x1140);
    put32(&mut b, 0x500 + 32, 0x1150);
    put32(&mut b, 0x500 + 36, 0x1160);
    put32(&mut b, 0x540, functions[0]);
    put32(&mut b, 0x544, functions[1]);
    put32(&mut b, 0x550, 0x1170);
    put32(&mut b, 0x554, 0x1178);
    put16(&mut b, 0x560, 0);
    put16(&mut b, 0x562, 1);
    b[0x570..0x576].copy_from_slice(b"alpha\0");
    b[0x578..0x57d].copy_from_slice(b"beta\0");
    b
}

#[test]
fn entry_offset_of_synthetic_64_bit_image() {
    let b = image(true, 0x1050, &[text()], 0x600);
    let pe = Pe::parse(&b).unwrap();
    assert_eq!(pe.entry, Address { offset: 0x450, rva: 0x1050 });
    assert_eq!(pe.base, 0x1_4000_0000);
    assert_eq!(pe.headers.len(), 0x400);
}

#[test]
fn entry_offset_of_32_bit_image() {
    let mut s = text();
    s.va = 0x2000;
    s.raw_ptr = 0x480;
    s.raw_size = 0x100;
    let b = image(false, 0x2010, &[s], 0x600);
    let pe = Pe::parse(&b).unwrap();
    assert_eq!(pe.entry.offset, 0x480 + (0x2010 - 0x2000));
    assert_eq!(pe.base, 0x40_0000);
    assert_eq!(classify(&b).unwrap().kind, ImageKind::Pe32);
    assert_eq!(classify(&image(true, 0, &[], 0x400)).unwrap().kind, ImageKind::Pe64);
}

#[test]
fn entry_in_header_region_maps_to_itself() {
    let b = image(true, 0x10, &[text()], 0x600);
    assert_eq!(Pe::parse(&b).unwrap().entry.offset, 0x10);
}

#[test]
fn short_buffer_is_invalid_format() {
    let full = image(true, 0x1050, &[text()], 0x600);
    for n in 0..64 {
        assert!(matches!(Pe::parse(&full[..n]), Err(ParseError::InvalidFormat)));
    }
}

#[test]
fn bad_magics_are_invalid_format() {
    let good = image(true, 0x1050, &[text()], 0x600);
    let mut dos = good.clone();
    dos[1] = b'X';
    let mut sig = good.clone();
    sig[0x42] = 1;
    let mut opt = good.clone();
    put16(&mut opt, OPT, 0x107);
    let mut lfanew = good.clone();
    put32(&mut lfanew, 0x3c, 0x5f0);
    for b in [dos, sig, opt, lfanew] {
        assert!(matches!(Pe::parse(&b), Err(ParseError::InvalidFormat)));
    }
}

#[test]
fn header_size_past_buffer_is_invalid_format() {
    let mut b = image(true, 0x1050, &[text()], 0x600);
    put32(&mut b, OPT + 60, 0x601);
    assert!(matches!(Pe::parse(&b), Err(ParseError::InvalidFormat)));
}

#[test]
fn section_table_past_buffer_is_invalid_format() {
    let mut b = image(true, 0x10, &[text()], 0x600);
    b.truncate(0x160);
    assert!(matches!(classify(&b), Err(ParseError::InvalidFormat)));
}

#[test]
fn no_export_directory_gives_empty_exports() {
    let mut data = text();
    data.name = *b".data\0\0\0";
    data.va = 0x2000;
    data.raw_ptr = 0x500;
    data.raw_size = 0x100;
    data.flags = 0xc000_0040;
    let b = image(true, 0x1050, &[text(), data], 0x600);
    let pe = Pe::parse(&b).unwrap();
    assert!(pe.exports.is_empty());
    assert_eq!(pe.sections.len(), 2);
    assert_eq!(pe.sections[0].name, ".text");
    assert_eq!(pe.sections[1].name, ".data");
    assert!(pe.sections[0].executable && !pe.sections[0].writeable);
    assert!(!pe.sections[1].executable && pe.sections[1].writeable);
    assert_eq!(pe.sections[1].virtual_range, 0x2000..0x2200);
    assert_eq!(pe.sections[1].bytes.len(), 0x100);
}

#[test]
fn section_bytes_are_clipped_to_buffer() {
    let mut s = text();
    s.raw_size = 0x400;
    let mut b = image(true, 0x1050, &[s], 0x600);
    b[0x5ff] = 0xab;
    let pe = Pe::parse(&b).unwrap();
    assert_eq!(pe.sections[0].bytes.len(), 0x200);
    assert_eq!(pe.sections[0].bytes[0x1ff], 0xab);

    let mut far = text();
    far.raw_ptr = 0x900;
    let b = image(true, 0x10, &[far], 0x600);
    assert!(Pe::parse(&b).unwrap().sections[0].bytes.is_empty());
}

#[test]
fn non_utf8_section_name_is_rejected() {
    let mut s = text();
    s.name = *b".te\xffxt\0\0";
    let b = image(true, 0x1050, &[s], 0x600);
    assert!(matches!(Pe::parse(&b), Err(ParseError::InvalidSectionName)));
}

#[test]
fn padded_ascii_name_decodes() {
    let b = image(true, 0x1050, &[text()], 0x600);
    let l = Layout::from_bytes(&b).unwrap();
    let s = Section::new(&l.sections[0], &b).unwrap();
    assert_eq!(s.name, ".text");
    let mut full = text();
    full.name = *b"abcdefgh";
    let b = image(true, 0x1050, &[full], 0x600);
    assert_eq!(Pe::parse(&b).unwrap().sections[0].name, "abcdefgh");
    let mut accented = text();
    accented.name = *b"\xc3\xa9t\xc3\xa9\0\0\0";
    let b = image(true, 0x1050, &[accented], 0x600);
    let pe = Pe::parse(&b).unwrap();
    assert_eq!(pe.sections[0].name, "\u{e9}t\u{e9}");
    assert_eq!(pe.sections[0].name.chars().count(), 3);
}

#[test]
fn reparse_gives_equal_images() {
    let b = with_exports([0x1010, 0x1020]);
    let p = Pe::parse(&b).unwrap();
    let q = Pe::parse(&b).unwrap();
    assert_eq!(format!("{:?}", p), format!("{:?}", q));
    assert_eq!(p.entry, q.entry);
    assert_eq!(p.exports.len(), q.exports.len());
}

#[test]
fn entry_outside_every_section_is_out_of_range() {
    let b = image(true, 0x9000, &[text()], 0x600);
    assert!(matches!(Pe::parse(&b), Err(ParseError::AddressOutOfRange)));
}

#[test]
fn entry_in_zero_fill_tail_is_out_of_range() {
    let mut s = text();
    s.vsize = 0x300;
    let b = image(true, 0x1250, &[s], 0x600);
    assert!(matches!(Pe::parse(&b), Err(ParseError::AddressOutOfRange)));
}

#[test]
fn first_section_wins_on_overlap() {
    let mut second = text();
    second.raw_ptr = 0x500;
    second.raw_size = 0x100;
    let b = image(true, 0x1050, &[text(), second], 0x600);
    let l = Layout::from_bytes(&b).unwrap();
    assert_eq!(l.rva_to_offset(0x1050), Ok(0x450));
    assert_eq!(Address::new(0x1080, &l), Ok(Address { offset: 0x480, rva: 0x1080 }));
    assert_eq!(l.rva_to_offset(0x1200), Err(ParseError::AddressOutOfRange));
}

#[test]
fn named_exports_are_resolved() {
    let b = with_exports([0x1010, 0x1020]);
    let pe = Pe::parse(&b).unwrap();
    assert_eq!(pe.exports.len(), 2);
    assert_eq!(pe.exports[0].name, "alpha");
    assert_eq!(pe.exports[0].addr, Address { offset: 0x410, rva: 0x1010 });
    assert_eq!(pe.exports[1].name, "beta");
    assert_eq!(pe.exports[1].addr, Address { offset: 0x420, rva: 0x1020 });
}

#[test]
fn lenient_policy_skips_unresolved_export() {
    let b = with_exports([0x1010, 0x5000]);
    let pe = Pe::parse_with(&b, ExportPolicy::Lenient).unwrap();
    assert_eq!(pe.exports.len(), 1);
    assert_eq!(pe.exports[0].name, "alpha");
}

#[test]
fn strict_policy_fails_on_unresolved_export() {
    let b = with_exports([0x1010, 0x5000]);
    assert!(matches!(
        Pe::parse_with(&b, ExportPolicy::Strict),
        Err(ParseError::AddressOutOfRange)
    ));
    let l = Layout::from_bytes(&b).unwrap();
    assert!(matches!(
        dump_exports(&b, &l, ExportPolicy::Strict),
        Err(ParseError::AddressOutOfRange)
    ));
}

#[test]
fn forwarder_exports_are_skipped() {
    let b = with_exports([0x1120, 0x1020]);
    let pe = Pe::parse(&b).unwrap();
    assert_eq!(pe.exports.len(), 1);
    assert_eq!(pe.exports[0].name, "beta");
}

#[test]
fn non_utf8_export_name_is_skipped() {
    let mut b = with_exports([0x1010, 0x1020]);
    b[0x571] = 0xff;
    let pe = Pe::parse(&b).unwrap();
    assert_eq!(pe.exports.len(), 1);
    assert_eq!(pe.exports[0].name, "beta");
}

#[test]
fn unresolvable_export_directory_is_an_error() {
    let mut b = image(true, 0x1050, &[text()], 0x600);
    set_export_dir(&mut b, true, 0x9000, 0x28);
    assert!(matches!(Pe::parse(&b), Err(ParseError::ExportDirectoryError)));
}

#[test]
fn ordinal_past_function_table_is_an_error() {
    let mut b = with_exports([0x1010, 0x1020]);
    put16(&mut b, 0x562, 2);
    assert!(matches!(Pe::parse(&b), Err(ParseError::ExportDirectoryError)));
}

#[test]
fn section_flags_follow_characteristics() {
    let b = image(true, 0x1050, &[text()], 0x600);
    let l = Layout::from_bytes(&b).unwrap();
    let mut h = l.sections[0];
    h.characteristics = MEM_EXECUTE | MEM_WRITE;
    let s = Section::new(&h, &b).unwrap();
    assert!(s.executable && s.writeable);
    assert_eq!(s.virtual_range, 0x1000..0x1200);
    assert_eq!(s.bytes, &b[0x400..0x600]);
}

#[test]
fn unterminated_export_name_is_skipped() {
    let mut b = with_exports([0x1010, 0x1020]);
    put32(&mut b, 0x554, 0x11fc);
    b[0x5fc..0x600].copy_from_slice(b"abcd");
    let pe = Pe::parse(&b).unwrap();
    assert_eq!(pe.exports.len(), 1);
    assert_eq!(pe.exports[0].name, "alpha");
}
