use ds_store::DsStoreParser;
use ds_store::ParseError;

fn put_block(buf: &mut Vec<u8>, off: usize, val: u32) {
    let b = val.to_be_bytes();
    buf[off..off + 4].copy_from_slice(&b);
}

const SIGNATURE: [u8; 8] = [0x00, 0x00, 0x00, 0x01, 0x42, 0x75, 0x64, 0x31];

const TERMINATOR: [u8; 12] = [
    0x76, 0x53, 0x72, 0x6e, 0x6c, 0x6f, 0x6e, 0x67, 0x00, 0x00, 0x00, 0x01,
];

/// A fully well-formed buffer: signature, matching header offsets, a
/// two-entry allocation index, root name `DSDB`, and one leaf page with a
/// single record `Desktop`.
fn build_valid_buffer() -> Vec<u8> {
    let mut b = vec![0u8; 158];
    b[0..8].copy_from_slice(&SIGNATURE);
    put_block(&mut b, 8, 44); // root offset minus one block
    put_block(&mut b, 16, 44); // redundant copy, must match
    put_block(&mut b, 48, 2); // allocation entry count at root offset 48
    put_block(&mut b, 56, 96); // entry 0: resolves to offset 100
    put_block(&mut b, 60, 128); // entry 1: resolves to offset 132
    b[77..81].copy_from_slice(b"DSDB"); // root name, content region at 72
    put_block(&mut b, 81, 0); // root logical index
    put_block(&mut b, 100, 1); // index page: second logical index
    put_block(&mut b, 132, 0); // directory page: leaf mode tag
    put_block(&mut b, 136, 1); // record count
    put_block(&mut b, 140, 7); // record size in UTF-16 code units
    let name: [u8; 14] = [
        0x00, 0x44, 0x00, 0x65, 0x00, 0x73, 0x00, 0x6b, 0x00, 0x74, 0x00, 0x6f, 0x00, 0x70,
    ];
    b[144..158].copy_from_slice(&name); // "Desktop"
    b
}

#[test]
fn confirm_signature_short_buffer() {
    let parser = DsStoreParser::new();
    assert!(!parser.confirm_signature(&vec![]));
    assert!(!parser.confirm_signature(&vec![0x00]));
    assert!(!parser.confirm_signature(&SIGNATURE[0..7].to_vec()));
}

#[test]
fn confirm_signature_accepts_signature() {
    let parser = DsStoreParser::new();
    assert!(parser.confirm_signature(&SIGNATURE.to_vec()));
    let mut longer = SIGNATURE.to_vec();
    longer.push(0xab);
    assert!(parser.confirm_signature(&longer));
}

#[test]
fn confirm_signature_rejects_mismatch() {
    let parser = DsStoreParser::new();
    let mut bad = SIGNATURE.to_vec();
    bad[4] = 0x43;
    assert!(!parser.confirm_signature(&bad));
}

#[test]
fn block_is_big_endian() {
    let parser = DsStoreParser::new();
    let buf = vec![0x12, 0x34, 0x56, 0x78];
    assert_eq!(parser.block_to_usize(&buf, 0).ok().unwrap(), 0x12345678);
    let buf2 = vec![0xff, 0x01, 0x02, 0x03, 0x04];
    assert_eq!(parser.block_to_usize(&buf2, 1).ok().unwrap(), 0x01020304);
    assert_eq!(parser.block_to_usize(&buf2, 0).ok().unwrap(), 0xff010203);
}

#[test]
fn block_out_of_range() {
    let parser = DsStoreParser::new();
    let buf = vec![0x12, 0x34, 0x56, 0x78, 0x9a];
    // offset + 4 > len, including offset == len
    assert_eq!(parser.block_to_usize(&buf, 2).err().unwrap(), ParseError::OutOfRange);
    assert_eq!(parser.block_to_usize(&buf, 5).err().unwrap(), ParseError::OutOfRange);
    assert_eq!(parser.block_to_usize(&vec![], 0).err().unwrap(), ParseError::OutOfRange);
    // the last readable offset still succeeds
    assert_eq!(parser.block_to_usize(&buf, 1).ok().unwrap(), 0x3456789a);
}

#[test]
fn resolve_entry_examples() {
    let parser = DsStoreParser::new();
    assert_eq!(parser.entry_index_to_entry_data(0), (4, 1));
    assert_eq!(parser.entry_index_to_entry_data(0x41), (0x44, 2));
    assert_eq!(parser.entry_index_to_entry_data(96), (100, 1));
    assert_eq!(parser.entry_index_to_entry_data(0xffffffff), (0xffffffe4, 0x80000000));
}

#[test]
fn resolve_entry_size_power_of_two() {
    let parser = DsStoreParser::new();
    for e in [0usize, 1, 5, 31, 32, 100, 4096, 0xffffffff] {
        let (_, size) = parser.entry_index_to_entry_data(e);
        assert!(size >= 1);
        assert!(size <= 0x80000000);
        assert_eq!(size & (size - 1), 0);
        // identical input, identical result
        assert_eq!(parser.entry_index_to_entry_data(e), parser.entry_index_to_entry_data(e));
    }
}

#[test]
fn page_nonzero_mode_unsupported() {
    let parser = DsStoreParser::new();
    let mut b = vec![0u8; 16];
    put_block(&mut b, 0, 1); // internal page mode tag
    let r = parser.generate_ds_store_tree(&b, 0);
    assert_eq!(r.err().unwrap(), ParseError::UnsupportedPageMode);
}

#[test]
fn page_two_records() {
    let parser = DsStoreParser::new();
    let mut b = vec![0u8; 32];
    put_block(&mut b, 0, 0); // leaf mode
    put_block(&mut b, 4, 2); // two records
    put_block(&mut b, 8, 1); // first record size
    b[12] = 0x00;
    b[13] = 0x41; // "A"
    b[14..26].copy_from_slice(&TERMINATOR);
    put_block(&mut b, 26, 1); // second record size
    b[30] = 0x00;
    b[31] = 0x42; // "B"
    let nodes = parser.generate_ds_store_tree(&b, 0).ok().unwrap();
    assert_eq!(nodes.len(), 2);
    assert_eq!(nodes[0].name, "A");
    assert_eq!(nodes[1].name, "B");
    assert!(nodes[0].children.is_empty());
    assert!(nodes[1].children.is_empty());
}

#[test]
fn page_truncated_scan_returns_partial() {
    let parser = DsStoreParser::new();
    let mut b = vec![0u8; 14];
    put_block(&mut b, 0, 0); // leaf mode
    put_block(&mut b, 4, 2); // two records promised
    put_block(&mut b, 8, 1); // first record size
    b[12] = 0x00;
    b[13] = 0x41; // "A"; the buffer ends before any terminator
    let nodes = parser.generate_ds_store_tree(&b, 0).ok().unwrap();
    assert_eq!(nodes.len(), 1);
    assert_eq!(nodes[0].name, "A");
}

#[test]
fn page_record_out_of_range() {
    let parser = DsStoreParser::new();
    let mut b = vec![0u8; 12];
    put_block(&mut b, 0, 0);
    put_block(&mut b, 4, 1);
    put_block(&mut b, 8, 100); // name would run far past the buffer
    let r = parser.generate_ds_store_tree(&b, 0);
    assert_eq!(r.err().unwrap(), ParseError::OutOfRange);
}

#[test]
fn record_name_unpaired_surrogate_is_replaced() {
    let parser = DsStoreParser::new();
    let mut b = vec![0u8; 14];
    put_block(&mut b, 0, 0);
    put_block(&mut b, 4, 1);
    put_block(&mut b, 8, 1);
    b[12] = 0xd8;
    b[13] = 0x00; // lone high surrogate
    let nodes = parser.generate_ds_store_tree(&b, 0).ok().unwrap();
    assert_eq!(nodes.len(), 1);
    assert_eq!(nodes[0].name, "\u{fffd}");
}

#[test]
fn record_name_surrogate_pair_combines() {
    let parser = DsStoreParser::new();
    let mut b = vec![0u8; 16];
    put_block(&mut b, 0, 0);
    put_block(&mut b, 4, 1);
    put_block(&mut b, 8, 2);
    b[12] = 0xd8;
    b[13] = 0x3d;
    b[14] = 0xde;
    b[15] = 0x00; // surrogate pair for U+1F600
    let nodes = parser.generate_ds_store_tree(&b, 0).ok().unwrap();
    assert_eq!(nodes.len(), 1);
    assert_eq!(nodes[0].name, "\u{1f600}");
    assert_eq!(nodes[0].name.chars().count(), 1);
}

#[test]
fn find_terminator_at_position() {
    let parser = DsStoreParser::new();
    let mut b = vec![0u8; 20];
    b[4..16].copy_from_slice(&TERMINATOR);
    assert_eq!(parser.find_record_terminator(&b, 0), Some(4));
    assert_eq!(parser.find_record_terminator(&b, 5), None);
}

#[test]
fn find_terminator_needs_full_pattern() {
    let parser = DsStoreParser::new();
    let mut b = vec![0u8; 24];
    // first 8 bytes of the pattern with a wrong trailer: no match
    b[0..8].copy_from_slice(&TERMINATOR[0..8]);
    b[8..12].copy_from_slice(&[0xff, 0xff, 0xff, 0xff]);
    b[12..24].copy_from_slice(&TERMINATOR);
    assert_eq!(parser.find_record_terminator(&b, 0), Some(12));
}

#[test]
fn find_terminator_none_in_plain_bytes() {
    let parser = DsStoreParser::new();
    let b = vec![0u8; 20];
    assert_eq!(parser.find_record_terminator(&b, 0), None);
}

#[test]
fn locate_root_reads_allocation_index() {
    let parser = DsStoreParser::new();
    let b = build_valid_buffer();
    let (root_offset, entries) = parser.locate_root(&b).ok().unwrap();
    assert_eq!(root_offset, 48);
    assert_eq!(entries, vec![96, 128]);
}

#[test]
fn locate_root_inconsistent_header() {
    let parser = DsStoreParser::new();
    let mut b = vec![0u8; 24];
    b[0..8].copy_from_slice(&SIGNATURE);
    put_block(&mut b, 8, 28);
    put_block(&mut b, 16, 32);
    let r = parser.locate_root(&b);
    assert!(matches!(r, Err(ParseError::InconsistentHeader)));
}

#[test]
fn locate_root_short_buffer() {
    let parser = DsStoreParser::new();
    let r = parser.locate_root(&SIGNATURE.to_vec());
    assert!(matches!(r, Err(ParseError::OutOfRange)));
}

#[test]
fn locate_root_directory_resolves_two_hops() {
    let parser = DsStoreParser::new();
    let b = build_valid_buffer();
    let entries = vec![96usize, 128usize];
    let (name, dir_offset) = parser.locate_root_directory(&b, 48, &entries).ok().unwrap();
    assert_eq!(name, "DSDB");
    assert_eq!(dir_offset, 132);
}

#[test]
fn parse_round_trip_single_record() {
    let parser = DsStoreParser::new();
    let b = build_valid_buffer();
    let root = parser.parse(&b).ok().unwrap();
    assert_eq!(root.name, "DSDB");
    assert_eq!(root.indet_length, 4);
    assert_eq!(root.children.len(), 1);
    assert_eq!(root.children[0].name, "Desktop");
    assert!(root.children[0].children.is_empty());
}

#[test]
fn parse_rejects_bad_signature() {
    let parser = DsStoreParser::new();
    let mut b = build_valid_buffer();
    b[0] = 0xff;
    let r = parser.parse(&b);
    assert!(matches!(r, Err(ParseError::SignatureMismatch)));
}

#[test]
fn parse_inconsistent_header() {
    let parser = DsStoreParser::new();
    let mut b = build_valid_buffer();
    put_block(&mut b, 16, 45); // break the redundant copy
    let r = parser.parse(&b);
    assert!(matches!(r, Err(ParseError::InconsistentHeader)));
}

#[test]
fn parse_invalid_root_name() {
    let parser = DsStoreParser::new();
    let mut b = build_valid_buffer();
    b[77..81].copy_from_slice(&[0xff, 0xff, 0xff, 0xff]); // not UTF-8
    let r = parser.parse(&b);
    assert!(matches!(r, Err(ParseError::InvalidEncoding)));
}

#[test]
fn parse_non_ascii_root_name() {
    let parser = DsStoreParser::new();
    let mut b = build_valid_buffer();
    b[77..81].copy_from_slice(&[0xc3, 0xa9, 0xc3, 0xa9]); // "éé"
    let root = parser.parse(&b).ok().unwrap();
    assert_eq!(root.name, "\u{e9}\u{e9}");
}

#[test]
fn parse_internal_page_unsupported() {
    let parser = DsStoreParser::new();
    let mut b = build_valid_buffer();
    put_block(&mut b, 132, 1); // directory page mode tag non-zero
    let r = parser.parse(&b);
    assert!(matches!(r, Err(ParseError::UnsupportedPageMode)));
}

#[test]
fn parse_truncated_page_keeps_partial() {
    let parser = DsStoreParser::new();
    let mut b = build_valid_buffer();
    put_block(&mut b, 136, 3); // promise three records; buffer holds one
    let root = parser.parse(&b).ok().unwrap();
    assert_eq!(root.children.len(), 1);
    assert_eq!(root.children[0].name, "Desktop");
}

#[test]
fn error_messages_are_nonempty() {
    let errors = [
        ParseError::SignatureMismatch,
        ParseError::OutOfRange,
        ParseError::InconsistentHeader,
        ParseError::InvalidEncoding,
        ParseError::UnsupportedPageMode,
    ];
    for e in errors {
        assert!(!e.message().is_empty());
    }
}
