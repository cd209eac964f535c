use qotd::strfile::{Flags, FormatError, StrfileHeader};

fn index_bytes(count: u32, flags: u32, delim: u8, offsets: &[u32]) -> Vec<u8> {
    let mut bytes = Vec::new();
    bytes.extend_from_slice(&0x0102_0304u32.to_be_bytes());
    bytes.extend_from_slice(&count.to_be_bytes());
    bytes.extend_from_slice(&70_000u32.to_be_bytes());
    bytes.extend_from_slice(&5u32.to_be_bytes());
    bytes.extend_from_slice(&flags.to_be_bytes());
    bytes.push(delim);
    bytes.extend_from_slice(&[0, 0, 0]);
    for offset in offsets {
        bytes.extend_from_slice(&offset.to_be_bytes());
    }
    bytes
}

fn header_with_flags(flags: u32) -> StrfileHeader {
    StrfileHeader {
        version: 1,
        number_of_strings: 0,
        longest_length: 0,
        shortest_length: 0,
        flags,
        delim: b'%',
        offsets: vec![],
    }
}

#[test]
fn parses_every_field_as_big_endian() {
    let bytes = index_bytes(3, 0x4, b'%', &[0, 6, 0xdead_beef]);
    let header = StrfileHeader::new(&bytes).unwrap();
    assert_eq!(header.version, 16_909_060);
    assert_eq!(header.number_of_strings, 3);
    assert_eq!(header.longest_length, 70_000);
    assert_eq!(header.shortest_length, 5);
    assert_eq!(header.flags, 4);
    assert_eq!(header.delim, b'%');
    assert_eq!(header.offsets, vec![0, 6, 3_735_928_559]);
}

#[test]
fn parses_literal_bytes() {
    let bytes: [u8; 28] = [
        0, 0, 0, 2, 0, 0, 0, 1, 0, 0, 1, 0, 0, 0, 0, 9, 0, 0, 0, 5, b'#', 7, 8, 9, 0x00, 0x01,
        0x02, 0x03,
    ];
    let header = StrfileHeader::new(&bytes).unwrap();
    assert_eq!(
        header,
        StrfileHeader {
            version: 2,
            number_of_strings: 1,
            longest_length: 256,
            shortest_length: 9,
            flags: 5,
            delim: b'#',
            offsets: vec![66_051],
        }
    );
}

#[test]
fn offsets_are_as_many_as_counted() {
    let offsets: Vec<u32> = (0..100).map(|i| i * 17).collect();
    let bytes = index_bytes(100, 0, b'%', &offsets);
    let header = StrfileHeader::new(&bytes).unwrap();
    assert_eq!(header.offsets.len(), 100);
    assert_eq!(header.offsets, offsets);
}

#[test]
fn bytes_behind_the_table_are_ignored() {
    let mut bytes = index_bytes(1, 0, b'%', &[12]);
    bytes.extend_from_slice(&[9, 9, 9, 9, 9]);
    let header = StrfileHeader::new(&bytes).unwrap();
    assert_eq!(header.offsets, vec![12]);
}

#[test]
fn empty_table_needs_no_padding() {
    let bytes = index_bytes(0, 0, b'%', &[]);
    assert_eq!(bytes.len(), 24);
    for len in 21..=24 {
        let header = StrfileHeader::new(&bytes[..len]).unwrap();
        assert_eq!(header.number_of_strings, 0);
        assert!(header.offsets.is_empty());
        assert_eq!(header.delim, b'%');
    }
}

#[test]
fn short_prefix_is_a_truncated_header() {
    let bytes = index_bytes(0, 0, b'%', &[]);
    for len in 0..21 {
        assert_eq!(StrfileHeader::new(&bytes[..len]), Err(FormatError::TruncatedHeader));
    }
}

#[test]
fn short_table_is_truncated_offsets() {
    let bytes = index_bytes(2, 0, b'%', &[0, 6]);
    assert_eq!(bytes.len(), 32);
    for len in 21..32 {
        assert_eq!(StrfileHeader::new(&bytes[..len]), Err(FormatError::TruncatedOffsets));
    }
    assert!(StrfileHeader::new(&bytes).is_ok());
}

#[test]
fn huge_count_is_truncated_offsets() {
    let bytes = index_bytes(u32::MAX, 0, b'%', &[1, 2, 3]);
    assert_eq!(StrfileHeader::new(&bytes), Err(FormatError::TruncatedOffsets));
}

#[test]
fn flag_bits() {
    assert_eq!(Flags::Random.bits(), 0x1);
    assert_eq!(Flags::Ordered.bits(), 0x2);
    assert_eq!(Flags::Rotated.bits(), 0x4);
    assert_eq!(Flags::HasComments.bits(), 0x8);
}

#[test]
fn each_flag_alone() {
    let all = [Flags::Random, Flags::Ordered, Flags::Rotated, Flags::HasComments];
    for set in all {
        let header = header_with_flags(set.bits());
        for asked in all {
            assert_eq!(header.flag_is_set(asked), asked == set);
        }
    }
}

#[test]
fn named_flag_tests() {
    let header = header_with_flags(0x1);
    assert!(header.is_random());
    assert!(!header.is_ordered() && !header.is_rotated() && !header.has_comments());
    let header = header_with_flags(0x2);
    assert!(header.is_ordered());
    assert!(!header.is_random() && !header.is_rotated() && !header.has_comments());
    let header = header_with_flags(0x4);
    assert!(header.is_rotated());
    assert!(!header.is_random() && !header.is_ordered() && !header.has_comments());
    let header = header_with_flags(0x8);
    assert!(header.has_comments());
    assert!(!header.is_random() && !header.is_ordered() && !header.is_rotated());
}

#[test]
fn flags_combine() {
    let header = header_with_flags(0x1 | 0x4);
    assert!(header.is_random());
    assert!(header.is_rotated());
    assert!(!header.is_ordered());
    assert!(!header.has_comments());
    let header = header_with_flags(0xf);
    assert!(header.is_random() && header.is_ordered() && header.is_rotated());
    assert!(header.has_comments());
}

#[test]
fn no_flag_in_empty_mask_and_unknown_bits_do_not_count() {
    let header = header_with_flags(0);
    assert!(!header.is_random() && !header.is_ordered());
    assert!(!header.is_rotated() && !header.has_comments());
    let header = header_with_flags(0xffff_fff0);
    assert!(!header.is_random() && !header.is_ordered());
    assert!(!header.is_rotated() && !header.has_comments());
    let header = header_with_flags(0xffff_fff4);
    assert!(header.is_rotated());
}

#[test]
fn flags_of_a_parsed_header() {
    let bytes = index_bytes(0, 0x6, b'%', &[]);
    let header = StrfileHeader::new(&bytes).unwrap();
    assert!(header.is_ordered());
    assert!(header.is_rotated());
    assert!(!header.is_random());
    assert!(!header.has_comments());
}
