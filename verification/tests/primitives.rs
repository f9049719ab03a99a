use permissionless_delegator::address::{parse_addresses, Address};
use permissionless_delegator::display::{handle_ui_message, show};
use permissionless_delegator::mask::{VisibilityMask, MASK_CAPACITY};
use permissionless_delegator::reader::{be_u32, be_u64, tag_u32, take, take_20, take_32, u32_be_bytes};
use permissionless_delegator::text::{hex_encode, nano_avax_to_fp_str, timestamp_to_str};
use permissionless_delegator::validator::SubnetId;
use permissionless_delegator::{ParserError, ViewError};

fn s(bytes: Vec<u8>) -> String {
    String::from_utf8(bytes).unwrap()
}

#[test]
fn be_u32_reads_most_significant_first() {
    assert_eq!(be_u32(&[0x00, 0x03, 0x05, 0x07, 0xaa, 0xbb]), Ok((&[0xaa, 0xbb][..], 0x0003_0507)));
    assert_eq!(be_u32(&[0xff, 0xff, 0xff, 0xff]), Ok((&[][..], u32::MAX)));
    assert_eq!(be_u32(&[0x01, 0x00, 0x00, 0x00]), Ok((&[][..], 0x0100_0000)));
    assert_eq!(be_u32(&[1, 2, 3]), Err(ParserError::UnexpectedBufferEnd));
    assert_eq!(be_u32(&[]), Err(ParserError::UnexpectedBufferEnd));
}

#[test]
fn be_u64_reads_most_significant_first() {
    assert_eq!(
        be_u64(&[0x01, 0x23, 0x45, 0x67, 0x89, 0xab, 0xcd, 0xef, 0x55]),
        Ok((&[0x55][..], 0x0123_4567_89ab_cdef))
    );
    assert_eq!(be_u64(&[0xff; 8]), Ok((&[][..], u64::MAX)));
    assert_eq!(be_u64(&[0, 0, 0, 1, 0, 0, 0, 0]), Ok((&[][..], 1 << 32)));
    assert_eq!(be_u64(&[0; 7]), Err(ParserError::UnexpectedBufferEnd));
    assert_eq!(be_u64(&[0; 3]), Err(ParserError::UnexpectedBufferEnd));
}

#[test]
fn tag_u32_consumes_the_discriminant() {
    assert_eq!(tag_u32(&[0, 0, 0, 0x1a, 9], 0x1a), Ok(&[9][..]));
    assert_eq!(tag_u32(&[0x12, 0x34, 0x56, 0x78], 0x1234_5678), Ok(&[][..]));
    assert_eq!(tag_u32(&[0, 0, 0, 0x1b, 9], 0x1a), Err(ParserError::InvalidTypeId));
    assert_eq!(tag_u32(&[0x1a, 0, 0, 0], 0x1a), Err(ParserError::InvalidTypeId));
    assert_eq!(tag_u32(&[0, 0, 0], 0x1a), Err(ParserError::InvalidTypeId));
    assert_eq!(tag_u32(&[0, 0, 0], 0), Err(ParserError::InvalidTypeId));
    assert_eq!(u32_be_bytes(0x1234_5678), [0x12, 0x34, 0x56, 0x78]);
    assert_eq!(u32_be_bytes(0x1a), [0, 0, 0, 0x1a]);
}

#[test]
fn take_splits_the_front_off() {
    let data: Vec<u8> = (0..40).collect();
    assert_eq!(take(&data, 0), Ok((&data[..], &[][..])));
    assert_eq!(take(&data, 3), Ok((&data[3..], &[0, 1, 2][..])));
    assert_eq!(take(&data, 40), Ok((&[][..], &data[..])));
    assert_eq!(take(&data, 41), Err(ParserError::UnexpectedBufferEnd));
    let (rest, id) = take_20(&data).unwrap();
    assert_eq!(rest, &data[20..]);
    assert_eq!(&id[..], &data[..20]);
    let (rest, id) = take_32(&data).unwrap();
    assert_eq!(rest, &data[32..]);
    assert_eq!(&id[..], &data[..32]);
    assert_eq!(take_32(&data[..31]), Err(ParserError::UnexpectedBufferEnd));
    assert_eq!(take_20(&data[..19]), Err(ParserError::UnexpectedBufferEnd));
}

#[test]
fn amounts_in_fixed_point() {
    assert_eq!(s(nano_avax_to_fp_str(0)), "0.0");
    assert_eq!(s(nano_avax_to_fp_str(1)), "0.000000001");
    assert_eq!(s(nano_avax_to_fp_str(10)), "0.00000001");
    assert_eq!(s(nano_avax_to_fp_str(500_000_000)), "0.5");
    assert_eq!(s(nano_avax_to_fp_str(999_999_999)), "0.999999999");
    assert_eq!(s(nano_avax_to_fp_str(1_000_000_000)), "1.0");
    assert_eq!(s(nano_avax_to_fp_str(1_000_000_001)), "1.000000001");
    assert_eq!(s(nano_avax_to_fp_str(1_230_000_000)), "1.23");
    assert_eq!(s(nano_avax_to_fp_str(2_000_000_000_000)), "2000.0");
    assert_eq!(s(nano_avax_to_fp_str(100_100_100_100)), "100.1001001");
    assert_eq!(s(nano_avax_to_fp_str(u64::MAX)), "18446744073.709551615");
    assert_eq!(s(nano_avax_to_fp_str(7_000_000_000)), "7.0");
    assert_eq!(s(nano_avax_to_fp_str(10_000_000_000)), "10.0");
    assert_eq!(s(nano_avax_to_fp_str(1_000_000_000_000_000)), "1000000.0");
}

#[test]
fn bytes_in_hexadecimal() {
    assert_eq!(s(hex_encode(&[])), "");
    assert_eq!(s(hex_encode(&[0])), "00");
    assert_eq!(s(hex_encode(&[0x0a, 0xa0, 0x9f, 0xf9, 0xff])), "0aa09ff9ff");
    assert_eq!(s(hex_encode(&[0x01, 0x23, 0x45, 0x67, 0x89, 0xab, 0xcd, 0xef])), "0123456789abcdef");
}

#[test]
fn points_in_time() {
    assert_eq!(s(timestamp_to_str(0)), "1970-01-01 00:00:00 UTC");
    assert_eq!(s(timestamp_to_str(12345)), "1970-01-01 03:25:45 UTC");
    assert_eq!(s(timestamp_to_str(68_169_599)), "1972-02-28 23:59:59 UTC");
    assert_eq!(s(timestamp_to_str(87_654_321)), "1972-10-11 12:25:21 UTC");
    assert_eq!(s(timestamp_to_str(951_782_400)), "2000-02-29 00:00:00 UTC");
    assert_eq!(s(timestamp_to_str(951_868_799)), "2000-02-29 23:59:59 UTC");
    assert_eq!(s(timestamp_to_str(1_622_496_480)), "2021-05-31 21:28:00 UTC");
    assert_eq!(s(timestamp_to_str(4_102_444_800)), "2100-01-01 00:00:00 UTC");
    assert_eq!(s(timestamp_to_str(253_402_300_799)), "9999-12-31 23:59:59 UTC");
    assert_eq!(s(timestamp_to_str(253_402_300_800)), "10000-01-01 00:00:00 UTC");
    // the largest value has a date too
    let last = s(timestamp_to_str(u64::MAX));
    assert!(last.ends_with(" UTC"));
    assert_eq!(last, "584554051223-11-09 07:00:15 UTC");
}

#[test]
fn addresses_in_bech32() {
    let address = Address { bytes: [0x11; 20] };
    assert_eq!(s(address.encode("avax").unwrap()), "avax1zyg3zyg3zyg3zyg3zyg3zyg3zyg3zyg35l6ttj");
    assert_eq!(s(address.encode("fuji").unwrap()), "fuji1zyg3zyg3zyg3zyg3zyg3zyg3zyg3zyg3cd758d");
    assert_eq!(s(address.encode("local").unwrap()), "local1zyg3zyg3zyg3zyg3zyg3zyg3zyg3zyg3dv8dg6");
    let zero = Address { bytes: [0; 20] };
    assert_eq!(s(zero.encode("avax").unwrap()), "avax1qqqqqqqqqqqqqqqqqqqqqqqqqqqqqqqqxpdk7q");
    // an upper-case prefix is written in lower case
    assert_eq!(s(zero.encode("AVAX").unwrap()), "avax1qqqqqqqqqqqqqqqqqqqqqqqqqqqqqqqqxpdk7q");
    // prefixes that bech32 has no place for
    assert_eq!(address.encode(""), Err(ParserError::InvalidAddress));
    assert_eq!(address.encode("Avax"), Err(ParserError::InvalidAddress));
    assert_eq!(address.encode("av ax"), Err(ParserError::InvalidAddress));
    assert_eq!(address.encode("avax\u{e9}"), Err(ParserError::InvalidAddress));
    assert_eq!(address.encode(&"a".repeat(84)), Err(ParserError::InvalidAddress));
    assert!(address.encode(&"a".repeat(83)).is_ok());
    assert!(address.encode("a1!~").is_ok());
}

#[test]
fn addresses_compare_by_their_bytes() {
    let address = Address { bytes: [7; 20] };
    assert!(address.is(&[7; 20]));
    assert!(!address.is(&[7; 19]));
    assert!(!address.is(&[7; 21]));
    let mut other = [7u8; 20];
    other[19] = 8;
    assert!(!address.is(&other));
    let data: Vec<u8> = (0..45).collect();
    let (rest, list) = parse_addresses(&data, 2).unwrap();
    assert_eq!(rest, &data[40..]);
    assert_eq!(list.len(), 2);
    assert_eq!(&list[1].bytes[..], &data[20..40]);
    assert_eq!(parse_addresses(&data, 3), Err(ParserError::UnexpectedBufferEnd));
    assert_eq!(parse_addresses(&data, u32::MAX), Err(ParserError::UnexpectedBufferEnd));
    assert_eq!(parse_addresses(&data, 0), Ok((&data[..], vec![])));
}

#[test]
fn mask_starts_full_and_clears_one_flag_at_a_time() {
    assert_eq!(MASK_CAPACITY, 32);
    let mut mask = VisibilityMask::all_visible();
    for i in 0..32 {
        assert!(mask.is_visible(i));
    }
    assert!(!mask.is_visible(32));
    assert!(!mask.is_visible(usize::MAX));
    mask.clear(0);
    mask.clear(31);
    mask.clear(7);
    mask.clear(7);
    for i in 0..32 {
        assert_eq!(mask.is_visible(i), i != 0 && i != 7 && i != 31);
    }
}

#[test]
fn messages_are_cut_into_pages() {
    let item = b"0123456789";
    let mut out = [0xffu8; 5];
    assert_eq!(handle_ui_message(item, &mut out, 0), Ok(3));
    assert_eq!(&out, b"0123\0");
    assert_eq!(handle_ui_message(item, &mut out, 1), Ok(3));
    assert_eq!(&out, b"4567\0");
    assert_eq!(handle_ui_message(item, &mut out, 2), Ok(3));
    assert_eq!(&out, b"89\0\0\0");
    assert_eq!(handle_ui_message(item, &mut out, 3), Err(ViewError::Unknown));
    assert_eq!(&out, b"89\0\0\0");
    // a text that fills its pages has no empty page behind them
    assert_eq!(handle_ui_message(b"01234567", &mut out, 1), Ok(2));
    assert_eq!(&out, b"4567\0");
    assert_eq!(handle_ui_message(b"01234567", &mut out, 2), Err(ViewError::Unknown));
    assert_eq!(handle_ui_message(b"0123", &mut out, 0), Ok(1));
    assert_eq!(handle_ui_message(b"0123", &mut out, 1), Err(ViewError::Unknown));
    // the empty text has one page
    assert_eq!(handle_ui_message(b"", &mut out, 0), Ok(1));
    assert_eq!(&out, b"\0\0\0\0\0");
    assert_eq!(handle_ui_message(b"", &mut out, 1), Err(ViewError::Unknown));
    // one character to the page
    let mut out = [0xffu8; 2];
    assert_eq!(handle_ui_message(b"abc", &mut out, 2), Ok(3));
    assert_eq!(&out, b"c\0");
    // no more than 255 pages
    let long = vec![b'x'; 255];
    assert_eq!(handle_ui_message(&long, &mut out, 254), Ok(255));
    let longer = vec![b'x'; 256];
    assert_eq!(handle_ui_message(&longer, &mut out, 0), Err(ViewError::Unknown));
    assert_eq!(&out, b"x\0");
    // no room
    let mut out = [0xffu8; 1];
    assert_eq!(handle_ui_message(b"", &mut out, 0), Err(ViewError::Unknown));
    assert_eq!(out, [0xff]);
    let mut out: [u8; 0] = [];
    assert_eq!(handle_ui_message(b"a", &mut out, 0), Err(ViewError::Unknown));
}

#[test]
fn show_writes_title_and_page() {
    let mut title = [0xffu8; 6];
    let mut message = [0xffu8; 4];
    assert_eq!(show(b"Title", b"abcde", &mut title, &mut message, 1), Ok(2));
    assert_eq!(&title, b"Title\0");
    assert_eq!(&message, b"de\0\0");
    assert_eq!(show(b"Titles", b"abcde", &mut title, &mut message, 0), Ok(2));
    assert_eq!(&title, b"Title\0");
    assert_eq!(&message, b"abc\0");
    assert_eq!(show(b"T", b"abcde", &mut title, &mut message, 2), Err(ViewError::Unknown));
    assert_eq!(&title, b"Title\0");
    assert_eq!(&message, b"abc\0");
}

#[test]
fn subnets_compare_by_their_bytes() {
    assert_eq!(SubnetId::new(&[0; 32]), SubnetId::primary_network());
    assert!(SubnetId::primary_network().is_primary());
    let mut id = [0u8; 32];
    id[31] = 1;
    assert_ne!(SubnetId::new(&id), SubnetId::primary_network());
    assert!(!SubnetId::new(&id).is_primary());
    let data: Vec<u8> = (0..33).collect();
    let (rest, subnet) = SubnetId::from_bytes(&data).unwrap();
    assert_eq!(rest, &[32]);
    assert_eq!(&subnet.id[..], &data[..32]);
}
