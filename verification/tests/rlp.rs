use p2p_handshake::rlp::{
    be_decode, be_encode, decode_item_at, decode_string_items, encode_bytes, encode_header,
    encode_list, encode_str, encode_uint, read_bytes, read_list, read_uint,
};

fn reference_bytes(data: &[u8]) -> Vec<u8> {
    let mut stream = rlp::RlpStream::new();
    stream.append(&data.to_vec());
    stream.out().to_vec()
}

fn reference_uint(n: u64) -> Vec<u8> {
    let mut stream = rlp::RlpStream::new();
    stream.append(&n);
    stream.out().to_vec()
}

#[test]
fn big_endian_digits_have_no_leading_zeros() {
    assert_eq!(be_encode(0), Vec::<u8>::new());
    assert_eq!(be_encode(1), vec![1]);
    assert_eq!(be_encode(255), vec![255]);
    assert_eq!(be_encode(256), vec![1, 0]);
    assert_eq!(be_encode(0x0102_0304), vec![1, 2, 3, 4]);
    assert_eq!(be_encode(u64::MAX), vec![255; 8]);
}

#[test]
fn big_endian_digits_are_read_back() {
    for n in [0u64, 1, 127, 128, 255, 256, 65535, 65536, 1 << 40, u64::MAX] {
        assert_eq!(be_decode(&be_encode(n)), n);
    }
    assert_eq!(be_decode(&[0, 0, 1]), 1);
}

#[test]
fn headers_follow_the_two_forms() {
    assert_eq!(encode_header(0x80, 0), vec![0x80]);
    assert_eq!(encode_header(0x80, 55), vec![0xb7]);
    assert_eq!(encode_header(0x80, 56), vec![0xb8, 56]);
    assert_eq!(encode_header(0x80, 1024), vec![0xb9, 4, 0]);
    assert_eq!(encode_header(0xc0, 0), vec![0xc0]);
    assert_eq!(encode_header(0xc0, 55), vec![0xf7]);
    assert_eq!(encode_header(0xc0, 56), vec![0xf8, 56]);
    assert_eq!(encode_header(0xc0, 0x012345), vec![0xfa, 1, 0x23, 0x45]);
}

#[test]
fn byte_strings_encode_as_the_reference_encoder_does() {
    let samples: Vec<Vec<u8>> = vec![
        vec![],
        vec![0],
        vec![0x7f],
        vec![0x80],
        vec![1, 2, 3],
        vec![9; 55],
        vec![9; 56],
        vec![9; 255],
        vec![9; 256],
        vec![9; 70000],
    ];
    for data in samples {
        assert_eq!(encode_bytes(&data), reference_bytes(&data));
    }
    assert_eq!(encode_bytes(b"dog"), vec![0x83, b'd', b'o', b'g']);
}

#[test]
fn integers_encode_as_the_reference_encoder_does() {
    for n in [0u64, 1, 4, 5, 66, 127, 128, 255, 256, 1024, 30303, 65535, 1_700_000_000, u64::MAX] {
        assert_eq!(encode_uint(n), reference_uint(n));
    }
    assert_eq!(encode_uint(0), vec![0x80]);
    assert_eq!(encode_uint(4), vec![0x04]);
    assert_eq!(encode_uint(1024), vec![0x82, 0x04, 0x00]);
}

#[test]
fn texts_encode_as_their_utf8_bytes() {
    assert_eq!(encode_str("eth"), vec![0x83, b'e', b't', b'h']);
    assert_eq!(encode_str(""), vec![0x80]);
    assert_eq!(encode_str("\u{e1}"), vec![0x82, 0xc3, 0xa1]);
    let mut stream = rlp::RlpStream::new();
    stream.append(&"Re\u{17e}\u{148}\u{e1}k");
    assert_eq!(encode_str("Re\u{17e}\u{148}\u{e1}k"), stream.out().to_vec());
}

#[test]
fn lists_encode_as_the_reference_encoder_does() {
    let mut stream = rlp::RlpStream::new_list(3);
    stream.append(&"cat").append(&vec![7u8; 60]).append(&5u16);
    let expected = stream.out().to_vec();
    let payload = [encode_str("cat"), encode_bytes(&[7u8; 60]), encode_uint(5)].concat();
    assert_eq!(encode_list(&payload), expected);
    assert_eq!(encode_list(&[]), vec![0xc0]);
}

#[test]
fn items_are_found_with_their_payload_range() {
    let buf = [0xaa, 0x83, b'd', b'o', b'g', 0xc2, 0x01, 0x02, 0x05];
    assert_eq!(decode_item_at(&buf, 1), Some((false, 2, 5)));
    assert_eq!(decode_item_at(&buf, 5), Some((true, 6, 8)));
    assert_eq!(decode_item_at(&buf, 8), Some((false, 8, 9)));
    assert_eq!(decode_item_at(&buf, 9), None);
    let long = encode_bytes(&[3u8; 300]);
    assert_eq!(decode_item_at(&long, 0), Some((false, 3, 303)));
}

#[test]
fn items_that_are_cut_short_or_not_in_shortest_form_are_rejected() {
    assert_eq!(decode_item_at(&[], 0), None);
    assert_eq!(decode_item_at(&[0x83, 1, 2], 0), None);
    assert_eq!(decode_item_at(&[0x81, 0x05], 0), None);
    assert_eq!(decode_item_at(&[0x81, 0x80], 0), Some((false, 1, 2)));
    assert_eq!(decode_item_at(&[0xb8, 55], 0), None);
    assert_eq!(decode_item_at(&[0xb9, 0, 60], 0), None);
    assert_eq!(decode_item_at(&[0xb8], 0), None);
    assert_eq!(decode_item_at(&[0xf8, 3, 1, 2, 3], 0), None);
    assert_eq!(decode_item_at(&[0xc3, 1, 2], 0), None);
    assert_eq!(decode_item_at(&[0xbf, 1, 0, 0, 0, 0, 0, 0, 0], 0), None);
}

#[test]
fn typed_readers_tell_byte_strings_lists_and_integers_apart() {
    let buf = [encode_bytes(b"dog"), encode_list(&encode_uint(9)), encode_uint(1024)].concat();
    assert_eq!(read_bytes(&buf, 0), Some((b"dog".to_vec(), 4)));
    assert_eq!(read_list(&buf, 0), None);
    assert_eq!(read_list(&buf, 4), Some((5, 6)));
    assert_eq!(read_bytes(&buf, 4), None);
    assert_eq!(read_uint(&buf, 6, 0xffff), Some((1024, 9)));
    assert_eq!(read_uint(&buf, 6, 1023), None);
    assert_eq!(read_uint(&buf, 4, 0xffff), None);
}

#[test]
fn integers_with_leading_zeros_or_too_many_digits_are_rejected() {
    assert_eq!(read_uint(&[0x00], 0, 255), None);
    assert_eq!(read_uint(&[0x82, 0x00, 0x01], 0, 255), None);
    assert_eq!(read_uint(&[0x80], 0, 255), Some((0, 1)));
    assert_eq!(read_uint(&[0x7f], 0, 255), Some((127, 1)));
    let nine = [0x89, 1, 0, 0, 0, 0, 0, 0, 0, 0];
    assert_eq!(read_uint(&nine, 0, u64::MAX), None);
    assert_eq!(read_uint(&encode_uint(u64::MAX), 0, u64::MAX), Some((u64::MAX, 9)));
}

#[test]
fn byte_strings_and_integers_are_read_back() {
    for data in [vec![], vec![0u8], vec![0x7f], vec![0x80], vec![5; 55], vec![5; 56], vec![5; 1000]] {
        let encoded = encode_bytes(&data);
        assert_eq!(read_bytes(&encoded, 0), Some((data.clone(), encoded.len())));
        let followed = [encoded.clone(), vec![0xff, 0xff]].concat();
        assert_eq!(read_bytes(&followed, 0), Some((data, encoded.len())));
    }
    for n in [0u64, 1, 127, 128, 65535, 1 << 33, u64::MAX] {
        let encoded = encode_uint(n);
        assert_eq!(read_uint(&encoded, 0, u64::MAX), Some((n, encoded.len())));
    }
}

#[test]
fn sequences_of_byte_strings_are_read_in_order() {
    let payload = [encode_bytes(b"a"), encode_bytes(&[]), encode_bytes(&[9; 60])].concat();
    assert_eq!(
        decode_string_items(&payload),
        Some(vec![b"a".to_vec(), vec![], vec![9; 60]])
    );
    assert_eq!(decode_string_items(&[]), Some(vec![]));
    let nested = [encode_bytes(b"a"), encode_list(&[])].concat();
    assert_eq!(decode_string_items(&nested), None);
    assert_eq!(decode_string_items(&[0x83, 1]), None);
    let reference: Vec<Vec<u8>> = rlp::Rlp::new(&encode_list(&payload)).as_list().unwrap();
    assert_eq!(decode_string_items(&payload), Some(reference));
}
