use airdrop::protocol::{
    decode_header, decode_transfer, encode_framed_header, encode_header, u32_from_be_bytes,
    u32_to_be_bytes, FileHeader,
};

#[test]
fn u32_be_bytes_exact() {
    let b = u32_to_be_bytes(0x01020304);
    assert_eq!(b, vec![1u8, 2, 3, 4]);
    assert_eq!(u32_from_be_bytes(&b), 0x01020304);
    assert_eq!(u32_to_be_bytes(0), vec![0u8, 0, 0, 0]);
    assert_eq!(u32_to_be_bytes(u32::MAX), vec![255u8, 255, 255, 255]);
}

#[test]
fn header_round_trip() {
    let h = FileHeader { file_name: String::from("photo.jpg"), file_size: 123456789 };
    let bytes = encode_header(&h);
    let back = decode_header(&bytes).expect("well-formed header must decode");
    assert_eq!(back.file_name, "photo.jpg");
    assert_eq!(back.file_size, 123456789);
}

#[test]
fn header_round_trip_empty_name_and_max_size() {
    let h = FileHeader { file_name: String::new(), file_size: u64::MAX };
    let bytes = encode_header(&h);
    let back = decode_header(&bytes).expect("well-formed header must decode");
    assert_eq!(back.file_name, "");
    assert_eq!(back.file_size, u64::MAX);
}

#[test]
fn header_matches_bincode_wire_format() {
    // The header record must serialize exactly as bincode's default
    // configuration serializes the same fields in order.
    let name = String::from("hello.txt");
    let size: u64 = 42;
    let reference = bincode::serialize(&(name.clone(), size)).unwrap();
    let h = FileHeader { file_name: name, file_size: size };
    assert_eq!(encode_header(&h), reference);
}

#[test]
fn header_bincode_deserializes_ours() {
    let h = FileHeader { file_name: String::from("données.bin"), file_size: 7 };
    let bytes = encode_header(&h);
    let (name, size): (String, u64) = bincode::deserialize(&bytes).unwrap();
    assert_eq!(name, "données.bin");
    assert_eq!(size, 7);
}

#[test]
fn decode_header_rejects_short_buffer() {
    assert!(decode_header(&[0u8; 15]).is_none());
    assert!(decode_header(&[]).is_none());
}

#[test]
fn decode_header_rejects_wrong_length_prefix() {
    let h = FileHeader { file_name: String::from("a"), file_size: 1 };
    let mut bytes = encode_header(&h);
    bytes[0] = bytes[0].wrapping_add(1);
    assert!(decode_header(&bytes).is_none());
}

#[test]
fn decode_header_rejects_invalid_utf8_name() {
    // 1-byte name that is not valid UTF-8.
    let mut bytes = vec![1u8, 0, 0, 0, 0, 0, 0, 0];
    bytes.push(0xff);
    bytes.extend_from_slice(&[0u8; 8]);
    assert!(decode_header(&bytes).is_none());
}

#[test]
fn framed_header_layout() {
    let h = FileHeader { file_name: String::from("x"), file_size: 9 };
    let header_bytes = encode_header(&h);
    let framed = encode_framed_header(&h).expect("short names always fit the prefix");
    assert_eq!(&framed[0..4], (header_bytes.len() as u32).to_be_bytes());
    assert_eq!(&framed[4..], &header_bytes[..]);
}

#[test]
fn transfer_round_trip_content_identical() {
    // A file of N bytes arrives with file content byte-identical and the
    // content length, not the declared size, authoritative.
    let h = FileHeader { file_name: String::from("blob.bin"), file_size: 999 };
    let content: Vec<u8> = (0..=255u8).cycle().take(1000).collect();
    let mut stream = encode_framed_header(&h).unwrap();
    stream.extend_from_slice(&content);
    let (back, got) = decode_transfer(&stream).expect("well-formed stream must decode");
    assert_eq!(back.file_name, "blob.bin");
    assert_eq!(back.file_size, 999);
    assert_eq!(got, content);
    assert_eq!(got.len(), 1000);
}

#[test]
fn transfer_with_empty_content() {
    let h = FileHeader { file_name: String::from("empty"), file_size: 0 };
    let stream = encode_framed_header(&h).unwrap();
    let (back, got) = decode_transfer(&stream).expect("header-only stream must decode");
    assert_eq!(back.file_name, "empty");
    assert!(got.is_empty());
}

#[test]
fn decode_transfer_rejects_truncated_streams() {
    let h = FileHeader { file_name: String::from("t"), file_size: 5 };
    let framed = encode_framed_header(&h).unwrap();
    // Too short for the 4-byte prefix.
    assert!(decode_transfer(&vec![0u8, 0, 0]).is_none());
    // Prefix promises more header bytes than are present.
    let truncated: Vec<u8> = framed[..framed.len() - 1].to_vec();
    assert!(decode_transfer(&truncated).is_none());
}
