//! Wire format of a file transfer.
//!
//! Each transfer travels on one unidirectional stream as a 4-byte big-endian
//! header length, the serialized header, and then the raw file bytes until
//! the stream closes.  The header itself is a stable binary record: the file
//! name as an 8-byte little-endian byte count followed by its UTF-8 bytes,
//! then the declared file size as an 8-byte little-endian integer.
//!
//! The decoder accepts exactly the records that fill their buffer: a header
//! buffer with trailing bytes after the size field is rejected.

use vstd::prelude::*;
use vstd::bytes::{spec_u64_from_le_bytes, spec_u64_to_le_bytes, u64_from_le_bytes, u64_to_le_bytes};
use vstd::utf8::{decode_utf8, encode_utf8, valid_utf8};
use vstd::string::StringSliceAdditionalSpecFns;
use crate::text::bytes_to_str;

verus! {

/// Metadata record sent ahead of the raw bytes of one file transfer.
#[derive(Debug)]
pub struct FileHeader {
    pub file_name: String,
    pub file_size: u64,
}

/// Big-endian byte encoding of a 32-bit length prefix.
pub open spec fn spec_u32_to_be_bytes(x: u32) -> Seq<u8> {
    seq![
        ((x >> 24) & 0xff) as u8,
        ((x >> 16) & 0xff) as u8,
        ((x >> 8) & 0xff) as u8,
        (x & 0xff) as u8,
    ]
}

pub open spec fn spec_u32_from_be_bytes(s: Seq<u8>) -> u32
    recommends
        s.len() == 4,
{
    (((s[0] as u32) << 24) | ((s[1] as u32) << 16) | ((s[2] as u32) << 8) | (s[3] as u32)) as u32
}

pub proof fn lemma_u32_be_bytes_round_trip(x: u32)
    ensures
        spec_u32_to_be_bytes(x).len() == 4,
        spec_u32_from_be_bytes(spec_u32_to_be_bytes(x)) == x,
{
    assert((((((x >> 24) & 0xff) as u8) as u32) << 24 | ((((x >> 16) & 0xff) as u8) as u32) << 16
        | ((((x >> 8) & 0xff) as u8) as u32) << 8 | (((x & 0xff) as u8) as u32)) == x)
        by (bit_vector);
}

pub fn u32_to_be_bytes(x: u32) -> (r: Vec<u8>)
    ensures
        r@ == spec_u32_to_be_bytes(x),
{
    let mut r: Vec<u8> = Vec::new();
    r.push(((x >> 24) & 0xff) as u8);
    r.push(((x >> 16) & 0xff) as u8);
    r.push(((x >> 8) & 0xff) as u8);
    r.push((x & 0xff) as u8);
    assert(r@ =~= spec_u32_to_be_bytes(x));
    r
}

pub fn u32_from_be_bytes(s: &[u8]) -> (x: u32)
    requires
        s@.len() == 4,
    ensures
        x == spec_u32_from_be_bytes(s@),
{
    ((s[0] as u32) << 24) | ((s[1] as u32) << 16) | ((s[2] as u32) << 8) | (s[3] as u32)
}

/// Serialized form of a header with the given name and declared size.
pub open spec fn encode_header_spec(name: Seq<char>, size: u64) -> Seq<u8> {
    spec_u64_to_le_bytes(encode_utf8(name).len() as u64) + encode_utf8(name) + spec_u64_to_le_bytes(
        size,
    )
}

/// A byte buffer holds exactly one well-formed serialized header.
pub open spec fn header_wf(b: Seq<u8>) -> bool {
    &&& b.len() >= 16
    &&& spec_u64_from_le_bytes(b.subrange(0, 8)) == (b.len() - 16) as u64
    &&& valid_utf8(b.subrange(8, b.len() - 8))
}

/// The file name carried by a well-formed serialized header.
pub open spec fn header_name(b: Seq<u8>) -> Seq<char> {
    decode_utf8(b.subrange(8, b.len() - 8))
}

/// The declared file size carried by a well-formed serialized header.
pub open spec fn header_size(b: Seq<u8>) -> u64 {
    spec_u64_from_le_bytes(b.subrange(b.len() - 8, b.len() as int))
}

/// Serializing a header and reading the result back yields the same
/// file name and file size.
pub proof fn lemma_header_round_trip(name: Seq<char>, size: u64)
    ensures
        header_wf(encode_header_spec(name, size)),
        header_name(encode_header_spec(name, size)) == name,
        header_size(encode_header_spec(name, size)) == size,
{
    broadcast use vstd::utf8::encode_utf8_valid_utf8, vstd::utf8::encode_utf8_decode_utf8;

    vstd::bytes::lemma_auto_spec_u64_to_from_le_bytes();
    let nb = encode_utf8(name);
    let e = encode_header_spec(name, size);
    assert(e.subrange(0, 8) =~= spec_u64_to_le_bytes(nb.len() as u64));
    assert(e.subrange(8, e.len() - 8) =~= nb);
    assert(e.subrange(e.len() - 8, e.len() as int) =~= spec_u64_to_le_bytes(size));
}

pub fn encode_header(h: &FileHeader) -> (r: Vec<u8>)
    ensures
        r@ == encode_header_spec(h.file_name@, h.file_size),
{
    let nb: &[u8] = h.file_name.as_str().as_bytes();
    let mut r = u64_to_le_bytes(nb.len() as u64);
    r.extend_from_slice(nb);
    let mut tail = u64_to_le_bytes(h.file_size);
    r.append(&mut tail);
    assert(r@ =~= encode_header_spec(h.file_name@, h.file_size));
    r
}

pub fn decode_header(b: &[u8]) -> (r: Option<FileHeader>)
    ensures
        r is Some <==> header_wf(b@),
        r matches Some(h) ==> h.file_name@ == header_name(b@) && h.file_size == header_size(b@),
{
    if b.len() < 16 {
        return None;
    }
    let declared = u64_from_le_bytes(&b[0..8]);
    if declared != (b.len() - 16) as u64 {
        return None;
    }
    let name_bytes = &b[8..b.len() - 8];
    match bytes_to_str(name_bytes) {
        None => None,
        Some(s) => {
            let size = u64_from_le_bytes(&b[b.len() - 8..b.len()]);
            Some(FileHeader { file_name: s.to_owned(), file_size: size })
        },
    }
}

/// The whole byte stream of one transfer: length-prefixed header, then the
/// raw file content.
pub open spec fn encode_transfer_spec(name: Seq<char>, size: u64, content: Seq<u8>) -> Seq<u8> {
    let hb = encode_header_spec(name, size);
    spec_u32_to_be_bytes(hb.len() as u32) + hb + content
}

/// A byte stream starts with a well-formed length-prefixed header.
pub open spec fn transfer_wf(d: Seq<u8>) -> bool {
    &&& d.len() >= 4
    &&& spec_u32_from_be_bytes(d.subrange(0, 4)) as int + 4 <= d.len()
    &&& header_wf(transfer_header_bytes(d))
}

/// The serialized header region of a transfer stream.
pub open spec fn transfer_header_bytes(d: Seq<u8>) -> Seq<u8> {
    d.subrange(4, 4 + spec_u32_from_be_bytes(d.subrange(0, 4)) as int)
}

/// The raw file content of a transfer stream: everything after the header.
pub open spec fn transfer_content(d: Seq<u8>) -> Seq<u8> {
    d.subrange(4 + spec_u32_from_be_bytes(d.subrange(0, 4)) as int, d.len() as int)
}

/// Builds the length-prefixed header bytes that precede the file content on
/// the wire.  Returns `None` when the serialized header would not fit the
/// 4-byte length prefix.
pub fn encode_framed_header(h: &FileHeader) -> (r: Option<Vec<u8>>)
    ensures
        r is Some <==> encode_header_spec(h.file_name@, h.file_size).len() <= u32::MAX,
        r matches Some(v) ==> v@ == spec_u32_to_be_bytes(
            encode_header_spec(h.file_name@, h.file_size).len() as u32,
        ) + encode_header_spec(h.file_name@, h.file_size),
{
    let mut hb = encode_header(h);
    if hb.len() > (u32::MAX as usize) {
        return None;
    }
    let mut r = u32_to_be_bytes(hb.len() as u32);
    r.append(&mut hb);
    Some(r)
}

/// Splits a complete transfer stream into its header and file content.
pub fn decode_transfer(d: &Vec<u8>) -> (r: Option<(FileHeader, Vec<u8>)>)
    ensures
        r is Some <==> transfer_wf(d@),
        r matches Some((h, c)) ==> {
            &&& h.file_name@ == header_name(transfer_header_bytes(d@))
            &&& h.file_size == header_size(transfer_header_bytes(d@))
            &&& c@ == transfer_content(d@)
        },
{
    if d.len() < 4 {
        return None;
    }
    let hl = u32_from_be_bytes(&d[0..4]);
    let hlu = hl as usize;
    if hlu > d.len() - 4 {
        return None;
    }
    let header_bytes = &d[4..4 + hlu];
    assert(header_bytes@ =~= transfer_header_bytes(d@));
    match decode_header(header_bytes) {
        None => None,
        Some(h) => {
            let content = vstd::slice::slice_to_vec(&d[4 + hlu..d.len()]);
            assert(content@ =~= transfer_content(d@));
            Some((h, content))
        },
    }
}

/// Round trip of one whole transfer: a stream built from a header and `n`
/// content bytes decodes to the same file name, declared size, and exactly
/// those `n` content bytes.
pub proof fn lemma_transfer_round_trip(name: Seq<char>, size: u64, content: Seq<u8>)
    requires
        encode_header_spec(name, size).len() <= u32::MAX,
    ensures
        transfer_wf(encode_transfer_spec(name, size, content)),
        header_name(transfer_header_bytes(encode_transfer_spec(name, size, content))) == name,
        header_size(transfer_header_bytes(encode_transfer_spec(name, size, content))) == size,
        transfer_content(encode_transfer_spec(name, size, content)) == content,
        transfer_content(encode_transfer_spec(name, size, content)).len() == content.len(),
{
    let hb = encode_header_spec(name, size);
    let msg = encode_transfer_spec(name, size, content);
    lemma_u32_be_bytes_round_trip(hb.len() as u32);
    assert(msg.subrange(0, 4) =~= spec_u32_to_be_bytes(hb.len() as u32));
    assert(spec_u32_from_be_bytes(msg.subrange(0, 4)) == hb.len());
    assert(transfer_header_bytes(msg) =~= hb);
    lemma_header_round_trip(name, size);
    assert(transfer_content(msg) =~= content);
}

} // verus!
