//! Byte layout of the header and body, and the transforms between bytes and
//! field values. No validation happens here.

use binary_layout::{BigEndian, FieldReadExt, FieldWriteExt, PrimitiveField};
use vstd::prelude::*;

verus! {

/// Size of the fixed header on the wire.
pub const HEADER_LEN: usize = 8;

/// Offset of the content length inside the header.
const LENGTH_OFFSET: usize = 4;

/// The unsigned value of four bytes read big-endian.
pub open spec fn be_u32_value(b: Seq<u8>) -> int
    recommends
        b.len() == 4,
{
    b[0] * 0x100_0000 + b[1] * 0x1_0000 + b[2] * 0x100 + b[3]
}

/// The two's-complement value of four bytes read big-endian.
pub open spec fn be_i32_value(b: Seq<u8>) -> int
    recommends
        b.len() == 4,
{
    let u = be_u32_value(b);
    if u < 0x8000_0000 {
        u
    } else {
        u - 0x1_0000_0000
    }
}

/// The four big-endian bytes of `v`.
pub open spec fn be_bytes(v: u32) -> Seq<u8> {
    seq![
        (v / 0x100_0000) as u8,
        (v / 0x1_0000 % 0x100) as u8,
        (v / 0x100 % 0x100) as u8,
        (v % 0x100) as u8,
    ]
}

/// The header bytes for a type code and a content length: the code, three
/// zero bytes, then the length big-endian.
pub open spec fn header_bytes(message_type: u8, content_length: u32) -> Seq<u8> {
    seq![message_type, 0u8, 0u8, 0u8] + be_bytes(content_length)
}

/// The type code and the signed content length that header bytes hold.
pub open spec fn header_fields(bytes: Seq<u8>) -> (u8, int)
    recommends
        bytes.len() >= 8,
{
    (bytes[0], be_i32_value(bytes.subrange(4, 8)))
}

/// Reading the bytes of a `u32` back gives the same value.
pub proof fn lemma_be_bytes_value(v: u32)
    ensures
        be_u32_value(be_bytes(v)) == v,
        be_bytes(v).len() == 4,
{
    assert((v / 0x100_0000) * 0x100_0000 + (v / 0x1_0000 % 0x100) * 0x1_0000 + (v / 0x100
        % 0x100) * 0x100 + v % 0x100 == v) by (bit_vector);
}

/// Relies on binary_layout's big-endian `i32` field at offset 4: it reads bytes
/// 4 to 8 with `i32::from_be_bytes`, and panics on a slice shorter than 8.
#[verifier::external_body]
fn read_length_field(storage: &[u8]) -> (r: i32)
    requires
        storage@.len() >= 8,
    ensures
        r as int == be_i32_value(storage@.subrange(4, 8)),
{
    <PrimitiveField<i32, BigEndian, LENGTH_OFFSET> as FieldReadExt>::read(storage)
}

/// Relies on binary_layout's big-endian `u32` field at offset 4: it writes
/// `u32::to_be_bytes` over bytes 4 to 8 and leaves the others, and panics on a
/// buffer shorter than 8.
#[verifier::external_body]
fn write_length_field(storage: &mut Vec<u8>, v: u32)
    requires
        old(storage)@.len() >= 8,
    ensures
        final(storage)@ == old(storage)@.subrange(0, 4) + be_bytes(v) + old(storage)@.subrange(
            8,
            old(storage)@.len() as int,
        ),
{
    <PrimitiveField<u32, BigEndian, LENGTH_OFFSET> as FieldWriteExt>::write(storage.as_mut_slice(), v)
}

/// Reads the type code (byte 0) and the signed big-endian content length
/// (bytes 4 to 8) of a header. The reserved bytes 1 to 3 are ignored.
pub fn decode_header(bytes: &[u8]) -> (r: (u8, i32))
    requires
        bytes@.len() >= HEADER_LEN,
    ensures
        (r.0, r.1 as int) == header_fields(bytes@),
{
    let message_type = bytes[0];
    let content_length = read_length_field(bytes);
    (message_type, content_length)
}

/// Writes a header: the type code, three zero bytes, the content length
/// big-endian.
pub fn encode_header(message_type: u8, content_length: u32) -> (r: Vec<u8>)
    ensures
        r@ == header_bytes(message_type, content_length),
{
    let mut out: Vec<u8> = vec![0u8; HEADER_LEN];
    out.set(0, message_type);
    write_length_field(&mut out, content_length);
    assert(out@ =~= header_bytes(message_type, content_length));
    out
}

/// Takes exactly `content_length` bytes of a body from what arrived, or
/// nothing when fewer arrived.
pub fn decode_body(available: &[u8], content_length: usize) -> (r: Option<Vec<u8>>)
    ensures
        match r {
            Some(body) => available@.len() >= content_length && body@ == available@.take(
                content_length as int,
            ),
            None => available@.len() < content_length,
        },
{
    if available.len() < content_length {
        return None;
    }
    let mut body: Vec<u8> = Vec::with_capacity(content_length);
    let mut i: usize = 0;
    while i < content_length
        invariant
            i <= content_length <= available@.len(),
            body@ == available@.take(i as int),
        decreases content_length - i,
    {
        body.push(available[i]);
        i = i + 1;
        assert(body@ =~= available@.take(i as int));
    }
    Some(body)
}

/// Decoding an encoded header gives back the type code, and the content length
/// wherever it fits a signed 32-bit integer.
pub proof fn lemma_header_round_trip(message_type: u8, content_length: u32)
    requires
        content_length <= 0x7fff_ffff,
    ensures
        header_fields(header_bytes(message_type, content_length)) == (
            message_type,
            content_length as int,
        ),
{
    let h = header_bytes(message_type, content_length);
    lemma_be_bytes_value(content_length);
    assert(h.subrange(4, 8) =~= be_bytes(content_length));
}

} // verus!
