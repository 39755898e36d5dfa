//! Reading packets that the server sends.

use crate::mc_protocol::buffer::{bytes_advance, bytes_len, bytes_split_to, bytes_view};
use crate::mc_protocol::types::{lemma_scan_bounds, varint_scan_from, varint_value, McVarInt, McVarIntError, VarIntScan};
use vstd::prelude::*;

verus! {

#[verifier::external_type_specification]
#[verifier::external_body]
pub struct ExJsonError(serde_json::Error);

/// Why the fields of a packet could not be read.
#[derive(Debug)]
pub enum ParsePacketError {
    InvalidVarInt(McVarIntError),
    InvalidStringUuid,
    NegativeLength,
    InvalidJson(serde_json::Error),
    TooLongField { max_expected: usize, actual: usize },
    UnexpectedEof,
}

/// Why a packet could not be understood in the current state.
#[derive(Debug)]
pub enum PacketError {
    InvalidPacketID { state: &'static str, id: i32 },
    PacketDecoding { state: &'static str, packet_name: &'static str, source: ParsePacketError },
}

/// Takes the first `len` bytes off `data`, or fails when there are fewer.
pub fn try_split_to(data: &mut bytes::Bytes, len: usize) -> (r: Result<bytes::Bytes, ParsePacketError>)
    ensures
        (len <= bytes_view(*old(data)).len()) <==> r is Ok,
        r matches Ok(head) ==> bytes_view(head) == bytes_view(*old(data)).take(len as int)
            && bytes_view(*final(data)) == bytes_view(*old(data)).skip(len as int),
        r matches Err(e) ==> e is UnexpectedEof && bytes_view(*final(data)) == bytes_view(
            *old(data),
        ),
{
    if bytes_len(data) < len {
        Err(ParsePacketError::UnexpectedEof)
    } else {
        Ok(bytes_split_to(data, len))
    }
}

/// Drops the first `cnt` bytes of `data`, or fails when there are fewer.
pub fn try_advance(data: &mut bytes::Bytes, cnt: usize) -> (r: Result<(), ParsePacketError>)
    ensures
        (cnt <= bytes_view(*old(data)).len()) <==> r is Ok,
        r is Ok ==> bytes_view(*final(data)) == bytes_view(*old(data)).skip(cnt as int),
        r matches Err(e) ==> e is UnexpectedEof && bytes_view(*final(data)) == bytes_view(
            *old(data),
        ),
{
    if bytes_len(data) < cnt {
        Err(ParsePacketError::UnexpectedEof)
    } else {
        bytes_advance(data, cnt);
        Ok(())
    }
}

/// What reading a string field of at most `max_len` bytes from `data`
/// gives: the bytes after the length and what follows them, or why not.
pub open spec fn string_field_read(data: Seq<u8>, max_len: usize) -> Result<
    (Seq<u8>, Seq<u8>),
    ParsePacketError,
> {
    match varint_scan_from(data, 0) {
        VarIntScan::Incomplete => Err(ParsePacketError::InvalidVarInt(McVarIntError::UnexpectedEof)),
        VarIntScan::TooLong => Err(ParsePacketError::InvalidVarInt(McVarIntError::TooLong)),
        VarIntScan::Complete(n) => {
            let len = varint_value(data, n as nat);
            if len < 0 {
                Err(ParsePacketError::NegativeLength)
            } else if len > max_len {
                Err(ParsePacketError::TooLongField { max_expected: max_len, actual: len as usize })
            } else if n + len > data.len() {
                Err(ParsePacketError::UnexpectedEof)
            } else {
                Ok((data.subrange(n as int, n + len), data.skip(n + len)))
            }
        },
    }
}

/// Reads a string field: its length in bytes as a VarInt, at most
/// `max_len`, then the bytes, which are returned and taken off `data`.
pub fn read_string_field(data: &mut bytes::Bytes, max_len: usize) -> (r: Result<
    bytes::Bytes,
    ParsePacketError,
>)
    ensures
        match (string_field_read(bytes_view(*old(data)), max_len), r) {
            (Ok((s, rest)), Ok(b)) => bytes_view(b) == s && bytes_view(*final(data)) == rest,
            (Err(e), Err(f)) => e == f,
            _ => false,
        },
{
    let ghost before = bytes_view(*data);
    let len = match McVarInt::read_from_buf(data) {
        Ok(v) => v.0,
        Err(e) => {
            return Err(ParsePacketError::InvalidVarInt(e));
        },
    };
    if len < 0 {
        return Err(ParsePacketError::NegativeLength);
    }
    let len = len as usize;
    if len > max_len {
        return Err(ParsePacketError::TooLongField { max_expected: max_len, actual: len });
    }
    let ghost mid = bytes_view(*data);
    let r = try_split_to(data, len);
    proof {
        if let VarIntScan::Complete(n) = varint_scan_from(before, 0) {
            lemma_scan_bounds(before, 0, n);
            assert(mid == before.skip(n as int));
            if len <= mid.len() {
                assert(mid.take(len as int) =~= before.subrange(n as int, n + len));
                assert(mid.skip(len as int) =~= before.skip(n + len));
            }
        }
    }
    r
}

} // verus!
