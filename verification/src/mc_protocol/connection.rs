//! Packet framing on a connection: the length prefix, and zlib compression
//! once the server has set a threshold.
//!
//! The connection keeps what was read and what is to be written in buffers;
//! the caller moves bytes between them and the socket.

pub mod s2c;

use crate::mc_protocol::buffer::{bytes_from_vec, bytes_view};
use crate::mc_protocol::types::{
    lemma_scan_bounds, lemma_varint_roundtrip, varint_bytes, varint_scan_from, varint_value, McVarInt,
    McVarIntError, VarIntScan,
};
use s2c::PacketError;
use std::io::{Read, Write};
use vstd::prelude::*;

verus! {

#[verifier::external_type_specification]
#[verifier::external_body]
pub struct ExIoError(std::io::Error);

#[verifier::external_type_specification]
#[verifier::external_body]
pub struct ExDecompressError(flate2::DecompressError);

/// Why a packet could not be read.
#[derive(Debug)]
pub enum McConnectionError {
    TooBigPacket(usize),
    Io(std::io::Error),
    InvalidVarint(McVarIntError),
    UnexpectedEof,
    ParsePacket(PacketError),
    InvalidLength,
    DecompressionError(flate2::DecompressError),
    DecompressedSizeMismatch { declared: usize, actual: usize },
}

impl McConnectionError {
    /// The connection error for a VarInt that could not be read.
    pub fn from_varint_error(err: McVarIntError) -> (r: McConnectionError)
        ensures
            r == McConnectionError::InvalidVarint(err),
    {
        McConnectionError::InvalidVarint(err)
    }
}

/// A packet: its id and the bytes that follow the id.
#[derive(Debug)]
pub struct McPacket {
    pub id: i32,
    pub payload: bytes::Bytes,
}

/// A packet that the filter accepted, or the id of one it skipped.
#[derive(Debug)]
pub enum FilteredMcPacket {
    Matched(McPacket),
    Unmatched(i32),
}

/// Largest length of a packet on the wire.
pub const MAX_PACKET_SIZE: i32 = 2097151;

/// Largest length of a packet once decompressed.
pub const MAX_UNCOMPRESSED_PACKET_SIZE: i32 = 4194304;

/// The zlib stream that `flate2`'s `ZlibEncoder` makes of `data` at the
/// default compression level.
pub uninterp spec fn zlib_compressed(data: Seq<u8>) -> Seq<u8>;

/// What `flate2`'s `ZlibDecoder` reads from `data` when at most `limit` bytes
/// are taken from it: `None` when the stream is broken.
pub uninterp spec fn zlib_inflate(data: Seq<u8>, limit: nat) -> Option<Seq<u8>>;

/// Compresses with `flate2::write::ZlibEncoder` at `Compression::default()`
/// into a vector (writing to a vector does not fail). The result is named,
/// not described.
#[verifier::external_body]
fn zlib_compress(data: &[u8]) -> (r: Vec<u8>)
    ensures
        r@ == zlib_compressed(data@),
        r@.len() <= isize::MAX,
{
    let mut encoder = flate2::write::ZlibEncoder::new(Vec::new(), flate2::Compression::default());
    encoder.write_all(data).unwrap();
    encoder.finish().unwrap()
}

/// Decompresses with `flate2::read::ZlibDecoder`, taking at most `limit`
/// bytes (`Read::take`, then `read_to_end`). The result is named; beside the
/// name it is stated that no more than `limit` bytes come out, and that the
/// stream the encoder made of some bytes gives those bytes back.
#[verifier::external_body]
fn zlib_decompress(data: &[u8], limit: usize) -> (r: Result<Vec<u8>, std::io::Error>)
    ensures
        r is Ok <==> zlib_inflate(data@, limit as nat) is Some,
        r matches Ok(v) ==> zlib_inflate(data@, limit as nat) == Some(v@) && v@.len() <= limit,
        forall|x: Seq<u8>|
            data@ == #[trigger] zlib_compressed(x) && x.len() <= limit ==> r is Ok && r->Ok_0@
                == x,
{
    let mut decoder = flate2::read::ZlibDecoder::new(data).take(limit as u64);
    let mut out = Vec::new();
    match decoder.read_to_end(&mut out) {
        Ok(_) => Ok(out),
        Err(e) => Err(e),
    }
}

/// The bytes that frame a packet (its id and payload, `data`) on the wire.
/// Without compression: the length, then the data. With compression, the
/// length of what follows, then the length of the data once decompressed (0
/// when it is sent as it is, below the threshold), then the data, compressed
/// when it reaches the threshold.
pub open spec fn frame_bytes(data: Seq<u8>, threshold: Option<usize>) -> Seq<u8> {
    match threshold {
        None => varint_bytes((data.len() as i32) as u32) + data,
        Some(t) => if data.len() >= t {
            let c = zlib_compressed(data);
            let dl = varint_bytes((data.len() as i32) as u32);
            varint_bytes(((dl.len() + c.len()) as i32) as u32) + dl + c
        } else {
            varint_bytes(((varint_bytes(0).len() + data.len()) as i32) as u32) + varint_bytes(0)
                + data
        },
    }
}

/// What the start of the read buffer holds, as a frame.
pub enum FrameParse {
    /// More bytes must be read first.
    NeedMore,
    /// A length prefix is not a valid VarInt, or out of range.
    BadVarInt(McVarIntError),
    /// The frame is shorter than its data length prefix.
    BadLength,
    /// A whole frame of `consumed` bytes whose packet lies uncompressed
    /// between `start` and `end`.
    Plain { consumed: nat, start: nat, end: nat },
    /// A whole frame of `consumed` bytes whose packet lies compressed between
    /// `start` and `end`, and is `declared` bytes long once decompressed.
    Compressed { consumed: nat, start: nat, end: nat, declared: nat },
}

/// How a frame at the start of `buf` is read, with or without compression.
pub open spec fn frame_parse(buf: Seq<u8>, compressed: bool) -> FrameParse {
    match varint_scan_from(buf, 0) {
        VarIntScan::Incomplete => FrameParse::NeedMore,
        VarIntScan::TooLong => FrameParse::BadVarInt(McVarIntError::TooLong),
        VarIntScan::Complete(n1) => {
            let len = varint_value(buf, n1 as nat);
            if len < 0 || len > MAX_PACKET_SIZE {
                FrameParse::BadVarInt(
                    McVarIntError::OutOfBounds { value: len, min: 0, max: MAX_PACKET_SIZE },
                )
            } else if !compressed {
                if buf.len() < n1 + len {
                    FrameParse::NeedMore
                } else {
                    FrameParse::Plain {
                        consumed: (n1 + len) as nat,
                        start: n1 as nat,
                        end: (n1 + len) as nat,
                    }
                }
            } else {
                let rest = buf.skip(n1 as int);
                match varint_scan_from(rest, 0) {
                    VarIntScan::Incomplete => FrameParse::NeedMore,
                    VarIntScan::TooLong => FrameParse::BadVarInt(McVarIntError::TooLong),
                    VarIntScan::Complete(n2) => {
                        let ul = varint_value(rest, n2 as nat);
                        if ul < 0 || ul > MAX_UNCOMPRESSED_PACKET_SIZE {
                            FrameParse::BadVarInt(
                                McVarIntError::OutOfBounds {
                                    value: ul,
                                    min: 0,
                                    max: MAX_UNCOMPRESSED_PACKET_SIZE,
                                },
                            )
                        } else if len < n2 {
                            FrameParse::BadLength
                        } else if buf.len() < n1 + len {
                            FrameParse::NeedMore
                        } else if ul == 0 {
                            FrameParse::Plain {
                                consumed: (n1 + len) as nat,
                                start: (n1 + n2) as nat,
                                end: (n1 + len) as nat,
                            }
                        } else {
                            FrameParse::Compressed {
                                consumed: (n1 + len) as nat,
                                start: (n1 + n2) as nat,
                                end: (n1 + len) as nat,
                                declared: ul as nat,
                            }
                        }
                    },
                }
            }
        },
    }
}

/// Splitting a packet's bytes into its id and payload.
pub open spec fn packet_split(data: Seq<u8>) -> Result<(i32, Seq<u8>), McVarIntError> {
    match varint_scan_from(data, 0) {
        VarIntScan::Complete(k) => Ok((varint_value(data, k as nat), data.skip(k as int))),
        VarIntScan::Incomplete => Err(McVarIntError::UnexpectedEof),
        VarIntScan::TooLong => Err(McVarIntError::TooLong),
    }
}

/// The outcome of reading a packet from a buffer: none yet, a packet, or
/// the error, as the frame and the bytes of the packet give them.
pub open spec fn poll_result(
    r: Result<Option<McPacket>, McConnectionError>,
    data: Seq<u8>,
) -> bool {
    match packet_split(data) {
        Ok((id, payload)) => r matches Ok(Some(p)) && p.id == id && bytes_view(p.payload)
            == payload,
        Err(e) => r matches Err(err) && err == McConnectionError::InvalidVarint(e),
    }
}

/// What reading a packet from the buffer `buf` does: `after` is the buffer
/// left, `r` the outcome.
pub open spec fn poll_spec(
    buf: Seq<u8>,
    compressed: bool,
    after: Seq<u8>,
    r: Result<Option<McPacket>, McConnectionError>,
) -> bool {
    match frame_parse(buf, compressed) {
        FrameParse::NeedMore => r matches Ok(None) && after == buf,
        FrameParse::BadVarInt(e) => r matches Err(err) && err == McConnectionError::InvalidVarint(e)
            && after == buf,
        FrameParse::BadLength => r matches Err(err) && err is InvalidLength && after == buf,
        FrameParse::Plain { consumed, start, end } => {
            &&& after == buf.skip(consumed as int)
            &&& poll_result(r, buf.subrange(start as int, end as int))
        },
        FrameParse::Compressed { consumed, start, end, declared } => {
            let data = buf.subrange(start as int, end as int);
            &&& after == buf.skip(consumed as int)
            &&& match zlib_inflate(data, declared) {
                None => r matches Err(err) && err is Io,
                Some(out) => if out.len() != declared {
                    r matches Err(err) && err == McConnectionError::DecompressedSizeMismatch {
                        declared: declared as usize,
                        actual: out.len() as usize,
                    }
                } else {
                    poll_result(r, out)
                },
            }
            &&& forall|x: Seq<u8>|
                data == #[trigger] zlib_compressed(x) && x.len() == declared ==> poll_result(r, x)
        },
    }
}

/// A connection's framing state: the protocol version, what has been read
/// and not yet used, what is queued for writing, and the compression
/// threshold once the server has set one.
pub struct McConnection {
    pub protocol: i32,
    read_buf: Vec<u8>,
    write_buf: Vec<u8>,
    compression_threshold: Option<usize>,
}

impl McConnection {
    /// Bytes read from the server and not yet used.
    pub closed spec fn read_buffer(&self) -> Seq<u8> {
        self.read_buf@
    }

    /// Bytes queued for the server.
    pub closed spec fn write_buffer(&self) -> Seq<u8> {
        self.write_buf@
    }

    /// The protocol version.
    pub closed spec fn spec_protocol(&self) -> i32 {
        self.protocol
    }

    /// The compression threshold, once set.
    pub closed spec fn threshold(&self) -> Option<usize> {
        self.compression_threshold
    }

    /// A new connection state: nothing read or queued, no compression.
    pub fn new(protocol: i32) -> (r: McConnection)
        ensures
            r.spec_protocol() == protocol,
            r.read_buffer() == Seq::<u8>::empty(),
            r.write_buffer() == Seq::<u8>::empty(),
            r.threshold() is None,
    {
        McConnection {
            protocol,
            read_buf: Vec::new(),
            write_buf: Vec::new(),
            compression_threshold: None,
        }
    }

    /// Compresses, from now on, the packets of at least `threshold` bytes.
    pub fn enable_compress(&mut self, threshold: usize)
        ensures
            final(self).threshold() == Some(threshold),
            final(self).read_buffer() == old(self).read_buffer(),
            final(self).write_buffer() == old(self).write_buffer(),
            final(self).spec_protocol() == old(self).spec_protocol(),
    {
        self.compression_threshold = Some(threshold);
    }

    /// The compression threshold, once set.
    pub fn compression_threshold(&self) -> (r: Option<usize>)
        ensures
            r == self.threshold(),
    {
        self.compression_threshold
    }

    /// Queues a packet, given as its id and payload already encoded, in its
    /// frame.
    pub fn queue_packet(&mut self, encoded: &[u8])
        ensures
            final(self).write_buffer() == old(self).write_buffer() + frame_bytes(
                encoded@,
                old(self).threshold(),
            ),
            final(self).read_buffer() == old(self).read_buffer(),
            final(self).threshold() == old(self).threshold(),
            final(self).spec_protocol() == old(self).spec_protocol(),
    {
        let uncompressed_len = encoded.len();
        match self.compression_threshold {
            Some(threshold) => {
                if uncompressed_len >= threshold {
                    let compressed = zlib_compress(encoded);
                    let data_length = McVarInt(uncompressed_len as i32);
                    let data_length_size = data_length.len();
                    let packet_length = data_length_size + compressed.len();
                    McVarInt(packet_length as i32).write_to_buf(&mut self.write_buf);
                    data_length.write_to_buf(&mut self.write_buf);
                    let ghost before = self.write_buf@;
                    self.write_buf.extend_from_slice(compressed.as_slice());
                    assert(self.write_buf@ =~= before + compressed@);
                } else {
                    let data_length_size = McVarInt(0).len();
                    let packet_length = data_length_size + uncompressed_len;
                    McVarInt(packet_length as i32).write_to_buf(&mut self.write_buf);
                    McVarInt(0).write_to_buf(&mut self.write_buf);
                    let ghost before = self.write_buf@;
                    self.write_buf.extend_from_slice(encoded);
                    assert(self.write_buf@ =~= before + encoded@);
                }
            },
            None => {
                McVarInt(uncompressed_len as i32).write_to_buf(&mut self.write_buf);
                let ghost before = self.write_buf@;
                self.write_buf.extend_from_slice(encoded);
                assert(self.write_buf@ =~= before + encoded@);
            },
        }
        proof {
            assert(self.write_buf@ =~= old(self).write_buf@ + frame_bytes(
                encoded@,
                old(self).compression_threshold,
            ));
        }
    }
}


impl McConnection {
    /// Appends bytes read from the server.
    pub fn feed(&mut self, bytes: &[u8])
        ensures
            final(self).read_buffer() == old(self).read_buffer() + bytes@,
            final(self).write_buffer() == old(self).write_buffer(),
            final(self).threshold() == old(self).threshold(),
            final(self).spec_protocol() == old(self).spec_protocol(),
    {
        self.read_buf.extend_from_slice(bytes);
        assert(self.read_buf@ =~= old(self).read_buf@ + bytes@);
    }

    /// Whether packets are queued and not yet flushed.
    pub fn has_queued(&self) -> (r: bool)
        ensures
            r == (self.write_buffer().len() > 0),
    {
        self.write_buf.len() > 0
    }

    /// Takes the queued bytes, to be written to the socket.
    pub fn take_queued(&mut self) -> (r: Vec<u8>)
        ensures
            r@ == old(self).write_buffer(),
            final(self).write_buffer() == Seq::<u8>::empty(),
            final(self).read_buffer() == old(self).read_buffer(),
            final(self).threshold() == old(self).threshold(),
            final(self).spec_protocol() == old(self).spec_protocol(),
    {
        let mut out: Vec<u8> = Vec::new();
        std::mem::swap(&mut out, &mut self.write_buf);
        out
    }

    /// Reads the packet at the start of the read buffer, if it is all there:
    /// `Ok(None)` asks for more bytes. Without compression the frame holds the
    /// packet's length and the packet; with compression, also the length of
    /// the packet once decompressed, 0 when it is not compressed. A bad length
    /// prefix leaves the buffer as it was; a whole frame is taken from it.
    pub fn poll_packet(&mut self) -> (r: Result<Option<McPacket>, McConnectionError>)
        ensures
            final(self).write_buffer() == old(self).write_buffer(),
            final(self).threshold() == old(self).threshold(),
            final(self).spec_protocol() == old(self).spec_protocol(),
            poll_spec(
                old(self).read_buffer(),
                old(self).threshold() is Some,
                final(self).read_buffer(),
                r,
            ),
    {
        let ghost buf0 = self.read_buf@;
        let compressed = self.compression_threshold.is_some();
        let (length, n1) = match McVarInt::decode(self.read_buf.as_slice()) {
            Ok(v) => v,
            Err(McVarIntError::UnexpectedEof) => {
                return Ok(None);
            },
            Err(e) => {
                return Err(McConnectionError::InvalidVarint(e));
            },
        };
        proof {
            assert(varint_scan_from(buf0, 0) == VarIntScan::Complete(n1));
            lemma_scan_bounds(buf0, 0, n1);
        }
        let length = match length.with_check(0, MAX_PACKET_SIZE) {
            Ok(v) => v.0 as usize,
            Err(e) => {
                return Err(McConnectionError::InvalidVarint(e));
            },
        };
        if !compressed {
            if self.read_buf.len() - n1 < length {
                return Ok(None);
            }
            let data = copy_range(self.read_buf.as_slice(), n1, n1 + length);
            let tail = self.read_buf.split_off(n1 + length);
            self.read_buf = tail;
            return split_packet(data);
        }
        let rest = copy_range(self.read_buf.as_slice(), n1, self.read_buf.len());
        assert(rest@ =~= buf0.skip(n1 as int));
        let (ul, n2) = match McVarInt::decode(rest.as_slice()) {
            Ok(v) => v,
            Err(McVarIntError::UnexpectedEof) => {
                return Ok(None);
            },
            Err(e) => {
                return Err(McConnectionError::InvalidVarint(e));
            },
        };
        proof {
            assert(varint_scan_from(rest@, 0) == VarIntScan::Complete(n2));
            lemma_scan_bounds(rest@, 0, n2);
        }
        let uncompressed_len = match ul.with_check(0, MAX_UNCOMPRESSED_PACKET_SIZE) {
            Ok(v) => v.0 as usize,
            Err(e) => {
                return Err(McConnectionError::InvalidVarint(e));
            },
        };
        if length < n2 {
            return Err(McConnectionError::InvalidLength);
        }
        if self.read_buf.len() - n1 < length {
            return Ok(None);
        }
        let data = copy_range(self.read_buf.as_slice(), n1 + n2, n1 + length);
        let tail = self.read_buf.split_off(n1 + length);
        self.read_buf = tail;
        if uncompressed_len == 0 {
            return split_packet(data);
        }
        match zlib_decompress(data.as_slice(), uncompressed_len) {
            Err(e) => Err(McConnectionError::Io(e)),
            Ok(out) => {
                if out.len() != uncompressed_len {
                    Err(
                        McConnectionError::DecompressedSizeMismatch {
                            declared: uncompressed_len,
                            actual: out.len(),
                        },
                    )
                } else {
                    split_packet(out)
                }
            },
        }
    }
}

/// Where the id of a packet in a frame lies: `p` is where the id starts,
/// `frame_end` where the frame ends. Without compression a skipped packet
/// takes its payload's length once more from the buffer after the frame.
pub open spec fn id_in_frame(buf: Seq<u8>, p: nat, frame_end: nat, skip_twice: bool) -> FilteredFrame {
    let rest = buf.skip(p as int);
    match varint_scan_from(rest, 0) {
        VarIntScan::Incomplete => FilteredFrame::NeedMore,
        VarIntScan::TooLong => FilteredFrame::BadVarInt(McVarIntError::TooLong),
        VarIntScan::Complete(k) => if frame_end < p + k {
            FilteredFrame::BadLength
        } else {
            FilteredFrame::Raw {
                id: varint_value(rest, k as nat),
                start: (p + k) as nat,
                end: frame_end,
                skip_to: if skip_twice {
                    (frame_end + (frame_end - (p + k))) as nat
                } else {
                    frame_end
                },
            }
        },
    }
}

/// What the start of the read buffer holds, as a frame whose packet may be
/// skipped by its id.
pub enum FilteredFrame {
    /// More bytes must be read first.
    NeedMore,
    /// A length prefix or the id is not a valid VarInt, or out of range.
    BadVarInt(McVarIntError),
    /// The frame is shorter than what its prefixes take.
    BadLength,
    /// The id lies uncompressed in the frame; the payload lies between
    /// `start` and `end`; a skipped packet takes the buffer up to `skip_to`.
    Raw { id: i32, start: nat, end: nat, skip_to: nat },
    /// A whole frame of `consumed` bytes whose packet lies compressed between
    /// `start` and `end`, and is `declared` bytes long once decompressed.
    Compressed { consumed: nat, start: nat, end: nat, declared: nat },
}

/// How a frame at the start of `buf` is read when its packet may be skipped.
pub open spec fn filtered_frame(buf: Seq<u8>, compressed: bool) -> FilteredFrame {
    match varint_scan_from(buf, 0) {
        VarIntScan::Incomplete => FilteredFrame::NeedMore,
        VarIntScan::TooLong => FilteredFrame::BadVarInt(McVarIntError::TooLong),
        VarIntScan::Complete(n1) => {
            let len = varint_value(buf, n1 as nat);
            if len < 0 || len > MAX_PACKET_SIZE {
                FilteredFrame::BadVarInt(
                    McVarIntError::OutOfBounds { value: len, min: 0, max: MAX_PACKET_SIZE },
                )
            } else if !compressed {
                id_in_frame(buf, n1 as nat, (n1 + len) as nat, true)
            } else {
                let rest = buf.skip(n1 as int);
                match varint_scan_from(rest, 0) {
                    VarIntScan::Incomplete => FilteredFrame::NeedMore,
                    VarIntScan::TooLong => FilteredFrame::BadVarInt(McVarIntError::TooLong),
                    VarIntScan::Complete(n2) => {
                        let ul = varint_value(rest, n2 as nat);
                        if ul < 0 || ul > MAX_UNCOMPRESSED_PACKET_SIZE {
                            FilteredFrame::BadVarInt(
                                McVarIntError::OutOfBounds {
                                    value: ul,
                                    min: 0,
                                    max: MAX_UNCOMPRESSED_PACKET_SIZE,
                                },
                            )
                        } else if len < n2 {
                            FilteredFrame::BadLength
                        } else if ul == 0 {
                            id_in_frame(buf, (n1 + n2) as nat, (n1 + len) as nat, false)
                        } else if buf.len() < n1 + len {
                            FilteredFrame::NeedMore
                        } else {
                            FilteredFrame::Compressed {
                                consumed: (n1 + len) as nat,
                                start: (n1 + n2) as nat,
                                end: (n1 + len) as nat,
                                declared: ul as nat,
                            }
                        }
                    },
                }
            }
        },
    }
}

/// The outcome for a packet whose id is `id` and payload `payload`, as the
/// filter answered for the id.
pub open spec fn filtered_result<F: Fn(i32) -> bool>(
    r: Result<Option<FilteredMcPacket>, McConnectionError>,
    filter: F,
    id: i32,
    payload: Seq<u8>,
) -> bool {
    ||| r matches Ok(Some(FilteredMcPacket::Matched(p))) && call_ensures(filter, (id,), true)
        && p.id == id && bytes_view(p.payload) == payload
    ||| r matches Ok(Some(FilteredMcPacket::Unmatched(i))) && call_ensures(filter, (id,), false)
        && i == id
}

/// What reading a packet that the filter may skip does to the buffer `buf`:
/// `after` is the buffer left, `r` the outcome.
pub open spec fn poll_filtered_spec<F: Fn(i32) -> bool>(
    buf: Seq<u8>,
    compressed: bool,
    filter: F,
    after: Seq<u8>,
    r: Result<Option<FilteredMcPacket>, McConnectionError>,
) -> bool {
    match filtered_frame(buf, compressed) {
        FilteredFrame::NeedMore => r matches Ok(None) && after == buf,
        FilteredFrame::BadVarInt(e) => r matches Err(err) && err == McConnectionError::InvalidVarint(
            e,
        ) && after == buf,
        FilteredFrame::BadLength => r matches Err(err) && err is InvalidLength && after == buf,
        FilteredFrame::Raw { id, start, end, skip_to } => if buf.len() < end {
            r matches Ok(None) && after == buf
        } else {
            ||| r matches Ok(Some(FilteredMcPacket::Matched(p))) && call_ensures(filter, (id,), true)
                && p.id == id && bytes_view(p.payload) == buf.subrange(start as int, end as int)
                && after == buf.skip(end as int)
            ||| r matches Ok(Some(FilteredMcPacket::Unmatched(i))) && call_ensures(
                filter,
                (id,),
                false,
            ) && i == id && skip_to <= buf.len() && after == buf.skip(skip_to as int)
            ||| r matches Ok(None) && call_ensures(filter, (id,), false) && buf.len() < skip_to
                && after == buf
        },
        FilteredFrame::Compressed { consumed, start, end, declared } => {
            &&& after == buf.skip(consumed as int)
            &&& match zlib_inflate(buf.subrange(start as int, end as int), declared) {
                None => r matches Err(err) && err is Io,
                Some(out) => match packet_split(out) {
                    Err(e) => r matches Err(err) && err == McConnectionError::InvalidVarint(e),
                    Ok((id, payload)) => filtered_result(r, filter, id, payload),
                },
            }
        },
    }
}

impl McConnection {
    /// Reads the packet at the start of the read buffer, if it is all there,
    /// and keeps its payload only when `filter` accepts its id. `Ok(None)`
    /// asks for more bytes. Without compression a skipped packet's payload is
    /// read and then as many bytes again are skipped after its frame.
    pub fn poll_filtered_raw<F: Fn(i32) -> bool>(&mut self, filter: &F) -> (r: Result<
        Option<FilteredMcPacket>,
        McConnectionError,
    >)
        requires
            forall|i: i32| call_requires(*filter, (i,)),
        ensures
            final(self).write_buffer() == old(self).write_buffer(),
            final(self).threshold() == old(self).threshold(),
            final(self).spec_protocol() == old(self).spec_protocol(),
            poll_filtered_spec(
                old(self).read_buffer(),
                old(self).threshold() is Some,
                *filter,
                final(self).read_buffer(),
                r,
            ),
    {
        let ghost buf0 = self.read_buf@;
        let compressed = self.compression_threshold.is_some();
        let (length, n1) = match McVarInt::decode(self.read_buf.as_slice()) {
            Ok(v) => v,
            Err(McVarIntError::UnexpectedEof) => {
                return Ok(None);
            },
            Err(e) => {
                return Err(McConnectionError::InvalidVarint(e));
            },
        };
        proof {
            lemma_scan_bounds(buf0, 0, n1);
        }
        let length = match length.with_check(0, MAX_PACKET_SIZE) {
            Ok(v) => v.0 as usize,
            Err(e) => {
                return Err(McConnectionError::InvalidVarint(e));
            },
        };
        let (id_start, frame_end) = if !compressed {
            (n1, n1 + length)
        } else {
            let rest = copy_range(self.read_buf.as_slice(), n1, self.read_buf.len());
            assert(rest@ =~= buf0.skip(n1 as int));
            let (ul, n2) = match McVarInt::decode(rest.as_slice()) {
                Ok(v) => v,
                Err(McVarIntError::UnexpectedEof) => {
                    return Ok(None);
                },
                Err(e) => {
                    return Err(McConnectionError::InvalidVarint(e));
                },
            };
            proof {
                lemma_scan_bounds(rest@, 0, n2);
            }
            let uncompressed_len = match ul.with_check(0, MAX_UNCOMPRESSED_PACKET_SIZE) {
                Ok(v) => v.0 as usize,
                Err(e) => {
                    return Err(McConnectionError::InvalidVarint(e));
                },
            };
            if length < n2 {
                return Err(McConnectionError::InvalidLength);
            }
            if uncompressed_len != 0 {
                if self.read_buf.len() - n1 < length {
                    return Ok(None);
                }
                let data = copy_range(self.read_buf.as_slice(), n1 + n2, n1 + length);
                let tail = self.read_buf.split_off(n1 + length);
                self.read_buf = tail;
                return match zlib_decompress(data.as_slice(), uncompressed_len) {
                    Err(e) => Err(McConnectionError::Io(e)),
                    Ok(out) => {
                        let ghost o = out@;
                        let mut payload = bytes_from_vec(out);
                        match McVarInt::read_from_buf(&mut payload) {
                            Err(e) => Err(McConnectionError::InvalidVarint(e)),
                            Ok(id) => if filter(id.0) {
                                Ok(Some(FilteredMcPacket::Matched(McPacket { id: id.0, payload })))
                            } else {
                                Ok(Some(FilteredMcPacket::Unmatched(id.0)))
                            },
                        }
                    },
                };
            }
            (n1 + n2, n1 + length)
        };
        let rest = copy_range(self.read_buf.as_slice(), id_start, self.read_buf.len());
        assert(rest@ =~= buf0.skip(id_start as int));
        let (id, k) = match McVarInt::decode(rest.as_slice()) {
            Ok(v) => v,
            Err(McVarIntError::UnexpectedEof) => {
                return Ok(None);
            },
            Err(e) => {
                return Err(McConnectionError::InvalidVarint(e));
            },
        };
        proof {
            lemma_scan_bounds(rest@, 0, k);
        }
        if frame_end - id_start < k {
            return Err(McConnectionError::InvalidLength);
        }
        if self.read_buf.len() < frame_end {
            return Ok(None);
        }
        if filter(id.0) {
            let data = copy_range(self.read_buf.as_slice(), id_start + k, frame_end);
            let tail = self.read_buf.split_off(frame_end);
            self.read_buf = tail;
            Ok(Some(FilteredMcPacket::Matched(McPacket { id: id.0, payload: bytes_from_vec(data) })))
        } else {
            let skip_to = if compressed {
                frame_end
            } else {
                frame_end + (frame_end - (id_start + k))
            };
            if self.read_buf.len() < skip_to {
                return Ok(None);
            }
            let tail = self.read_buf.split_off(skip_to);
            self.read_buf = tail;
            Ok(Some(FilteredMcPacket::Unmatched(id.0)))
        }
    }
}

/// Splits a packet's bytes into its id and payload.
fn split_packet(data: Vec<u8>) -> (r: Result<Option<McPacket>, McConnectionError>)
    ensures
        poll_result(r, data@),
{
    let ghost d = data@;
    let mut payload = bytes_from_vec(data);
    match McVarInt::read_from_buf(&mut payload) {
        Ok(id) => Ok(Some(McPacket { id: id.0, payload })),
        Err(e) => Err(McConnectionError::InvalidVarint(e)),
    }
}

/// A copy of `v[i..j]`.
fn copy_range(v: &[u8], i: usize, j: usize) -> (r: Vec<u8>)
    requires
        i <= j <= v@.len(),
    ensures
        r@ == v@.subrange(i as int, j as int),
{
    let mut r: Vec<u8> = Vec::new();
    let mut k = i;
    while k < j
        invariant
            i <= k <= j <= v@.len(),
            r@ == v@.subrange(i as int, k as int),
        decreases j - k,
    {
        r.push(v[k]);
        assert(r@ =~= v@.subrange(i as int, k + 1));
        k = k + 1;
    }
    r
}

/// A frame header: the VarInt of `x` followed by `tail` reads back as `x`,
/// `tail` starting right after it.
proof fn lemma_header(x: nat, tail: Seq<u8>)
    requires
        x <= i32::MAX,
    ensures
        1 <= varint_bytes((x as i32) as u32).len() <= 5,
        varint_scan_from(varint_bytes((x as i32) as u32) + tail, 0) == VarIntScan::Complete(
            varint_bytes((x as i32) as u32).len() as usize,
        ),
        varint_value(varint_bytes((x as i32) as u32) + tail, varint_bytes((x as i32) as u32).len())
            == x,
        (varint_bytes((x as i32) as u32) + tail).skip(varint_bytes((x as i32) as u32).len() as int)
            == tail,
{
    lemma_varint_roundtrip(x as i32, tail);
    assert((varint_bytes((x as i32) as u32) + tail).skip(
        varint_bytes((x as i32) as u32).len() as int,
    ) =~= tail);
}

/// A frame without compression reads back as the packet's bytes.
proof fn lemma_frame_uncompressed(data: Seq<u8>, rest: Seq<u8>)
    requires
        data.len() <= MAX_PACKET_SIZE,
    ensures
        ({
            let frame = frame_bytes(data, None);
            let buf = frame + rest;
            frame_parse(buf, false) matches FrameParse::Plain { consumed, start, end }
                && consumed == frame.len() && buf.subrange(start as int, end as int) == data
        }),
{
    let buf = frame_bytes(data, None) + rest;
    let h = varint_bytes((data.len() as i32) as u32);
    lemma_header(data.len(), data + rest);
    assert(buf =~= h + (data + rest));
    assert(buf.subrange(h.len() as int, (h.len() + data.len()) as int) =~= data);
}

/// A frame below the threshold reads back as the packet's bytes, after the
/// zero that says it is not compressed.
proof fn lemma_frame_below_threshold(data: Seq<u8>, t: usize, rest: Seq<u8>)
    requires
        data.len() < t,
        data.len() + 1 <= MAX_PACKET_SIZE,
    ensures
        ({
            let frame = frame_bytes(data, Some(t));
            let buf = frame + rest;
            frame_parse(buf, true) matches FrameParse::Plain { consumed, start, end }
                && consumed == frame.len() && buf.subrange(start as int, end as int) == data
        }),
{
    let buf = frame_bytes(data, Some(t)) + rest;
    let z = varint_bytes(0);
    lemma_header(0, data + rest);
    let h = varint_bytes(((z.len() + data.len()) as i32) as u32);
    assert(z.len() == 1);
    lemma_header(z.len() + data.len(), z + data + rest);
    assert(buf =~= h + (z + data + rest));
    assert((h + (z + data + rest)).skip(h.len() as int) =~= z + (data + rest));
    assert(buf.subrange((h.len() + 1) as int, (h.len() + 1 + data.len()) as int) =~= data);
}

/// A frame at or above the threshold reads back as the compressed bytes,
/// with the packet's length.
proof fn lemma_frame_above_threshold(data: Seq<u8>, t: usize, rest: Seq<u8>)
    requires
        data.len() >= t,
        0 < data.len() <= MAX_UNCOMPRESSED_PACKET_SIZE,
        varint_bytes((data.len() as i32) as u32).len() + zlib_compressed(data).len()
            <= MAX_PACKET_SIZE,
    ensures
        ({
            let frame = frame_bytes(data, Some(t));
            let buf = frame + rest;
            frame_parse(buf, true) matches FrameParse::Compressed { consumed, start, end, declared }
                && consumed == frame.len() && buf.subrange(start as int, end as int)
                == zlib_compressed(data) && declared == data.len()
        }),
{
    let buf = frame_bytes(data, Some(t)) + rest;
    let c = zlib_compressed(data);
    let dl = varint_bytes((data.len() as i32) as u32);
    lemma_header(data.len(), c + rest);
    assert(dl.len() <= 5);
    let h = varint_bytes(((dl.len() + c.len()) as i32) as u32);
    lemma_header(dl.len() + c.len(), dl + c + rest);
    assert(buf =~= h + (dl + c + rest));
    assert((h + (dl + c + rest)).skip(h.len() as int) =~= dl + (c + rest));
    assert(buf.subrange((h.len() + dl.len()) as int, (h.len() + dl.len() + c.len()) as int)
        =~= c);
}

/// What a read gives back of a write: a packet framed by
/// [`McConnection::queue_packet`] and read by [`McConnection::poll_packet`]
/// comes back as it was sent, id and payload, and the bytes after its frame
/// stay in the buffer. A frame must fit the largest frame: without
/// compression the packet's bytes, below the threshold those and the zero
/// that marks them, above it the length of the data as a VarInt and the
/// compressed bytes.
pub proof fn lemma_packet_roundtrip(
    data: Seq<u8>,
    threshold: Option<usize>,
    rest: Seq<u8>,
    after: Seq<u8>,
    r: Result<Option<McPacket>, McConnectionError>,
)
    ensures
        ({
            let buf = frame_bytes(data, threshold) + rest;
            let fits = if threshold is Some && data.len() >= threshold->0 {
                0 < data.len() <= MAX_UNCOMPRESSED_PACKET_SIZE && varint_bytes(
                    (data.len() as i32) as u32,
                ).len() + zlib_compressed(data).len() <= MAX_PACKET_SIZE
            } else if threshold is Some {
                data.len() + 1 <= MAX_PACKET_SIZE
            } else {
                data.len() <= MAX_PACKET_SIZE
            };
            fits && poll_spec(buf, threshold is Some, after, r) ==> after == rest && poll_result(
                r,
                data,
            )
        }),
{
    let frame = frame_bytes(data, threshold);
    let buf = frame + rest;
    assert(buf.skip(frame.len() as int) =~= rest);
    match threshold {
        None => {
            if data.len() <= MAX_PACKET_SIZE {
                lemma_frame_uncompressed(data, rest);
            }
        },
        Some(t) => {
            if data.len() < t && data.len() + 1 <= MAX_PACKET_SIZE {
                lemma_frame_below_threshold(data, t, rest);
            }
            if data.len() >= t && 0 < data.len() <= MAX_UNCOMPRESSED_PACKET_SIZE
                && varint_bytes((data.len() as i32) as u32).len() + zlib_compressed(data).len()
                <= MAX_PACKET_SIZE {
                lemma_frame_above_threshold(data, t, rest);
            }
        },
    }
}

} // verus!
