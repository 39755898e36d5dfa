//! Protocol values: the VarInt number, and the game values that packets
//! carry.

pub mod difficulty;
pub mod gamemode;
pub mod player;

use crate::mc_protocol::buffer::{bytes_advance, bytes_as_slice, bytes_view};
use vstd::prelude::*;

verus! {

/// A 32-bit integer as the protocol writes it: seven bits per byte, low
/// bits first, the high bit of a byte set when more bytes follow.
#[derive(Clone, Copy, Debug, PartialEq, Eq, Structural)]
pub struct McVarInt(pub i32);

/// Why a VarInt could not be read or was refused.
#[derive(Clone, Copy, Debug, PartialEq, Eq, Structural)]
pub enum McVarIntError {
    /// More than five bytes.
    TooLong,
    /// The bytes ended inside the number.
    UnexpectedEof,
    /// The value lies outside the range that the reader accepts.
    OutOfBounds { value: i32, min: i32, max: i32 },
}

/// What the reader finds at the start of some bytes.
#[derive(Clone, Copy, Debug, PartialEq, Eq, Structural)]
pub enum VarIntScan {
    /// A whole number of the given byte length.
    Complete(usize),
    /// The bytes end before the number does.
    Incomplete,
    /// A sixth byte follows five bytes that all announce more.
    TooLong,
}

/// The bytes that encode an unsigned 32-bit value.
pub open spec fn varint_bytes(v: u32) -> Seq<u8>
    decreases v,
{
    if v < 128 {
        seq![v as u8]
    } else {
        seq![(v % 128 + 128) as u8] + varint_bytes(v / 128)
    }
}

/// How the reader, at byte `i`, goes on through `s`.
pub open spec fn varint_scan_from(s: Seq<u8>, i: nat) -> VarIntScan
    decreases 6 - i,
{
    if i >= s.len() {
        VarIntScan::Incomplete
    } else if i >= 5 {
        VarIntScan::TooLong
    } else if s[i as int] < 128 {
        VarIntScan::Complete((i + 1) as usize)
    } else {
        varint_scan_from(s, i + 1)
    }
}

/// The number the low seven bits of each byte spell, low group first.
pub open spec fn varint_raw(s: Seq<u8>) -> nat
    decreases s.len(),
{
    if s.len() == 0 {
        0
    } else {
        (s[0] % 128) as nat + 128 * varint_raw(s.drop_first())
    }
}

/// The value of an encoding of `n` bytes: its low 32 bits, as a signed number.
pub open spec fn varint_value(s: Seq<u8>, n: nat) -> i32 {
    ((varint_raw(s.take(n as int)) % 0x1_0000_0000) as u32) as i32
}

/// `128^k`.
pub open spec fn pow128(k: nat) -> nat
    decreases k,
{
    if k == 0 {
        1
    } else {
        128 * pow128((k - 1) as nat)
    }
}

proof fn lemma_varint_bytes_shape(v: u32)
    ensures
        1 <= varint_bytes(v).len() <= 5,
        varint_bytes(v).last() < 128,
        forall|j: int| 0 <= j < varint_bytes(v).len() - 1 ==> #[trigger] varint_bytes(v)[j] >= 128,
        varint_raw(varint_bytes(v)) == v,
{
    reveal_with_fuel(pow128, 6);
    lemma_varint_bytes_shape_rec(v, 5);
}

proof fn lemma_varint_bytes_shape_rec(v: u32, k: nat)
    requires
        v < pow128(k),
    ensures
        1 <= varint_bytes(v).len() <= (if k == 0 { 1 } else { k }),
        varint_bytes(v).last() < 128,
        forall|j: int| 0 <= j < varint_bytes(v).len() - 1 ==> #[trigger] varint_bytes(v)[j] >= 128,
        varint_raw(varint_bytes(v)) == v,
    decreases v,
{
    let s = varint_bytes(v);
    if v < 128 {
        assert(s.drop_first() =~= Seq::<u8>::empty());
        assert(varint_raw(s.drop_first()) == 0);
    } else {
        let t = varint_bytes(v / 128);
        if k == 0 {
            assert(false);
        }
        assert(v / 128 < pow128((k - 1) as nat));
        lemma_varint_bytes_shape_rec(v / 128, (k - 1) as nat);
        if k == 1 {
            assert(false);
        }
        assert(s == seq![(v % 128 + 128) as u8] + t);
        assert(s.drop_first() =~= t);
        assert(s[0] == (v % 128 + 128) as u8);
        assert(((v % 128 + 128) as u8) % 128 == v % 128);
        assert(varint_raw(s) == (s[0] % 128) as nat + 128 * varint_raw(t));
        assert forall|j: int| 0 <= j < s.len() - 1 implies #[trigger] s[j] >= 128 by {
            if j > 0 {
                assert(s[j] == t[j - 1]);
            }
        }
    }
}

/// When the bytes from `i` on announce more up to byte `n - 1`, and that one
/// ends the number, the reader stops after `n` bytes.
proof fn lemma_scan_terminal(t: Seq<u8>, i: nat, n: nat)
    requires
        i < n <= 5,
        n <= t.len(),
        t[n - 1] < 128,
        forall|j: int| i <= j < n - 1 ==> #[trigger] t[j] >= 128,
    ensures
        varint_scan_from(t, i) == VarIntScan::Complete(n as usize),
    decreases n - i,
{
    if i < n - 1 {
        lemma_scan_terminal(t, i + 1, n);
    }
}

/// Reading the encoding of a number gives the number back, whatever bytes
/// follow it.
pub proof fn lemma_varint_roundtrip(x: i32, rest: Seq<u8>)
    ensures
        1 <= varint_bytes(x as u32).len() <= 5,
        varint_scan_from(varint_bytes(x as u32) + rest, 0) == VarIntScan::Complete(
            varint_bytes(x as u32).len() as usize,
        ),
        varint_value(varint_bytes(x as u32) + rest, varint_bytes(x as u32).len()) == x,
{
    let s = varint_bytes(x as u32);
    let t = s + rest;
    lemma_varint_bytes_shape(x as u32);
    assert forall|j: int| 0 <= j < s.len() - 1 implies #[trigger] t[j] >= 128 by {
        assert(t[j] == s[j]);
    }
    assert(t[s.len() - 1] == s.last());
    lemma_scan_terminal(t, 0, s.len());
    assert(t.take(s.len() as int) =~= s);
    let u = x as u32;
    assert((u as int) % 0x1_0000_0000 == u as int);
    assert(((x as u32) as i32) == x) by (bit_vector);
}

impl McVarInt {
    /// Number of bytes of the encoding.
    pub fn len(&self) -> (r: usize)
        ensures
            r == varint_bytes(self.0 as u32).len(),
            1 <= r <= 5,
    {
        let mut v: u32 = self.0 as u32;
        let mut n: usize = 1;
        proof {
            lemma_varint_bytes_shape(v);
        }
        while v >= 128
            invariant
                n + varint_bytes(v).len() - 1 == varint_bytes(self.0 as u32).len(),
                varint_bytes(self.0 as u32).len() <= 5,
                1 <= n,
                1 <= varint_bytes(v).len(),
            decreases v,
        {
            proof {
                lemma_varint_bytes_shape(v / 128);
            }
            v = v / 128;
            n = n + 1;
        }
        n
    }

    /// Appends the encoding to `buf`.
    pub fn write_to_buf(&self, buf: &mut Vec<u8>)
        ensures
            final(buf)@ == old(buf)@ + varint_bytes(self.0 as u32),
    {
        let mut v: u32 = self.0 as u32;
        let ghost orig = old(buf)@;
        while v >= 128
            invariant
                orig + varint_bytes(self.0 as u32) == buf@ + varint_bytes(v),
            decreases v,
        {
            let ghost before = buf@;
            buf.push((v % 128) as u8 + 128);
            assert(varint_bytes(v) == seq![(v % 128 + 128) as u8] + varint_bytes(v / 128));
            assert(before + varint_bytes(v) =~= buf@ + varint_bytes(v / 128));
            v = v / 128;
        }
        buf.push(v as u8);
        assert(varint_bytes(v) == seq![v as u8]);
    }

    /// Finds where a VarInt at the start of `bytes` ends.
    pub fn scan(bytes: &[u8]) -> (r: VarIntScan)
        ensures
            r == varint_scan_from(bytes@, 0),
    {
        let mut i: usize = 0;
        while i < bytes.len()
            invariant
                i <= bytes.len(),
                i <= 5,
                varint_scan_from(bytes@, 0) == varint_scan_from(bytes@, i as nat),
            decreases bytes.len() - i,
        {
            if i >= 5 {
                return VarIntScan::TooLong;
            }
            if bytes[i] < 128 {
                return VarIntScan::Complete(i + 1);
            }
            i = i + 1;
        }
        VarIntScan::Incomplete
    }

    /// Reads a VarInt at the start of `bytes`; gives it with its length.
    pub fn decode(bytes: &[u8]) -> (r: Result<(McVarInt, usize), McVarIntError>)
        ensures
            varint_scan_from(bytes@, 0) matches VarIntScan::Complete(n) ==> r == Ok::<
                (McVarInt, usize),
                McVarIntError,
            >((McVarInt(varint_value(bytes@, n as nat)), n)),
            varint_scan_from(bytes@, 0) is Incomplete ==> r == Err::<(McVarInt, usize), McVarIntError>(
                McVarIntError::UnexpectedEof,
            ),
            varint_scan_from(bytes@, 0) is TooLong ==> r == Err::<(McVarInt, usize), McVarIntError>(
                McVarIntError::TooLong,
            ),
    {
        match McVarInt::scan(bytes) {
            VarIntScan::Incomplete => Err(McVarIntError::UnexpectedEof),
            VarIntScan::TooLong => Err(McVarIntError::TooLong),
            VarIntScan::Complete(n) => {
                proof {
                    lemma_scan_bounds(bytes@, 0, n);
                }
                let mut acc: u64 = 0;
                let mut j: usize = n;
                let ghost s = bytes@.take(n as int);
                proof {
                    reveal_with_fuel(pow128, 6);
                }
                while j > 0
                    invariant
                        j <= n <= 5,
                        n <= bytes@.len(),
                        s == bytes@.take(n as int),
                        acc == varint_raw(s.subrange(j as int, n as int)),
                        acc < pow128((n - j) as nat),
                        pow128(5) == 34359738368,
                    decreases j,
                {
                    proof {
                        assert(s.subrange(j - 1, n as int).drop_first() =~= s.subrange(
                            j as int,
                            n as int,
                        ));
                        assert(s.subrange(j - 1, n as int)[0] == bytes@[j - 1]);
                        lemma_pow128_mono((n - j) as nat, 4);
                        assert(pow128((n - j + 1) as nat) == 128 * pow128((n - j) as nat));
                    }
                    acc = acc * 128 + (bytes[j - 1] % 128) as u64;
                    j = j - 1;
                }
                assert(s.subrange(0, n as int) =~= s);
                let v = ((acc % 0x1_0000_0000u64) as u32) as i32;
                Ok((McVarInt(v), n))
            },
        }
    }

    /// Reads a VarInt at the start of `buf` and drops its bytes; on failure
    /// `buf` is left as it was.
    pub fn read_from_buf(buf: &mut bytes::Bytes) -> (r: Result<McVarInt, McVarIntError>)
        ensures
            varint_scan_from(bytes_view(*old(buf)), 0) matches VarIntScan::Complete(n) ==> {
                &&& r == Ok::<McVarInt, McVarIntError>(
                    McVarInt(varint_value(bytes_view(*old(buf)), n as nat)),
                )
                &&& bytes_view(*final(buf)) == bytes_view(*old(buf)).skip(n as int)
            },
            varint_scan_from(bytes_view(*old(buf)), 0) is Incomplete ==> r == Err::<
                McVarInt,
                McVarIntError,
            >(McVarIntError::UnexpectedEof),
            varint_scan_from(bytes_view(*old(buf)), 0) is TooLong ==> r == Err::<
                McVarInt,
                McVarIntError,
            >(McVarIntError::TooLong),
            r is Err ==> bytes_view(*final(buf)) == bytes_view(*old(buf)),
    {
        let decoded = McVarInt::decode(bytes_as_slice(buf));
        match decoded {
            Ok((v, n)) => {
                proof {
                    lemma_scan_bounds(bytes_view(*buf), 0, n);
                }
                bytes_advance(buf, n);
                Ok(v)
            },
            Err(e) => Err(e),
        }
    }

    /// The value, if it lies in `min..=max`.
    pub fn with_check(self, min: i32, max: i32) -> (r: Result<McVarInt, McVarIntError>)
        ensures
            (min <= self.0 <= max) ==> r == Ok::<McVarInt, McVarIntError>(self),
            !(min <= self.0 <= max) ==> r == Err::<McVarInt, McVarIntError>(
                McVarIntError::OutOfBounds { value: self.0, min, max },
            ),
    {
        if self.0 < min || self.0 > max {
            Err(McVarIntError::OutOfBounds { value: self.0, min, max })
        } else {
            Ok(self)
        }
    }
}

/// A VarInt that the reader finds ends within the bytes and within five.
pub proof fn lemma_scan_bounds(s: Seq<u8>, i: nat, n: usize)
    requires
        varint_scan_from(s, i) == VarIntScan::Complete(n),
        i <= 5,
    ensures
        i < n <= 5,
        n <= s.len(),
    decreases 6 - i,
{
    if i < s.len() && i < 5 && s[i as int] >= 128 {
        lemma_scan_bounds(s, i + 1, n);
    }
}

proof fn lemma_pow128_mono(a: nat, b: nat)
    requires
        a <= b,
    ensures
        pow128(a) <= pow128(b),
    decreases b,
{
    if a < b {
        lemma_pow128_mono(a, (b - 1) as nat);
    }
}

} // verus!
