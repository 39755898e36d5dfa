use server_seeker::mc_protocol::types::{McVarInt, McVarIntError, VarIntScan};

fn encode(v: i32) -> Vec<u8> {
    let mut buf = Vec::new();
    McVarInt(v).write_to_buf(&mut buf);
    buf
}

#[test]
fn varint_known_encodings() {
    assert_eq!(encode(0), vec![0x00]);
    assert_eq!(encode(1), vec![0x01]);
    assert_eq!(encode(127), vec![0x7f]);
    assert_eq!(encode(128), vec![0x80, 0x01]);
    assert_eq!(encode(300), vec![0xac, 0x02]);
    assert_eq!(encode(25565), vec![0xdd, 0xc7, 0x01]);
    assert_eq!(encode(2097151), vec![0xff, 0xff, 0x7f]);
    assert_eq!(encode(-1), vec![0xff, 0xff, 0xff, 0xff, 0x0f]);
    assert_eq!(encode(i32::MIN), vec![0x80, 0x80, 0x80, 0x80, 0x08]);
}

#[test]
fn varint_len_matches_encoding() {
    for v in [0, 1, 127, 128, 16383, 16384, 2097151, 2097152, i32::MAX, -1, i32::MIN] {
        assert_eq!(McVarInt(v).len(), encode(v).len());
    }
}

#[test]
fn varint_roundtrip_with_trailing_bytes() {
    for v in [0, 5, 300, 25565, i32::MAX, -1, -300, i32::MIN] {
        let mut buf = encode(v);
        let n = buf.len();
        buf.extend_from_slice(&[0xaa, 0xbb]);
        let (x, used) = McVarInt::decode(&buf).unwrap();
        assert_eq!(x, McVarInt(v));
        assert_eq!(used, n);
    }
}

#[test]
fn varint_decode_errors() {
    assert_eq!(McVarInt::decode(&[]), Err(McVarIntError::UnexpectedEof));
    assert_eq!(McVarInt::decode(&[0x80, 0x80]), Err(McVarIntError::UnexpectedEof));
    assert_eq!(
        McVarInt::decode(&[0x80, 0x80, 0x80, 0x80, 0x80, 0x01]),
        Err(McVarIntError::TooLong)
    );
    assert_eq!(McVarInt::scan(&[0x80, 0x80, 0x80, 0x80, 0x80]), VarIntScan::Incomplete);
    assert_eq!(McVarInt::scan(&[0x80, 0x01]), VarIntScan::Complete(2));
}

#[test]
fn varint_read_from_buf_advances() {
    let mut b = bytes::Bytes::from(vec![0xdd, 0xc7, 0x01, 0x42]);
    assert_eq!(McVarInt::read_from_buf(&mut b), Ok(McVarInt(25565)));
    assert_eq!(b.as_ref(), &[0x42]);
    let mut short = bytes::Bytes::from(vec![0x80]);
    assert_eq!(McVarInt::read_from_buf(&mut short), Err(McVarIntError::UnexpectedEof));
}

#[test]
fn varint_with_check_bounds() {
    assert_eq!(McVarInt(5).with_check(0, 10), Ok(McVarInt(5)));
    assert_eq!(McVarInt(10).with_check(0, 10), Ok(McVarInt(10)));
    assert_eq!(
        McVarInt(11).with_check(0, 10),
        Err(McVarIntError::OutOfBounds { value: 11, min: 0, max: 10 })
    );
    assert_eq!(
        McVarInt(-1).with_check(0, 10),
        Err(McVarIntError::OutOfBounds { value: -1, min: 0, max: 10 })
    );
}
