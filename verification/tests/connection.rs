use server_seeker::mc_protocol::connection::s2c::{read_string_field, ParsePacketError};
use server_seeker::mc_protocol::connection::{
    FilteredMcPacket, McConnection, McConnectionError, MAX_PACKET_SIZE,
};
use server_seeker::mc_protocol::types::McVarIntError;

#[test]
fn frame_without_compression() {
    let mut c = McConnection::new(767);
    c.queue_packet(&[0x00, 0x01, 0x02]);
    assert!(c.has_queued());
    assert_eq!(c.take_queued(), vec![0x03, 0x00, 0x01, 0x02]);
    assert!(!c.has_queued());
}

#[test]
fn frame_below_threshold() {
    let mut c = McConnection::new(767);
    c.enable_compress(256);
    assert_eq!(c.compression_threshold(), Some(256));
    c.queue_packet(&[0x05, 0xaa]);
    assert_eq!(c.take_queued(), vec![0x03, 0x00, 0x05, 0xaa]);
}

#[test]
fn roundtrip_without_compression() {
    let mut c = McConnection::new(767);
    c.queue_packet(&[0x10, 0xaa, 0xbb]);
    c.queue_packet(&[0x11]);
    let wire = c.take_queued();
    let mut r = McConnection::new(767);
    r.feed(&wire);
    let p = r.poll_packet().unwrap().unwrap();
    assert_eq!(p.id, 0x10);
    assert_eq!(p.payload.as_ref(), &[0xaa, 0xbb]);
    let p = r.poll_packet().unwrap().unwrap();
    assert_eq!(p.id, 0x11);
    assert!(p.payload.is_empty());
    assert!(r.poll_packet().unwrap().is_none());
}

#[test]
fn roundtrip_with_compression() {
    let mut packet = vec![0x07];
    packet.extend(std::iter::repeat(0x5a).take(300));
    let mut c = McConnection::new(767);
    c.enable_compress(64);
    c.queue_packet(&packet);
    c.queue_packet(&[0x08, 0x01]);
    let wire = c.take_queued();
    assert!(wire.len() < packet.len());
    let mut r = McConnection::new(767);
    r.enable_compress(64);
    r.feed(&wire);
    let p = r.poll_packet().unwrap().unwrap();
    assert_eq!(p.id, 0x07);
    assert_eq!(p.payload.as_ref(), &packet[1..]);
    let p = r.poll_packet().unwrap().unwrap();
    assert_eq!(p.id, 0x08);
    assert_eq!(p.payload.as_ref(), &[0x01]);
}

#[test]
fn partial_frame_waits_for_more() {
    let mut r = McConnection::new(767);
    r.feed(&[0x04, 0x01, 0x02]);
    assert!(r.poll_packet().unwrap().is_none());
    r.feed(&[0x03, 0x04]);
    let p = r.poll_packet().unwrap().unwrap();
    assert_eq!(p.id, 0x01);
    assert_eq!(p.payload.as_ref(), &[0x02, 0x03, 0x04]);
}

#[test]
fn oversized_length_is_refused() {
    let mut r = McConnection::new(767);
    // 2097152 does not fit the largest frame
    r.feed(&[0x80, 0x80, 0x80, 0x01]);
    match r.poll_packet() {
        Err(McConnectionError::InvalidVarint(McVarIntError::OutOfBounds { value, min, max })) => {
            assert_eq!(value, 2097152);
            assert_eq!(min, 0);
            assert_eq!(max, MAX_PACKET_SIZE);
        }
        other => panic!("unexpected {:?}", other),
    }
}

#[test]
fn compressed_frame_shorter_than_prefix_is_refused() {
    let mut r = McConnection::new(767);
    r.enable_compress(64);
    // frame length 0, but the data length prefix takes a byte
    r.feed(&[0x00, 0x00]);
    assert!(matches!(r.poll_packet(), Err(McConnectionError::InvalidLength)));
}

#[test]
fn decompressed_size_mismatch_is_refused() {
    let mut c = McConnection::new(767);
    c.enable_compress(1);
    c.queue_packet(&[0x01, 0x02, 0x03]);
    let mut wire = c.take_queued();
    // declare 4 bytes instead of 3
    assert_eq!(wire[1], 0x03);
    wire[1] = 0x04;
    let mut r = McConnection::new(767);
    r.enable_compress(1);
    r.feed(&wire);
    match r.poll_packet() {
        Err(McConnectionError::DecompressedSizeMismatch { declared, actual }) => {
            assert_eq!(declared, 4);
            assert_eq!(actual, 3);
        }
        other => panic!("unexpected {:?}", other),
    }
}

#[test]
fn filtered_read_keeps_matched_payload() {
    let mut r = McConnection::new(767);
    r.feed(&[0x03, 0x10, 0xaa, 0xbb, 0x01, 0x20]);
    match r.poll_filtered_raw(&|id: i32| id == 0x10).unwrap().unwrap() {
        FilteredMcPacket::Matched(p) => {
            assert_eq!(p.id, 0x10);
            assert_eq!(p.payload.as_ref(), &[0xaa, 0xbb]);
        }
        other => panic!("unexpected {:?}", other),
    }
    match r.poll_filtered_raw(&|id: i32| id == 0x10).unwrap().unwrap() {
        FilteredMcPacket::Unmatched(id) => assert_eq!(id, 0x20),
        other => panic!("unexpected {:?}", other),
    }
}

#[test]
fn filtered_read_without_compression_skips_payload_twice() {
    let mut r = McConnection::new(767);
    // a frame of id 0x10 with two payload bytes, then two bytes that the skip
    // takes as well, then a frame of id 0x30
    r.feed(&[0x03, 0x10, 0xaa, 0xbb]);
    assert!(r.poll_filtered_raw(&|_id: i32| false).unwrap().is_none());
    r.feed(&[0xcc, 0xdd, 0x01, 0x30]);
    match r.poll_filtered_raw(&|_id: i32| false).unwrap().unwrap() {
        FilteredMcPacket::Unmatched(id) => assert_eq!(id, 0x10),
        other => panic!("unexpected {:?}", other),
    }
    match r.poll_filtered_raw(&|_id: i32| true).unwrap().unwrap() {
        FilteredMcPacket::Matched(p) => assert_eq!(p.id, 0x30),
        other => panic!("unexpected {:?}", other),
    }
}

#[test]
fn filtered_read_with_compression() {
    let mut c = McConnection::new(767);
    c.enable_compress(4);
    c.queue_packet(&[0x21, 0x01, 0x02, 0x03, 0x04, 0x05]);
    c.queue_packet(&[0x22, 0x09]);
    let wire = c.take_queued();
    let mut r = McConnection::new(767);
    r.enable_compress(4);
    r.feed(&wire);
    match r.poll_filtered_raw(&|id: i32| id == 0x21).unwrap().unwrap() {
        FilteredMcPacket::Matched(p) => {
            assert_eq!(p.id, 0x21);
            assert_eq!(p.payload.as_ref(), &[0x01, 0x02, 0x03, 0x04, 0x05]);
        }
        other => panic!("unexpected {:?}", other),
    }
    match r.poll_filtered_raw(&|id: i32| id == 0x21).unwrap().unwrap() {
        FilteredMcPacket::Unmatched(id) => assert_eq!(id, 0x22),
        other => panic!("unexpected {:?}", other),
    }
    assert!(r.poll_filtered_raw(&|_id: i32| true).unwrap().is_none());
}

#[test]
fn string_fields_are_read_by_length() {
    let mut data = bytes::Bytes::from(vec![3u8, b'a', b'b', b'c', 9]);
    let s = read_string_field(&mut data, 10).unwrap();
    assert_eq!(&s[..], b"abc");
    assert_eq!(&data[..], &[9u8]);
    let mut short = bytes::Bytes::from(vec![4u8, b'a']);
    assert!(matches!(read_string_field(&mut short, 10), Err(ParsePacketError::UnexpectedEof)));
    let mut long = bytes::Bytes::from(vec![4u8, 1, 2, 3, 4]);
    assert!(matches!(
        read_string_field(&mut long, 3),
        Err(ParsePacketError::TooLongField { max_expected: 3, actual: 4 })
    ));
    let mut negative = bytes::Bytes::from(vec![0xff, 0xff, 0xff, 0xff, 0x0f]);
    assert!(matches!(read_string_field(&mut negative, 3), Err(ParsePacketError::NegativeLength)));
}

#[test]
fn largest_uncompressed_packet_reads_back() {
    let mut data = vec![0x05u8];
    data.extend(std::iter::repeat(7u8).take(2_097_150));
    let mut c = McConnection::new(767);
    c.queue_packet(&data);
    let wire = c.take_queued();
    let mut r = McConnection::new(767);
    r.feed(&wire);
    let p = r.poll_packet().unwrap().unwrap();
    assert_eq!(p.id, 5);
    assert_eq!(p.payload.len(), 2_097_150);
}
