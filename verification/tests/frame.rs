use async_abci::frame::{frame_bounds, FrameStatus};

#[test]
fn empty_buffer_is_incomplete() {
    assert_eq!(frame_bounds(&[]), FrameStatus::Incomplete);
}

#[test]
fn one_byte_prefix() {
    assert_eq!(frame_bounds(&[3, 1, 2, 3]), FrameStatus::Ready { header: 1, len: 3 });
    assert_eq!(frame_bounds(&[3, 1, 2, 3, 9, 9]), FrameStatus::Ready { header: 1, len: 3 });
    assert_eq!(frame_bounds(&[3, 1]), FrameStatus::Incomplete);
    assert_eq!(frame_bounds(&[0]), FrameStatus::Ready { header: 1, len: 0 });
}

#[test]
fn two_byte_prefix() {
    let mut buf = vec![0xAC, 0x02];
    assert_eq!(frame_bounds(&buf), FrameStatus::Incomplete);
    buf.extend(std::iter::repeat(7u8).take(300));
    assert_eq!(frame_bounds(&buf), FrameStatus::Ready { header: 2, len: 300 });
}

#[test]
fn cut_off_and_invalid_prefixes() {
    assert_eq!(frame_bounds(&[0x80; 9]), FrameStatus::Incomplete);
    assert_eq!(frame_bounds(&[0x80; 10]), FrameStatus::Malformed);
    assert_eq!(frame_bounds(&[0xFF; 12]), FrameStatus::Malformed);
    let mut too_big = vec![0xFF; 9];
    too_big.push(0x7F);
    assert_eq!(frame_bounds(&too_big), FrameStatus::Malformed);
}

#[test]
fn agrees_with_protobuf_length_delimiters() {
    for len in [0usize, 1, 127, 128, 300, 16_383, 16_384, 1 << 21, 1 << 28, usize::MAX >> 1] {
        let mut buf = Vec::new();
        prost::encode_length_delimiter(len, &mut buf).unwrap();
        let header = buf.len();
        assert_eq!(prost::decode_length_delimiter(&buf[..]).unwrap(), len);
        if len <= 300 {
            buf.extend(std::iter::repeat(0u8).take(len));
            assert_eq!(frame_bounds(&buf), FrameStatus::Ready { header, len });
        } else {
            assert_eq!(frame_bounds(&buf), FrameStatus::Incomplete);
        }
    }
}
