use kikitori::proto::{
    decode_header, read_frame, write_frame, Frame, FrameError, FrameReader, AUDIO, COMMIT, HELLO,
    MAX_PAYLOAD, STOP,
};

#[test]
fn roundtrip() {
    let mut buf = Vec::new();
    write_frame(&mut buf, COMMIT, br#"{"text":"a"}"#).unwrap();
    let frame = read_frame(&mut FrameReader::new(buf.clone())).unwrap();
    assert_eq!(frame.kind, COMMIT);
    assert_eq!(frame.payload, br#"{"text":"a"}"#);
}

#[test]
fn roundtrip_empty_payload() {
    let mut buf = Vec::new();
    write_frame(&mut buf, STOP, b"").unwrap();
    let frame = read_frame(&mut FrameReader::new(buf.clone())).unwrap();
    assert_eq!(
        frame,
        Frame {
            kind: STOP,
            payload: vec![]
        }
    );
}

#[test]
fn sequential_frames() {
    let mut buf = Vec::new();
    write_frame(&mut buf, HELLO, b"one").unwrap();
    write_frame(&mut buf, AUDIO, &[1, 2, 3, 4]).unwrap();
    let mut reader = FrameReader::new(buf.clone());
    assert_eq!(read_frame(&mut reader).unwrap().payload, b"one");
    assert_eq!(read_frame(&mut reader).unwrap().payload, [1, 2, 3, 4]);
}

#[test]
fn wire_format_is_len_le_then_type() {
    let mut buf = Vec::new();
    write_frame(&mut buf, AUDIO, &[0xAA, 0xBB]).unwrap();
    assert_eq!(buf, [2, 0, 0, 0, AUDIO, 0xAA, 0xBB]);
}

#[test]
fn eof_is_error() {
    assert!(read_frame(&mut FrameReader::new(vec![])).is_err());
    // the header is cut short
    assert!(read_frame(&mut FrameReader::new(vec![2u8, 0, 0])).is_err());
    // the payload is shorter than its length
    assert!(read_frame(&mut FrameReader::new(vec![5u8, 0, 0, 0, AUDIO, 1])).is_err());
}

#[test]
fn oversized_payload_is_rejected_without_allocation() {
    let mut header = vec![0xFF, 0xFF, 0xFF, 0xFF, AUDIO];
    header.extend([0u8; 8]);
    assert!(read_frame(&mut FrameReader::new(header)).is_err());
}

#[test]
fn errors_name_their_cause() {
    assert_eq!(
        read_frame(&mut FrameReader::new(vec![2u8, 0, 0])),
        Err(FrameError::UnexpectedEof)
    );
    assert_eq!(
        read_frame(&mut FrameReader::new(vec![5u8, 0, 0, 0, AUDIO, 1])),
        Err(FrameError::UnexpectedEof)
    );
    assert_eq!(
        read_frame(&mut FrameReader::new(vec![0xFF, 0xFF, 0xFF, 0xFF, AUDIO])),
        Err(FrameError::PayloadTooLarge)
    );
}

#[test]
fn failed_read_leaves_the_reader_in_place() {
    let mut reader = FrameReader::new(vec![5u8, 0, 0, 0, AUDIO, 1]);
    assert!(read_frame(&mut reader).is_err());
    assert_eq!(reader.remaining_len(), 6);
}

#[test]
fn read_consumes_exactly_one_frame() {
    let mut buf = Vec::new();
    write_frame(&mut buf, HELLO, b"abc").unwrap();
    buf.extend([9u8, 9]);
    let mut reader = FrameReader::new(buf);
    let f = read_frame(&mut reader).unwrap();
    assert_eq!(f.kind, HELLO);
    assert_eq!(reader.remaining_len(), 2);
}

#[test]
fn header_decoding() {
    assert_eq!(decode_header(&[2, 1, 0, 0, COMMIT]), Ok((COMMIT, 258)));
    assert_eq!(decode_header(&[0, 0, 0, 1, AUDIO]), Ok((AUDIO, 16777216)));
    assert_eq!(MAX_PAYLOAD, 16777216);
    assert_eq!(
        decode_header(&[1, 0, 0, 1, AUDIO]),
        Err(FrameError::PayloadTooLarge)
    );
}

#[test]
fn payload_of_maximum_length_roundtrips_its_header() {
    let mut buf = Vec::new();
    write_frame(&mut buf, AUDIO, &[7u8; 300]).unwrap();
    assert_eq!(&buf[..5], &[44, 1, 0, 0, AUDIO]);
    assert_eq!(buf.len(), 305);
}
