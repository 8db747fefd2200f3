use blive_danmu::{
    decode, decode_frames, encode, DanmukuError, Frame, Header, Pkg, MAX_BODY_LEN, OP_COMMAND, OP_HEARTBEAT,
    OP_JOIN,
};

fn frame_bytes(total: u32, header_len: u16, version: u16, op: i32, seq: i32, body: &[u8]) -> Vec<u8> {
    let mut out = Vec::new();
    out.extend_from_slice(&total.to_be_bytes());
    out.extend_from_slice(&header_len.to_be_bytes());
    out.extend_from_slice(&version.to_be_bytes());
    out.extend_from_slice(&op.to_be_bytes());
    out.extend_from_slice(&seq.to_be_bytes());
    out.extend_from_slice(body);
    out
}

fn only_frame(frames: Vec<Frame>) -> Frame {
    assert_eq!(frames.len(), 1);
    frames.into_iter().next().unwrap()
}

#[test]
fn header_new_adds_header_length() {
    let h = Header::new(5, OP_JOIN);
    assert_eq!(h, Header { len: 21, a: 16, b: 1, dtype: 7, c: 1 });
}

#[test]
fn pkg_into_bytes_writes_big_endian_header() {
    let p = Pkg::new(b"hi".to_vec(), OP_HEARTBEAT).unwrap();
    assert_eq!(p.header.len, 18);
    assert_eq!(
        p.into_bytes(),
        vec![0, 0, 0, 18, 0, 16, 0, 1, 0, 0, 0, 2, 0, 0, 0, 1, b'h', b'i']
    );
}

#[test]
fn pkg_into_bytes_negative_fields_two_complement() {
    let p = Pkg { header: Header { len: -2, a: -1, b: 1, dtype: -3, c: 0x01020304 }, body: vec![9] };
    assert_eq!(
        p.into_bytes(),
        vec![0xff, 0xff, 0xff, 0xfe, 0xff, 0xff, 0, 1, 0xff, 0xff, 0xff, 0xfd, 1, 2, 3, 4, 9]
    );
}

#[test]
fn encode_join_frame_layout() {
    let body = br#"{"uid":0,"roomid":1}"#.to_vec();
    let bytes = encode(body.clone(), OP_JOIN).unwrap();
    assert_eq!(bytes, frame_bytes(16 + body.len() as u32, 16, 1, 7, 1, &body));
}

#[test]
fn encode_empty_body_is_bare_header() {
    let bytes = encode(Vec::new(), OP_HEARTBEAT).unwrap();
    assert_eq!(bytes, vec![0, 0, 0, 16, 0, 16, 0, 1, 0, 0, 0, 2, 0, 0, 0, 1]);
}

#[test]
fn encode_refuses_body_too_large_for_length_field() {
    let body = vec![0u8; MAX_BODY_LEN + 1];
    assert_eq!(encode(body, OP_COMMAND), Err(DanmukuError::TooBigPkg));
}

#[test]
fn pkg_new_refuses_body_too_large_for_length_field() {
    let body = vec![0u8; MAX_BODY_LEN + 1];
    assert!(matches!(Pkg::new(body, OP_COMMAND), Err(DanmukuError::TooBigPkg)));
}

#[test]
fn decode_encode_round_trip_single_frame() {
    let body = b"hello, room".to_vec();
    let bytes = encode(body.clone(), OP_COMMAND).unwrap();
    let f = only_frame(decode(&bytes).unwrap());
    assert_eq!(f.body, body);
    assert_eq!(f.operation, OP_COMMAND);
    assert_eq!(f.total_length, 16 + body.len() as u32);
    assert_eq!(f.header_length, 16);
    assert_eq!(f.compression, 1);
    assert_eq!(f.sequence, 1);
}

#[test]
fn decode_encode_round_trip_negative_operation() {
    let bytes = encode(vec![1, 2, 3], -5).unwrap();
    let f = only_frame(decode(&bytes).unwrap());
    assert_eq!(f.operation, -5);
    assert_eq!(f.body, vec![1, 2, 3]);
}

#[test]
fn decode_concatenation_yields_each_frame_in_order() {
    let items: Vec<(Vec<u8>, i32)> = vec![
        (b"first".to_vec(), OP_COMMAND),
        (Vec::new(), OP_HEARTBEAT),
        (b"third body".to_vec(), 8),
        (vec![0xde, 0xad], -1),
    ];
    let mut buf = Vec::new();
    for (body, op) in &items {
        buf.extend(encode(body.clone(), *op).unwrap());
    }
    let frames = decode(&buf).unwrap();
    assert_eq!(frames.len(), items.len());
    for (f, (body, op)) in frames.iter().zip(items.iter()) {
        assert_eq!(&f.body, body);
        assert_eq!(f.operation, *op);
    }
}

#[test]
fn decode_empty_buffer_is_no_frames() {
    assert_eq!(decode(&[]).unwrap().len(), 0);
}

#[test]
fn decode_short_header_is_truncated() {
    let bytes = encode(b"x".to_vec(), OP_COMMAND).unwrap();
    assert!(matches!(decode(&bytes[..10]), Err(DanmukuError::TruncatedHeader)));
}

#[test]
fn decode_trailing_partial_header_is_truncated() {
    let mut bytes = encode(b"x".to_vec(), OP_COMMAND).unwrap();
    bytes.extend_from_slice(&[0, 0, 0, 20]);
    assert!(matches!(decode(&bytes), Err(DanmukuError::TruncatedHeader)));
}

#[test]
fn decode_frame_past_end_is_invalid_length() {
    let bytes = frame_bytes(40, 16, 1, 5, 1, b"short");
    assert!(matches!(decode(&bytes), Err(DanmukuError::InvalidFrameLength)));
}

#[test]
fn decode_total_below_header_is_invalid_length() {
    let bytes = frame_bytes(12, 16, 1, 5, 1, b"");
    assert!(matches!(decode(&bytes), Err(DanmukuError::InvalidFrameLength)));
}

#[test]
fn decode_header_length_below_sixteen_is_invalid_length() {
    let bytes = frame_bytes(0, 0, 1, 5, 1, b"");
    assert!(matches!(decode(&bytes), Err(DanmukuError::InvalidFrameLength)));
}

#[test]
fn decode_honours_longer_header_length() {
    let bytes = frame_bytes(22, 18, 0, 5, 9, b"\xaa\xbbbody");
    let f = only_frame(decode(&bytes).unwrap());
    assert_eq!(f.header_length, 18);
    assert_eq!(f.compression, 0);
    assert_eq!(f.sequence, 9);
    assert_eq!(f.body, b"body".to_vec());
}

#[test]
fn decode_frames_keeps_frames_before_broken_header() {
    let mut bytes = encode(b"a".to_vec(), OP_COMMAND).unwrap();
    bytes.extend(encode(b"b".to_vec(), OP_JOIN).unwrap());
    bytes.extend_from_slice(&[0u8; 12]);
    let (frames, err) = decode_frames(&bytes);
    assert_eq!(frames.len(), 2);
    assert_eq!(frames[0].body, b"a".to_vec());
    assert_eq!(frames[1].operation, OP_JOIN);
    assert_eq!(err, Some(DanmukuError::TruncatedHeader));
    assert!(matches!(decode(&bytes), Err(DanmukuError::TruncatedHeader)));
}

#[test]
fn decode_frames_whole_buffer_has_no_error() {
    let bytes = encode(b"only".to_vec(), OP_COMMAND).unwrap();
    let (frames, err) = decode_frames(&bytes);
    assert_eq!(frames.len(), 1);
    assert_eq!(err, None);
}
