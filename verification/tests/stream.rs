use connect_rpc::stream::{ConnectFrame, FrameParseState};
use connect_rpc::Error;

fn frame_bytes(flags: u8, payload: &[u8]) -> Vec<u8> {
    let mut out = vec![flags];
    out.extend_from_slice(&(payload.len() as u32).to_be_bytes());
    out.extend_from_slice(payload);
    out
}

#[test]
fn two_chunks_make_one_frame() {
    let mut state = FrameParseState::new();
    let first = state.feed(Some(Ok(&[0x00, 0x00, 0x00, 0x00, 0x03])));
    assert!(first.is_empty());
    assert_eq!(state.pending_len(), 5);
    let second = state.feed(Some(Ok(&[b'a', b'b', b'c'])));
    assert_eq!(second.len(), 1);
    let frame = second.into_iter().next().unwrap().unwrap();
    assert!(!frame.compressed);
    assert!(!frame.end);
    assert_eq!(&frame.data[..], b"abc");
    assert_eq!(state.pending_len(), 0);
    assert!(state.feed(None).is_empty());
    assert!(!state.failed());
}

#[test]
fn stream_ending_in_header_is_truncated() {
    let mut state = FrameParseState::new();
    assert!(state.feed(Some(Ok(&[0x00, 0x00, 0x00, 0x00, 0x03]))).is_empty());
    let end = state.feed(None);
    assert_eq!(end.len(), 1);
    match &end[0] {
        Err(Error::BodyError(msg)) => assert_eq!(msg, "partial frame at end of stream"),
        _ => panic!("expected a body error"),
    }
}

#[test]
fn empty_stream_ends_cleanly() {
    let mut state = FrameParseState::new();
    assert!(state.feed(None).is_empty());
    assert!(state.feed(Some(Ok(&[]))).is_empty());
    assert!(state.feed(None).is_empty());
}

#[test]
fn flags_are_read_bit_by_bit() {
    let mut state = FrameParseState::new();
    let mut bytes = frame_bytes(0b01, b"x");
    bytes.extend(frame_bytes(0b10, b""));
    bytes.extend(frame_bytes(0b11, b"yz"));
    bytes.extend(frame_bytes(0b100, b"w"));
    let frames = state.feed(Some(Ok(&bytes)));
    assert_eq!(frames.len(), 4);
    let frames: Vec<_> = frames.into_iter().map(|f| f.unwrap()).collect();
    assert_eq!((frames[0].compressed, frames[0].end), (true, false));
    assert_eq!(&frames[0].data[..], b"x");
    assert_eq!((frames[1].compressed, frames[1].end), (false, true));
    assert_eq!(&frames[1].data[..], b"");
    assert_eq!((frames[2].compressed, frames[2].end), (true, true));
    assert_eq!(&frames[2].data[..], b"yz");
    assert_eq!((frames[3].compressed, frames[3].end), (false, false));
    assert_eq!(&frames[3].data[..], b"w");
}

#[test]
fn length_is_big_endian() {
    let payload: Vec<u8> = (0..258u32).map(|i| (i % 251) as u8).collect();
    let mut bytes = vec![0u8, 0x00, 0x00, 0x01, 0x02];
    bytes.extend_from_slice(&payload);
    bytes.push(0x07);
    let mut state = FrameParseState::new();
    let frames = state.feed(Some(Ok(&bytes)));
    assert_eq!(frames.len(), 1);
    assert_eq!(&frames[0].as_ref().unwrap().data[..], &payload[..]);
    assert_eq!(state.pending_len(), 1);
}

#[test]
fn chunking_does_not_change_the_frames() {
    let mut bytes = frame_bytes(0, b"hello");
    bytes.extend(frame_bytes(1, b""));
    bytes.extend(frame_bytes(2, b"world!"));
    bytes.extend_from_slice(&[0, 0, 0]);

    let mut whole = FrameParseState::new();
    let expected: Vec<_> = whole
        .feed(Some(Ok(&bytes)))
        .into_iter()
        .map(|f| f.unwrap())
        .map(|f| (f.compressed, f.end, f.data.to_vec()))
        .collect();
    assert_eq!(expected.len(), 3);

    for size in 1..bytes.len() {
        let mut state = FrameParseState::new();
        let mut got = Vec::new();
        for chunk in bytes.chunks(size) {
            for f in state.feed(Some(Ok(chunk))) {
                let f = f.unwrap();
                got.push((f.compressed, f.end, f.data.to_vec()));
            }
        }
        assert_eq!(got, expected);
        assert_eq!(state.pending_len(), 3);
    }
}

#[test]
fn source_error_is_forwarded_and_ends_the_stream() {
    let mut state = FrameParseState::new();
    assert!(state.feed(Some(Ok(&[0, 0]))).is_empty());
    let out = state.feed(Some(Err(Error::BodyError("connection reset".to_string()))));
    assert_eq!(out.len(), 1);
    match &out[0] {
        Err(Error::BodyError(msg)) => assert_eq!(msg, "connection reset"),
        _ => panic!("expected the source error"),
    }
    assert!(state.failed());
    assert!(state.feed(Some(Ok(&frame_bytes(0, b"abc")))).is_empty());
    assert!(state.feed(None).is_empty());
    assert_eq!(state.pending_len(), 2);
}

#[test]
fn frames_are_written_for_the_wire() {
    assert_eq!(ConnectFrame::encode(false, false, b"abc").unwrap(), [0, 0, 0, 0, 3, b'a', b'b', b'c']);
    assert_eq!(ConnectFrame::encode(true, false, b"").unwrap(), [1, 0, 0, 0, 0]);
    assert_eq!(ConnectFrame::encode(false, true, b"{}").unwrap(), [2, 0, 0, 0, 2, b'{', b'}']);
    let payload = vec![7u8; 0x01_02_03];
    let bytes = ConnectFrame::encode(true, true, &payload).unwrap();
    assert_eq!(&bytes[..5], [3, 0, 1, 2, 3]);
    assert_eq!(&bytes[5..], &payload[..]);
}

#[test]
fn written_frames_are_read_back() {
    let mut bytes = Vec::new();
    let written: Vec<(bool, bool, Vec<u8>)> = vec![
        (false, false, b"first".to_vec()),
        (true, false, vec![0xff; 300]),
        (false, true, Vec::new()),
        (true, true, b"{\"error\":{}}".to_vec()),
    ];
    for (compressed, end, data) in &written {
        bytes.extend(ConnectFrame::encode(*compressed, *end, data).unwrap());
    }
    let mut state = FrameParseState::new();
    let read: Vec<(bool, bool, Vec<u8>)> = state
        .feed(Some(Ok(&bytes)))
        .into_iter()
        .map(|f| f.unwrap())
        .map(|f| (f.compressed, f.end, f.data.to_vec()))
        .collect();
    assert_eq!(read, written);
    assert!(state.feed(None).is_empty());
}
