//! The frame transport against partial reads and writes: boundaries come
//! out the same however the stream chunks the bytes.

use zkclient::transport::FrameTransport;
use zkclient::wire::push_buffer;

fn frame_bytes(payload: &[u8]) -> Vec<u8> {
    let mut v: Vec<u8> = Vec::new();
    push_buffer(&mut v, payload);
    v
}

#[test]
fn outbound_accumulates_and_drains() {
    let mut t = FrameTransport::new();
    t.append_frame(b"abc");
    t.append_frame(b"");
    let unsent = t.unsent();
    assert_eq!(unsent, [frame_bytes(b"abc"), frame_bytes(b"")].concat());
    assert_eq!(t.outlen(), 11);
    t.wrote(5);
    assert_eq!(t.unsent(), unsent[5..].to_vec());
    t.wrote(6);
    assert_eq!(t.outlen(), 0);
    assert_eq!(t.unsent(), Vec::<u8>::new());
}

#[test]
fn inbound_needs_the_whole_frame() {
    let mut t = FrameTransport::new();
    let bytes = frame_bytes(b"hello");
    t.feed(&bytes[..3]);
    assert_eq!(t.next_frame(), Ok(None));
    t.feed(&bytes[3..8]);
    assert_eq!(t.next_frame(), Ok(None));
    t.feed(&bytes[8..]);
    assert_eq!(t.next_frame(), Ok(Some(b"hello".to_vec())));
    assert_eq!(t.next_frame(), Ok(None));
}

#[test]
fn boundaries_survive_any_chunking() {
    let payloads: Vec<Vec<u8>> = vec![
        b"first".to_vec(),
        Vec::new(),
        b"a much longer third frame payload".to_vec(),
        vec![0, 1, 2, 3, 255],
    ];
    let mut stream: Vec<u8> = Vec::new();
    for p in &payloads {
        stream.extend_from_slice(&frame_bytes(p));
    }
    for chunk in 1..stream.len() + 1 {
        let mut t = FrameTransport::new();
        let mut got: Vec<Vec<u8>> = Vec::new();
        for piece in stream.chunks(chunk) {
            t.feed(piece);
            while let Some(p) = t.next_frame().unwrap() {
                got.push(p);
            }
        }
        assert_eq!(got, payloads, "chunk size {}", chunk);
        assert_eq!(t.inlen(), 0);
    }
}

#[test]
fn zero_length_frame_yields_empty_payload() {
    let mut t = FrameTransport::new();
    t.feed(&[0, 0, 0, 0]);
    assert_eq!(t.next_frame(), Ok(Some(Vec::new())));
}

#[test]
fn negative_length_is_malformed() {
    let mut t = FrameTransport::new();
    t.feed(&[0xff, 0xff, 0xff, 0xff]);
    assert!(t.next_frame().is_err());
}

#[test]
fn clean_boundary_detection() {
    let mut t = FrameTransport::new();
    assert!(t.at_clean_boundary());
    t.feed(&[0, 0, 0, 0]);
    assert!(t.at_clean_boundary()); // the server's all-zero closing frame
    let mut t = FrameTransport::new();
    t.feed(&[0, 0, 0, 5, b'h']);
    assert!(!t.at_clean_boundary());
    let mut t = FrameTransport::new();
    t.feed(&[0, 0]);
    assert!(!t.at_clean_boundary());
}
