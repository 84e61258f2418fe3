//! The active connection: handshake capture, correlation by xid, watch
//! isolation, heartbeat suppression, graceful close, and the faults.

use zkclient::client::handshake_request;
use zkclient::codec::{Request, Response, ZkError};
use zkclient::conn::{ActivePacketizer, Dispatch, EofOutcome, FrameFault};
use zkclient::types::{push_event, Acl, CreateMode, KeeperState, WatchedEvent, WatchedEventType};
use zkclient::wire::{push_be_i32, push_be_i64, push_string};

fn reply_payload(xid: i32, zxid: i64, err: i32, body: &[u8]) -> Vec<u8> {
    let mut v: Vec<u8> = Vec::new();
    push_be_i32(&mut v, xid);
    push_be_i64(&mut v, zxid);
    push_be_i32(&mut v, err);
    v.extend_from_slice(body);
    v
}

fn connect_reply_body(timeout: i32, session_id: i64, passwd: &[u8]) -> Vec<u8> {
    let mut v: Vec<u8> = Vec::new();
    Response::Connect {
        protocol_version: 0,
        timeout,
        session_id,
        passwd: passwd.to_vec(),
        read_only: false,
    }
    .encode_into(&mut v);
    v
}

fn handshaken() -> ActivePacketizer {
    let mut ap = ActivePacketizer::new();
    ap.enqueue(0, &handshake_request()).unwrap();
    let n = ap.outlen();
    ap.wrote(n);
    let d = ap.handle_frame(&connect_reply_body(6000, 0x77, &[9, 9, 9])).unwrap();
    match d {
        Dispatch::Reply { xid: 0, result: Ok(Response::Connect { .. }) } => {},
        other => panic!("handshake reply mishandled: {:?}", other),
    }
    ap
}

#[test]
fn handshake_captures_session_and_arms_heartbeat() {
    let ap = handshaken();
    assert_eq!(ap.session_id(), 0x77);
    assert_eq!(ap.password_cloned(), vec![9, 9, 9]);
    assert_eq!(ap.timeout_ms(), 6000);
    // two-thirds of the negotiated timeout
    assert_eq!(ap.heartbeat_ms(), 4000);
    assert_eq!(ap.pending_len(), 0);
}

#[test]
fn handshake_frame_omits_xid_and_opcode() {
    let mut ap = ActivePacketizer::new();
    ap.enqueue(0, &handshake_request()).unwrap();
    let bytes = ap.unsent();
    // length 29, then the bare connect body: no xid, no opcode
    assert_eq!(&bytes[..4], &[0, 0, 0, 29]);
    assert_eq!(&bytes[4..8], &[0, 0, 0, 0]); // protocol_version
    assert_eq!(bytes.len(), 33);
}

#[test]
fn request_frame_carries_xid_and_opcode() {
    let mut ap = handshaken();
    ap.enqueue(5, &Request::Exists { path: String::from("/foo"), watch: false }).unwrap();
    let bytes = ap.unsent();
    assert_eq!(&bytes[4..8], &[0, 0, 0, 5]); // xid
    assert_eq!(&bytes[8..12], &[0, 0, 0, 3]); // the exists opcode
    assert!(ap.pending_contains(5));
}

#[test]
fn replies_correlate_out_of_submission_order() {
    let mut ap = handshaken();
    ap.enqueue(1, &Request::Exists { path: String::from("/a"), watch: false }).unwrap();
    ap.enqueue(
        2,
        &Request::Create {
            path: String::from("/a"),
            data: vec![],
            acl: Acl::open_unsafe(),
            mode: CreateMode::Persistent,
        },
    )
    .unwrap();
    ap.enqueue(3, &Request::Delete { path: String::from("/a"), version: -1 }).unwrap();
    assert_eq!(ap.pending_len(), 3);

    // the delete's reply lands first
    let d = ap.handle_frame(&reply_payload(3, 0x20, 0, &[])).unwrap();
    assert_eq!(d, Dispatch::Reply { xid: 3, result: Ok(Response::Empty) });

    // then the create's, decoded with the create's own opcode
    let mut body: Vec<u8> = Vec::new();
    push_string(&mut body, "/a");
    let d = ap.handle_frame(&reply_payload(2, 0x21, 0, &body)).unwrap();
    assert_eq!(d, Dispatch::Reply { xid: 2, result: Ok(Response::Path(String::from("/a"))) });

    // the exists draws a protocol-level error: surfaced, not fatal
    let d = ap.handle_frame(&reply_payload(1, 0x22, -101, &[])).unwrap();
    assert_eq!(d, Dispatch::Reply { xid: 1, result: Err(ZkError::NoNode) });
    assert_eq!(ap.pending_len(), 0);
    assert_eq!(ap.last_zxid(), 0x22);
}

#[test]
fn watch_event_consumes_no_pending_entry() {
    let mut ap = handshaken();
    ap.enqueue(1, &Request::Exists { path: String::from("/foo"), watch: true }).unwrap();

    let expected = WatchedEvent {
        event_type: WatchedEventType::NodeCreated,
        keeper_state: KeeperState::SyncConnected,
        path: String::from("/foo"),
    };
    let mut body: Vec<u8> = Vec::new();
    push_event(&mut body, &expected);
    let d = ap.handle_frame(&reply_payload(-1, -1, 0, &body)).unwrap();
    assert_eq!(d, Dispatch::Watch { event: expected });
    // the pending table is untouched and later dispatch still works
    assert!(ap.pending_contains(1));
    let mut stat_body: Vec<u8> = Vec::new();
    Response::Exists {
        stat: zkclient::types::Stat {
            czxid: 1,
            mzxid: 1,
            ctime: 0,
            mtime: 0,
            version: 0,
            cversion: 0,
            aversion: 0,
            ephemeral_owner: 0,
            data_length: 4,
            num_children: 0,
            pzxid: 1,
        },
    }
    .encode_into(&mut stat_body);
    let d = ap.handle_frame(&reply_payload(1, 0x30, 0, &stat_body)).unwrap();
    match d {
        Dispatch::Reply { xid: 1, result: Ok(Response::Exists { .. }) } => {},
        other => panic!("dispatch blocked after watch: {:?}", other),
    }
}

#[test]
fn ping_reply_is_discarded() {
    let mut ap = handshaken();
    let d = ap.handle_frame(&reply_payload(-2, 0x10, 0, &[])).unwrap();
    assert_eq!(d, Dispatch::PingReply);
}

#[test]
fn no_ping_while_bytes_are_unflushed() {
    let mut ap = handshaken();
    ap.enqueue(1, &Request::Exists { path: String::from("/x"), watch: false }).unwrap();
    let before = ap.unsent();
    assert!(!ap.on_ping_timer());
    assert_eq!(ap.unsent(), before);
}

#[test]
fn exactly_one_ping_when_idle() {
    let mut ap = handshaken();
    assert_eq!(ap.outlen(), 0);
    assert!(ap.on_ping_timer());
    // the fixed 12-byte heartbeat frame: length 8, xid -2, ping opcode
    assert_eq!(
        ap.unsent(),
        vec![0, 0, 0, 8, 0xff, 0xff, 0xff, 0xfe, 0, 0, 0, 11]
    );
    // and only one: the next firing finds the outbox nonempty
    assert!(!ap.on_ping_timer());
    assert_eq!(ap.outlen(), 12);
}

#[test]
fn close_frame_bytes_and_ack() {
    let mut ap = handshaken();
    ap.send_close();
    // the fixed 12-byte close frame: length 8, xid 0, close-session opcode
    assert_eq!(
        ap.unsent(),
        vec![0, 0, 0, 8, 0, 0, 0, 0, 0xff, 0xff, 0xff, 0xf5]
    );
    let n = ap.outlen();
    ap.wrote(n);
    let d = ap.handle_frame(&reply_payload(0, 0x40, 0, &[])).unwrap();
    assert_eq!(d, Dispatch::CloseAck);
    // an errored close acknowledgment is fatal
    let mut ap = handshaken();
    let r = ap.handle_frame(&reply_payload(0, 0x40, -112, &[]));
    assert_eq!(r, Err(FrameFault::CloseFailed(ZkError::SessionExpired)));
}

#[test]
fn eof_outcomes() {
    let mut ap = handshaken();
    assert_eq!(ap.eof_outcome(), EofOutcome::Clean);
    ap.feed(&[0, 0, 0, 0]);
    assert_eq!(ap.eof_outcome(), EofOutcome::Clean); // trailing all-zero frame
    let mut ap = handshaken();
    ap.feed(&[0, 0, 0, 9, 1, 2]);
    assert_eq!(ap.eof_outcome(), EofOutcome::PartialFrame);
    let mut ap = handshaken();
    ap.enqueue(1, &Request::Exists { path: String::from("/x"), watch: false }).unwrap();
    assert_eq!(ap.eof_outcome(), EofOutcome::Outstanding);
}

#[test]
fn faults_poison_nothing_silently() {
    // a reply for an xid never issued
    let mut ap = handshaken();
    assert_eq!(
        ap.handle_frame(&reply_payload(9, 0x10, 0, &[])),
        Err(FrameFault::UnknownXid(9))
    );
    // the state id may never go backwards
    let mut ap = handshaken();
    ap.handle_frame(&reply_payload(-2, 0x50, 0, &[])).unwrap();
    assert_eq!(
        ap.handle_frame(&reply_payload(-2, 0x10, 0, &[])),
        Err(FrameFault::ZxidRegressed)
    );
    // only watch events may omit the state id
    let mut ap = handshaken();
    assert_eq!(
        ap.handle_frame(&reply_payload(-2, -1, 0, &[])),
        Err(FrameFault::MissingZxid)
    );
    // a truncated header
    let mut ap = handshaken();
    assert_eq!(ap.handle_frame(&[0, 0, 0]), Err(FrameFault::Underrun));
}

#[test]
fn negotiated_timeout_must_be_nonnegative() {
    let mut ap = ActivePacketizer::new();
    ap.enqueue(0, &handshake_request()).unwrap();
    let r = ap.handle_frame(&connect_reply_body(-1, 0x77, &[]));
    assert_eq!(r, Err(FrameFault::BadTimeout));
}

#[test]
fn unknown_event_codes_are_malformed() {
    // an event type this client has no name for
    let mut ap = handshaken();
    let mut body: Vec<u8> = Vec::new();
    push_be_i32(&mut body, 77);
    push_be_i32(&mut body, 3);
    push_string(&mut body, "/foo");
    assert_eq!(
        ap.handle_frame(&reply_payload(-1, -1, 0, &body)),
        Err(FrameFault::Underrun)
    );
    // a connection state this client has no name for
    let mut body: Vec<u8> = Vec::new();
    push_be_i32(&mut body, 1);
    push_be_i32(&mut body, 99);
    push_string(&mut body, "/foo");
    assert_eq!(
        ap.handle_frame(&reply_payload(-1, -1, 0, &body)),
        Err(FrameFault::Underrun)
    );
}

#[test]
fn truncated_reply_body_is_malformed_and_keeps_the_entry() {
    let mut ap = handshaken();
    ap.enqueue(1, &Request::Exists { path: String::from("/foo"), watch: false }).unwrap();
    // a reply to the exists whose stat is cut short
    let r = ap.handle_frame(&reply_payload(1, 0x10, 0, &[0u8; 20]));
    assert_eq!(r, Err(FrameFault::Underrun));
    // the fault left the bookkeeping untouched
    assert!(ap.pending_contains(1));
}

#[test]
fn submissions_are_safe_while_prior_bytes_are_unflushed() {
    let mut ap = handshaken();
    ap.enqueue(1, &Request::Exists { path: String::from("/a"), watch: false }).unwrap();
    let first = ap.unsent();
    // the stream accepted only part of the first frame
    ap.wrote(3);
    ap.enqueue(2, &Request::Exists { path: String::from("/b"), watch: false }).unwrap();
    let now = ap.unsent();
    // the tail of the first frame still leads, the second follows whole
    assert_eq!(&now[..first.len() - 3], &first[3..]);
    assert!(now.len() > first.len() - 3);
    ap.wrote(now.len());
    assert_eq!(ap.outlen(), 0);
}
