//! The lifecycle manager: xid assignment, close semantics, and the
//! reconnect that resumes the session and replays the queue in order.

use zkclient::client::handshake_request;
use zkclient::codec::{Request, Response};
use zkclient::conn::{Dispatch, SubmitError};
use zkclient::manager::{Packetizer, Submitted};
use zkclient::wire::{push_be_i32, push_be_i64, read_be_i32, read_be_i64, read_buffer};

fn connect_reply_body(timeout: i32, session_id: i64, passwd: &[u8]) -> Vec<u8> {
    let mut v: Vec<u8> = Vec::new();
    Response::Connect {
        protocol_version: 0,
        timeout,
        session_id,
        passwd: passwd.to_vec(),
        read_only: false,
    }
    .encode_into(&mut v);
    v
}

fn reply_payload(xid: i32, zxid: i64, err: i32, body: &[u8]) -> Vec<u8> {
    let mut v: Vec<u8> = Vec::new();
    push_be_i32(&mut v, xid);
    push_be_i64(&mut v, zxid);
    push_be_i32(&mut v, err);
    v.extend_from_slice(body);
    v
}

/// A manager whose first generation has completed its handshake.
fn connected() -> Packetizer {
    let mut mgr = Packetizer::new();
    assert_eq!(mgr.submit(handshake_request()), Ok(Submitted::Sent(0)));
    let ap = mgr.active_mut();
    let n = ap.outlen();
    ap.wrote(n);
    ap.handle_frame(&connect_reply_body(9000, 0xbeef, &[4, 5, 6])).unwrap();
    // replies carry the state id forward
    ap.handle_frame(&reply_payload(-2, 0x99, 0, &[])).unwrap();
    mgr
}

#[test]
fn xids_are_assigned_strictly_increasing() {
    let mut mgr = connected();
    let a = mgr.submit(Request::Exists { path: String::from("/a"), watch: false });
    let b = mgr.submit(Request::Exists { path: String::from("/b"), watch: false });
    let c = mgr.submit(Request::Delete { path: String::from("/a"), version: -1 });
    assert_eq!(a, Ok(Submitted::Sent(1)));
    assert_eq!(b, Ok(Submitted::Sent(2)));
    assert_eq!(c, Ok(Submitted::Sent(3)));
    assert!(mgr.active_mut().pending_contains(1));
    assert!(mgr.active_mut().pending_contains(2));
    assert!(mgr.active_mut().pending_contains(3));
}

#[test]
fn nothing_is_accepted_after_close() {
    let mut mgr = connected();
    mgr.on_channel_closed();
    assert!(mgr.exiting());
    // exactly the close frame went out
    assert_eq!(
        mgr.active_mut().unsent(),
        vec![0, 0, 0, 8, 0, 0, 0, 0, 0xff, 0xff, 0xff, 0xf5]
    );
    assert_eq!(
        mgr.submit(Request::Exists { path: String::from("/a"), watch: false }),
        Err(SubmitError::Closed)
    );
}

#[test]
fn reconnect_carries_the_session_identity() {
    let mut mgr = connected();
    mgr.start_reconnect();
    assert!(!mgr.connected());
    let req = mgr.reconnect_request();
    match req {
        Request::Connect { protocol_version, last_zxid_seen, timeout, session_id, passwd, read_only } => {
            assert_eq!(protocol_version, 0);
            assert_eq!(last_zxid_seen, 0x99);
            assert_eq!(timeout, 9000);
            assert_eq!(session_id, 0xbeef);
            assert_eq!(passwd, vec![4, 5, 6]);
            assert!(!read_only);
        },
        other => panic!("not a handshake: {:?}", other),
    }
}

#[test]
fn queued_requests_replay_in_order_on_resume() {
    let mut mgr = connected();
    mgr.start_reconnect();

    // submissions during the reconnect window queue, in order
    assert_eq!(
        mgr.submit(Request::Exists { path: String::from("/one"), watch: false }),
        Ok(Submitted::Queued)
    );
    assert_eq!(
        mgr.submit(Request::Delete { path: String::from("/two"), version: -1 }),
        Ok(Submitted::Queued)
    );

    let results = mgr.resume().unwrap();
    assert!(mgr.connected());
    let xids: Vec<i32> = results.into_iter().map(|r| r.unwrap()).collect();
    assert_eq!(xids.len(), 2);
    assert!(xids[0] < xids[1], "replay must keep submission order");
    assert!(mgr.active_mut().pending_contains(xids[0]));
    assert!(mgr.active_mut().pending_contains(xids[1]));

    // the resumed generation carries the prior session's identity
    let ap = mgr.active_mut();
    assert_eq!(ap.session_id(), 0xbeef);
    assert_eq!(ap.password_cloned(), vec![4, 5, 6]);
    assert_eq!(ap.timeout_ms(), 9000);
    assert_eq!(ap.last_zxid(), 0x99);

    // and opens with the prior session's handshake
    assert!(ap.pending_contains(0));
    let bytes = ap.unsent();
    let mut pos = 4usize; // frame length
    assert_eq!(read_be_i32(&bytes, &mut pos), Ok(0)); // protocol_version
    assert_eq!(read_be_i64(&bytes, &mut pos), Ok(0x99)); // last zxid seen
    assert_eq!(read_be_i32(&bytes, &mut pos), Ok(9000)); // timeout
    assert_eq!(read_be_i64(&bytes, &mut pos), Ok(0xbeef)); // session id
    assert_eq!(read_buffer(&bytes, &mut pos), Ok(vec![4, 5, 6])); // password

    // and its handshake reply completes the resumption
    let d = ap.handle_frame(&connect_reply_body(9000, 0xbeef, &[4, 5, 6])).unwrap();
    match d {
        Dispatch::Reply { xid: 0, result: Ok(Response::Connect { session_id, .. }) } => {
            assert_eq!(session_id, 0xbeef);
        },
        other => panic!("handshake reply mishandled: {:?}", other),
    }
}
