//! The wire codec against hand-computed frames: exact payload bytes for
//! each request kind, and decoding for each response kind.

use zkclient::codec::{opcode_code, zk_error_of, OpCode, Request, Response, ZkError};
use zkclient::types::{Acl, CreateMode, Stat};
use zkclient::wire::{push_be_i32, push_be_i64, push_buffer, push_string};

fn sample_stat() -> Stat {
    Stat {
        czxid: 0x0b,
        mzxid: 0x0b,
        ctime: 1_600_000_000_000,
        mtime: 1_600_000_000_000,
        version: 0,
        cversion: 1,
        aversion: 2,
        ephemeral_owner: 0,
        data_length: 11,
        num_children: 3,
        pzxid: 0x0c,
    }
}

#[test]
fn opcodes_match_the_protocol() {
    assert_eq!(opcode_code(OpCode::Create), 1);
    assert_eq!(opcode_code(OpCode::Delete), 2);
    assert_eq!(opcode_code(OpCode::Exists), 3);
    assert_eq!(opcode_code(OpCode::Ping), 11);
    assert_eq!(opcode_code(OpCode::CreateSession), -10);
    assert_eq!(opcode_code(OpCode::CloseSession), -11);
}

#[test]
fn request_opcode_kinds() {
    let connect = Request::Connect {
        protocol_version: 0,
        last_zxid_seen: 0,
        timeout: 0,
        session_id: 0,
        passwd: vec![],
        read_only: false,
    };
    assert_eq!(connect.opcode(), OpCode::CreateSession);
    let create = Request::Create {
        path: String::from("/foo"),
        data: vec![],
        acl: vec![],
        mode: CreateMode::Persistent,
    };
    assert_eq!(create.opcode(), OpCode::Create);
    let delete = Request::Delete { path: String::from("/foo"), version: -1 };
    assert_eq!(delete.opcode(), OpCode::Delete);
    let exists = Request::Exists { path: String::from("/foo"), watch: true };
    assert_eq!(exists.opcode(), OpCode::Exists);
}

#[test]
fn connect_request_payload_bytes() {
    let req = Request::Connect {
        protocol_version: 0,
        last_zxid_seen: 0x10,
        timeout: 4000,
        session_id: 0x55,
        passwd: vec![1, 2, 3],
        read_only: true,
    };
    let mut out: Vec<u8> = Vec::new();
    req.serialize_into(&mut out);

    let mut expect: Vec<u8> = Vec::new();
    push_be_i32(&mut expect, 0);
    push_be_i64(&mut expect, 0x10);
    push_be_i32(&mut expect, 4000);
    push_be_i64(&mut expect, 0x55);
    push_buffer(&mut expect, &[1, 2, 3]);
    expect.push(1);
    assert_eq!(out, expect);
}

#[test]
fn create_request_payload_bytes() {
    let req = Request::Create {
        path: String::from("/foo"),
        data: b"Hello world".to_vec(),
        acl: Acl::open_unsafe(),
        mode: CreateMode::Ephemeral,
    };
    let mut out: Vec<u8> = Vec::new();
    req.serialize_into(&mut out);

    let mut expect: Vec<u8> = Vec::new();
    push_string(&mut expect, "/foo");
    push_buffer(&mut expect, b"Hello world");
    push_be_i32(&mut expect, 1); // one ACL entry
    push_be_i32(&mut expect, 0x1f);
    push_string(&mut expect, "world");
    push_string(&mut expect, "anyone");
    push_be_i32(&mut expect, 1); // ephemeral flag
    assert_eq!(out, expect);
}

#[test]
fn delete_and_exists_request_payload_bytes() {
    let req = Request::Delete { path: String::from("/foo"), version: 7 };
    let mut out: Vec<u8> = Vec::new();
    req.serialize_into(&mut out);
    let mut expect: Vec<u8> = Vec::new();
    push_string(&mut expect, "/foo");
    push_be_i32(&mut expect, 7);
    assert_eq!(out, expect);

    let req = Request::Exists { path: String::from("/foo"), watch: true };
    let mut out: Vec<u8> = Vec::new();
    req.serialize_into(&mut out);
    let mut expect: Vec<u8> = Vec::new();
    push_string(&mut expect, "/foo");
    expect.push(1);
    assert_eq!(out, expect);
}

#[test]
fn parse_connect_response() {
    let mut buf: Vec<u8> = Vec::new();
    push_be_i32(&mut buf, 0);
    push_be_i32(&mut buf, 6000);
    push_be_i64(&mut buf, 0x77);
    push_buffer(&mut buf, &[9, 9]);
    buf.push(0);
    let r = Response::parse(OpCode::CreateSession, &buf).unwrap();
    assert_eq!(
        r,
        Response::Connect {
            protocol_version: 0,
            timeout: 6000,
            session_id: 0x77,
            passwd: vec![9, 9],
            read_only: false,
        }
    );
}

#[test]
fn parse_connect_response_without_trailing_flag() {
    // some servers omit the read-only byte; it reads as false
    let mut buf: Vec<u8> = Vec::new();
    push_be_i32(&mut buf, 0);
    push_be_i32(&mut buf, 6000);
    push_be_i64(&mut buf, 0x77);
    push_buffer(&mut buf, &[]);
    let r = Response::parse(OpCode::CreateSession, &buf).unwrap();
    match r {
        Response::Connect { read_only, .. } => assert!(!read_only),
        other => panic!("wrong kind: {:?}", other),
    }
}

#[test]
fn parse_exists_response() {
    let st = sample_stat();
    let mut buf: Vec<u8> = Vec::new();
    Response::Exists { stat: st }.encode_into(&mut buf);
    assert_eq!(buf.len(), 68);
    let r = Response::parse(OpCode::Exists, &buf).unwrap();
    assert_eq!(r, Response::Exists { stat: st });
}

#[test]
fn parse_create_and_delete_responses() {
    let mut buf: Vec<u8> = Vec::new();
    push_string(&mut buf, "/foo");
    let r = Response::parse(OpCode::Create, &buf).unwrap();
    assert_eq!(r, Response::Path(String::from("/foo")));

    let r = Response::parse(OpCode::Delete, &[]).unwrap();
    assert_eq!(r, Response::Empty);
}

#[test]
fn parse_fails_on_underrun() {
    assert!(Response::parse(OpCode::Exists, &[0u8; 10]).is_err());
    assert!(Response::parse(OpCode::CreateSession, &[0u8; 3]).is_err());
    assert!(Response::parse(OpCode::Create, &[0, 0, 0, 9, b'x']).is_err());
}

#[test]
fn encode_then_parse_every_response_kind() {
    let cases = vec![
        (
            OpCode::CreateSession,
            Response::Connect {
                protocol_version: 0,
                timeout: 9000,
                session_id: -5,
                passwd: vec![1],
                read_only: true,
            },
        ),
        (OpCode::Exists, Response::Exists { stat: sample_stat() }),
        (OpCode::Delete, Response::Empty),
        (OpCode::Create, Response::Path(String::from("/a/b"))),
    ];
    for (op, resp) in cases {
        let mut buf: Vec<u8> = Vec::new();
        resp.encode_into(&mut buf);
        assert_eq!(Response::parse(op, &buf).unwrap(), resp);
    }
}

#[test]
fn error_codes_map_to_typed_errors() {
    assert_eq!(zk_error_of(-101), ZkError::NoNode);
    assert_eq!(zk_error_of(-110), ZkError::NodeExists);
    assert_eq!(zk_error_of(-111), ZkError::NotEmpty);
    assert_eq!(zk_error_of(-103), ZkError::BadVersion);
    assert_eq!(zk_error_of(-114), ZkError::InvalidACL);
    assert_eq!(zk_error_of(-108), ZkError::NoChildrenForEphemerals);
    assert_eq!(zk_error_of(-112), ZkError::SessionExpired);
    assert_eq!(zk_error_of(-4), ZkError::ConnectionLoss);
    assert_eq!(zk_error_of(-999), ZkError::Other(-999));
}
