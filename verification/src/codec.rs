//! The wire codec: deterministic (de)serialization between typed
//! request/response values and binary frame payloads. No I/O, no state.
//!
//! `serialize_into` appends only the operation-specific payload; the frame
//! length and the xid/opcode header belong to the connection layer, because
//! the handshake request omits them entirely.

use vstd::prelude::*;

verus! {

use crate::types::{
    Acl, CreateMode, Stat, spec_create_mode_flags, create_mode_flags, spec_stat_wire,
    lemma_read_stat_at, push_stat,
};
use crate::wire::{
    DecodeError, ReadFrom, WriteTo, push_be_i32, push_be_i64, push_buffer, push_string,
    read_be_i32, read_be_i64, read_buffer, read_string, read_u8, spec_be_i32, spec_be_i64,
    spec_buffer, spec_read_i32, spec_read_i64, spec_read_buffer, spec_read_string, spec_read_u8,
    spec_string, lemma_read_i32_at, lemma_read_i64_at, lemma_read_buffer_at, lemma_read_string_at,
    lemma_i32_be_round_trip,
};
use vstd::utf8::encode_utf8;

// ---------------------------------------------------------------------------
// Operation kinds.
// ---------------------------------------------------------------------------

/// The operations this client speaks, plus the session-control kinds.
#[derive(Clone, Copy, Debug, PartialEq, Eq, Structural)]
pub enum OpCode {
    Create,
    Delete,
    Exists,
    Ping,
    CreateSession,
    CloseSession,
}

pub open spec fn spec_opcode_code(op: OpCode) -> i32 {
    match op {
        OpCode::Create => 1,
        OpCode::Delete => 2,
        OpCode::Exists => 3,
        OpCode::Ping => 11,
        OpCode::CreateSession => -10i32,
        OpCode::CloseSession => -11i32,
    }
}

pub fn opcode_code(op: OpCode) -> (c: i32)
    ensures
        c == spec_opcode_code(op),
{
    match op {
        OpCode::Create => 1,
        OpCode::Delete => 2,
        OpCode::Exists => 3,
        OpCode::Ping => 11,
        OpCode::CreateSession => -10i32,
        OpCode::CloseSession => -11i32,
    }
}

// ---------------------------------------------------------------------------
// Protocol-level errors: a nonzero error code on a well-formed response.
// Not a transport fault; the connection stays healthy.
// ---------------------------------------------------------------------------

#[derive(Clone, Copy, Debug, PartialEq, Eq, Structural)]
pub enum ZkError {
    APIError,
    AuthFailed,
    BadArguments,
    BadVersion,
    ConnectionLoss,
    DataInconsistency,
    InvalidACL,
    InvalidCallback,
    MarshallingError,
    NoAuth,
    NoChildrenForEphemerals,
    NodeExists,
    NoNode,
    NotEmpty,
    OperationTimeout,
    RuntimeInconsistency,
    SessionExpired,
    SessionMoved,
    SystemError,
    Unimplemented,
    /// A nonzero code this client has no name for, kept verbatim.
    Other(i32),
}

pub open spec fn spec_zk_error_of(c: i32) -> ZkError {
    if c == -100i32 {
        ZkError::APIError
    } else if c == -115i32 {
        ZkError::AuthFailed
    } else if c == -8i32 {
        ZkError::BadArguments
    } else if c == -103i32 {
        ZkError::BadVersion
    } else if c == -4i32 {
        ZkError::ConnectionLoss
    } else if c == -3i32 {
        ZkError::DataInconsistency
    } else if c == -114i32 {
        ZkError::InvalidACL
    } else if c == -113i32 {
        ZkError::InvalidCallback
    } else if c == -5i32 {
        ZkError::MarshallingError
    } else if c == -102i32 {
        ZkError::NoAuth
    } else if c == -108i32 {
        ZkError::NoChildrenForEphemerals
    } else if c == -110i32 {
        ZkError::NodeExists
    } else if c == -101i32 {
        ZkError::NoNode
    } else if c == -111i32 {
        ZkError::NotEmpty
    } else if c == -7i32 {
        ZkError::OperationTimeout
    } else if c == -2i32 {
        ZkError::RuntimeInconsistency
    } else if c == -112i32 {
        ZkError::SessionExpired
    } else if c == -118i32 {
        ZkError::SessionMoved
    } else if c == -1i32 {
        ZkError::SystemError
    } else if c == -6i32 {
        ZkError::Unimplemented
    } else {
        ZkError::Other(c)
    }
}

pub fn zk_error_of(c: i32) -> (e: ZkError)
    ensures
        e == spec_zk_error_of(c),
{
    if c == -100i32 {
        ZkError::APIError
    } else if c == -115i32 {
        ZkError::AuthFailed
    } else if c == -8i32 {
        ZkError::BadArguments
    } else if c == -103i32 {
        ZkError::BadVersion
    } else if c == -4i32 {
        ZkError::ConnectionLoss
    } else if c == -3i32 {
        ZkError::DataInconsistency
    } else if c == -114i32 {
        ZkError::InvalidACL
    } else if c == -113i32 {
        ZkError::InvalidCallback
    } else if c == -5i32 {
        ZkError::MarshallingError
    } else if c == -102i32 {
        ZkError::NoAuth
    } else if c == -108i32 {
        ZkError::NoChildrenForEphemerals
    } else if c == -110i32 {
        ZkError::NodeExists
    } else if c == -101i32 {
        ZkError::NoNode
    } else if c == -111i32 {
        ZkError::NotEmpty
    } else if c == -7i32 {
        ZkError::OperationTimeout
    } else if c == -2i32 {
        ZkError::RuntimeInconsistency
    } else if c == -112i32 {
        ZkError::SessionExpired
    } else if c == -118i32 {
        ZkError::SessionMoved
    } else if c == -1i32 {
        ZkError::SystemError
    } else if c == -6i32 {
        ZkError::Unimplemented
    } else {
        ZkError::Other(c)
    }
}

// ---------------------------------------------------------------------------
// Requests.
// ---------------------------------------------------------------------------

/// One typed operation, carrying exactly the fields its payload needs.
#[derive(Clone, Debug)]
pub enum Request {
    Connect {
        protocol_version: i32,
        last_zxid_seen: i64,
        timeout: i32,
        session_id: i64,
        passwd: Vec<u8>,
        read_only: bool,
    },
    Create { path: String, data: Vec<u8>, acl: Vec<Acl>, mode: CreateMode },
    Delete { path: String, version: i32 },
    Exists { path: String, watch: bool },
}

impl Request {
    /// Every length prefix in the payload fits in a signed 32-bit integer.
    pub open spec fn wf(&self) -> bool {
        match self {
            Request::Connect { passwd, .. } => passwd@.len() <= i32::MAX,
            Request::Create { path, data, acl, .. } => {
                &&& encode_utf8(path@).len() <= i32::MAX
                &&& data@.len() <= i32::MAX
                &&& acl.wire_wf()
            },
            Request::Delete { path, .. } => encode_utf8(path@).len() <= i32::MAX,
            Request::Exists { path, .. } => encode_utf8(path@).len() <= i32::MAX,
        }
    }

    pub open spec fn spec_opcode(&self) -> OpCode {
        match self {
            Request::Connect { .. } => OpCode::CreateSession,
            Request::Create { .. } => OpCode::Create,
            Request::Delete { .. } => OpCode::Delete,
            Request::Exists { .. } => OpCode::Exists,
        }
    }

    /// The operation kind stored in the pending table when this request is
    /// sent, so the reply can be decoded.
    pub fn opcode(&self) -> (op: OpCode)
        ensures
            op == self.spec_opcode(),
    {
        match self {
            Request::Connect { .. } => OpCode::CreateSession,
            Request::Create { .. } => OpCode::Create,
            Request::Delete { .. } => OpCode::Delete,
            Request::Exists { .. } => OpCode::Exists,
        }
    }

    /// The operation-specific payload bytes, without frame length or
    /// xid/opcode header.
    pub open spec fn spec_encode(&self) -> Seq<u8> {
        match self {
            Request::Connect {
                protocol_version,
                last_zxid_seen,
                timeout,
                session_id,
                passwd,
                read_only,
            } => spec_be_i32(*protocol_version) + spec_be_i64(*last_zxid_seen) + spec_be_i32(
                *timeout,
            ) + spec_be_i64(*session_id) + spec_buffer(passwd@) + seq![
                if *read_only {
                    1u8
                } else {
                    0u8
                },
            ],
            Request::Create { path, data, acl, mode } => spec_string(path@) + spec_buffer(data@)
                + acl.wire() + spec_be_i32(spec_create_mode_flags(*mode)),
            Request::Delete { path, version } => spec_string(path@) + spec_be_i32(*version),
            Request::Exists { path, watch } => spec_string(path@) + seq![
                if *watch {
                    1u8
                } else {
                    0u8
                },
            ],
        }
    }

    /// Appends the payload for this request: the operation-specific fields
    /// only, exactly the specification image.
    pub fn serialize_into(&self, buffer: &mut Vec<u8>)
        requires
            self.wf(),
        ensures
            final(buffer)@ == old(buffer)@ + self.spec_encode(),
    {
        match self {
            Request::Connect {
                protocol_version,
                last_zxid_seen,
                timeout,
                session_id,
                passwd,
                read_only,
            } => {
                push_be_i32(buffer, *protocol_version);
                push_be_i64(buffer, *last_zxid_seen);
                push_be_i32(buffer, *timeout);
                push_be_i64(buffer, *session_id);
                push_buffer(buffer, passwd.as_slice());
                buffer.push(if *read_only {
                    1u8
                } else {
                    0u8
                });
            },
            Request::Create { path, data, acl, mode } => {
                push_string(buffer, path.as_str());
                push_buffer(buffer, data.as_slice());
                acl.write_to(buffer);
                push_be_i32(buffer, create_mode_flags(*mode));
            },
            Request::Delete { path, version } => {
                push_string(buffer, path.as_str());
                push_be_i32(buffer, *version);
            },
            Request::Exists { path, watch } => {
                push_string(buffer, path.as_str());
                buffer.push(if *watch {
                    1u8
                } else {
                    0u8
                });
            },
        }
        assert(buffer@ =~= old(buffer)@ + self.spec_encode());
    }
}

// ---------------------------------------------------------------------------
// Responses.
// ---------------------------------------------------------------------------

/// One decoded reply, mirroring the request kinds.
#[derive(Clone, Debug, PartialEq, Eq)]
pub enum Response {
    Connect { protocol_version: i32, timeout: i32, session_id: i64, passwd: Vec<u8>, read_only: bool },
    Exists { stat: Stat },
    Empty,
    Path(String),
}

/// The mathematical image of a response: buffers and strings as sequences.
pub enum ResponseModel {
    Connect { protocol_version: i32, timeout: i32, session_id: i64, passwd: Seq<u8>, read_only: bool },
    Exists { stat: Stat },
    Empty,
    Path(Seq<char>),
}

impl DeepView for Response {
    type V = ResponseModel;

    open spec fn deep_view(&self) -> ResponseModel {
        match self {
            Response::Connect { protocol_version, timeout, session_id, passwd, read_only } =>
                ResponseModel::Connect {
                    protocol_version: *protocol_version,
                    timeout: *timeout,
                    session_id: *session_id,
                    passwd: passwd@,
                    read_only: *read_only,
                },
            Response::Exists { stat } => ResponseModel::Exists { stat: *stat },
            Response::Empty => ResponseModel::Empty,
            Response::Path(p) => ResponseModel::Path(p@),
        }
    }
}

/// What `Response::parse` yields on each opcode and payload: the decoded
/// model, or nothing on underrun or bytes that do not decode. Trailing bytes
/// beyond the operation's fields are ignored; the handshake's trailing
/// read-only flag is optional on the wire.
pub open spec fn spec_parse_response(op: OpCode, s: Seq<u8>) -> Option<ResponseModel> {
    match op {
        OpCode::CreateSession => {
            match spec_read_i32(s, 0) {
                None => None,
                Some((protocol_version, p1)) => match spec_read_i32(s, p1) {
                    None => None,
                    Some((timeout, p2)) => match spec_read_i64(s, p2) {
                        None => None,
                        Some((session_id, p3)) => match spec_read_buffer(s, p3) {
                            None => None,
                            Some((passwd, p4)) => {
                                let read_only = match spec_read_u8(s, p4) {
                                    Some((b, _)) => b != 0,
                                    None => false,
                                };
                                Some(
                                    ResponseModel::Connect {
                                        protocol_version,
                                        timeout,
                                        session_id,
                                        passwd,
                                        read_only,
                                    },
                                )
                            },
                        },
                    },
                },
            }
        },
        OpCode::Create => match spec_read_string(s, 0) {
            None => None,
            Some((path, _)) => Some(ResponseModel::Path(path)),
        },
        OpCode::Exists => match Stat::spec_read(s, 0) {
            None => None,
            Some((stat, _)) => Some(ResponseModel::Exists { stat }),
        },
        OpCode::Delete => Some(ResponseModel::Empty),
        OpCode::Ping => None,
        OpCode::CloseSession => None,
    }
}

impl Response {
    /// Decodes the result bytes of a reply whose header named `opcode`.
    /// Fails exactly where the payload underruns or holds bytes that do not
    /// decode; a reply to a ping or to the session close carries no result
    /// and decodes as nothing here.
    pub fn parse(opcode: OpCode, buf: &[u8]) -> (r: Result<Response, DecodeError>)
        ensures
            match r {
                Ok(v) => spec_parse_response(opcode, buf@) == Some(v.deep_view()),
                Err(_) => spec_parse_response(opcode, buf@) is None,
            },
    {
        let mut pos: usize = 0;
        match opcode {
            OpCode::CreateSession => {
                let protocol_version = read_be_i32(buf, &mut pos)?;
                let timeout = read_be_i32(buf, &mut pos)?;
                let session_id = read_be_i64(buf, &mut pos)?;
                let passwd = read_buffer(buf, &mut pos)?;
                let read_only = match read_u8(buf, &mut pos) {
                    Ok(b) => b != 0,
                    Err(_) => false,
                };
                Ok(Response::Connect { protocol_version, timeout, session_id, passwd, read_only })
            },
            OpCode::Create => {
                let path = read_string(buf, &mut pos)?;
                Ok(Response::Path(path))
            },
            OpCode::Exists => {
                let stat = Stat::read_from(buf, &mut pos)?;
                Ok(Response::Exists { stat })
            },
            OpCode::Delete => Ok(Response::Empty),
            OpCode::Ping => Err(DecodeError),
            OpCode::CloseSession => Err(DecodeError),
        }
    }

    /// The result bytes a server would send for this response; the inverse
    /// of `parse`, kept for exercising the decoder against known bytes.
    pub open spec fn spec_encode(m: ResponseModel) -> Seq<u8>
        recommends
            Self::spec_encode_wf(m),
    {
        match m {
            ResponseModel::Connect { protocol_version, timeout, session_id, passwd, read_only } =>
                spec_be_i32(protocol_version) + spec_be_i32(timeout) + spec_be_i64(session_id)
                + spec_buffer(passwd) + seq![
                if read_only {
                    1u8
                } else {
                    0u8
                },
            ],
            ResponseModel::Exists { stat } => spec_stat_wire(stat),
            ResponseModel::Empty => Seq::<u8>::empty(),
            ResponseModel::Path(p) => spec_string(p),
        }
    }

    /// Every length prefix in the encoded response fits in a signed 32-bit
    /// integer.
    pub open spec fn spec_encode_wf(m: ResponseModel) -> bool {
        match m {
            ResponseModel::Connect { passwd, .. } => passwd.len() <= i32::MAX,
            ResponseModel::Exists { .. } => true,
            ResponseModel::Empty => true,
            ResponseModel::Path(p) => encode_utf8(p).len() <= i32::MAX,
        }
    }

    /// Appends the server-side encoding of this response.
    pub fn encode_into(&self, out: &mut Vec<u8>)
        requires
            Self::spec_encode_wf(self.deep_view()),
        ensures
            final(out)@ == old(out)@ + Self::spec_encode(self.deep_view()),
    {
        match self {
            Response::Connect { protocol_version, timeout, session_id, passwd, read_only } => {
                push_be_i32(out, *protocol_version);
                push_be_i32(out, *timeout);
                push_be_i64(out, *session_id);
                push_buffer(out, passwd.as_slice());
                out.push(if *read_only {
                    1u8
                } else {
                    0u8
                });
            },
            Response::Exists { stat } => {
                push_stat(out, stat);
            },
            Response::Empty => {},
            Response::Path(p) => {
                push_string(out, p.as_str());
            },
        }
        assert(out@ =~= old(out)@ + Self::spec_encode(self.deep_view()));
    }
}

/// Round trip of the codec: parsing a response's own encoding under its own
/// opcode yields the response back, for every well-formed response.
#[verifier::spinoff_prover]
#[verifier::rlimit(60)]
pub proof fn lemma_parse_encode_response(m: ResponseModel, op: OpCode)
    requires
        Response::spec_encode_wf(m),
        match m {
            ResponseModel::Connect { .. } => op == OpCode::CreateSession,
            ResponseModel::Exists { .. } => op == OpCode::Exists,
            ResponseModel::Empty => op == OpCode::Delete,
            ResponseModel::Path(_) => op == OpCode::Create,
        },
    ensures
        spec_parse_response(op, Response::spec_encode(m)) == Some(m),
{
    let s = Response::spec_encode(m);
    match m {
        ResponseModel::Connect { protocol_version, timeout, session_id, passwd, read_only } => {
            lemma_i32_be_round_trip(protocol_version);
            lemma_i32_be_round_trip(timeout);
            lemma_i32_be_round_trip(passwd.len() as i32);
            assert(s.subrange(0, 4) =~= spec_be_i32(protocol_version));
            lemma_read_i32_at(s, 0, protocol_version);
            assert(s.subrange(4, 8) =~= spec_be_i32(timeout));
            lemma_read_i32_at(s, 4, timeout);
            assert(s.subrange(8, 16) =~= spec_be_i64(session_id));
            lemma_read_i64_at(s, 8, session_id);
            assert(s.subrange(16, 20 + passwd.len() as int) =~= spec_buffer(passwd));
            lemma_read_buffer_at(s, 16, passwd);
            let p4 = 20 + passwd.len() as int;
            assert(s[p4] == (if read_only {
                1u8
            } else {
                0u8
            }));
            assert(spec_read_u8(s, p4) == Some(
                (
                    if read_only {
                        1u8
                    } else {
                        0u8
                    },
                    p4 + 1,
                ),
            ));
        },
        ResponseModel::Exists { stat } => {
            assert(s.subrange(0, 68) =~= spec_stat_wire(stat));
            lemma_read_stat_at(s, 0, stat);
        },
        ResponseModel::Empty => {},
        ResponseModel::Path(p) => {
            lemma_i32_be_round_trip(encode_utf8(p).len() as i32);
            assert(s.subrange(0, 4 + encode_utf8(p).len() as int) =~= spec_string(p));
            lemma_read_string_at(s, 0, p);
        },
    }
}

} // verus!
