//! The active connection: owns one live frame transport and multiplexes
//! many concurrent requests over it through a transaction-id table.
//!
//! All decisions live here, verified; the I/O that feeds bytes in and
//! carries bytes out stays with the caller. One frame in yields one
//! dispatch decision out: fulfil a waiting request, forward a watch event,
//! discard a heartbeat reply, or acknowledge the session close.

use vstd::prelude::*;

verus! {

use std::collections::HashMap;
use crate::codec::{
    OpCode, Request, Response, ResponseModel, ZkError, spec_opcode_code, opcode_code,
    spec_parse_response, spec_zk_error_of, zk_error_of,
};
use crate::transport::FrameTransport;
use crate::types::{WatchedEvent, WatchedEventModel};
use crate::wire::{
    ReadFrom, push_be_i32, read_be_i32, read_be_i64, spec_be_i32, spec_buffer, spec_read_i32,
    spec_read_i64, tail_copy,
};
use vstd::slice::slice_to_vec;

broadcast use vstd::std_specs::hash::group_hash_axioms;

// ---------------------------------------------------------------------------
// What one inbound frame amounts to.
// ---------------------------------------------------------------------------

/// The decision taken on one inbound frame.
#[derive(Debug, PartialEq, Eq)]
pub enum Dispatch {
    /// A correlated reply: fulfil the caller waiting on this xid with a
    /// decoded response or a protocol-level error.
    Reply { xid: i32, result: Result<Response, ZkError> },
    /// An unsolicited watch event for the subscriber; best-effort delivery.
    Watch { event: WatchedEvent },
    /// The reply to a heartbeat; nothing to do.
    PingReply,
    /// The server acknowledged the session close.
    CloseAck,
}

/// The mathematical image of a dispatch decision.
pub enum DispatchModel {
    Reply { xid: i32, result: Result<ResponseModel, ZkError> },
    Watch { event: WatchedEventModel },
    PingReply,
    CloseAck,
}

impl DeepView for Dispatch {
    type V = DispatchModel;

    open spec fn deep_view(&self) -> DispatchModel {
        match self {
            Dispatch::Reply { xid, result } => DispatchModel::Reply {
                xid: *xid,
                result: match result {
                    Ok(resp) => Ok(resp.deep_view()),
                    Err(e) => Err(*e),
                },
            },
            Dispatch::Watch { event } => DispatchModel::Watch { event: event.deep_view() },
            Dispatch::PingReply => DispatchModel::PingReply,
            Dispatch::CloseAck => DispatchModel::CloseAck,
        }
    }
}

/// A fault that poisons the connection: framing or bookkeeping is no longer
/// trustworthy, every pending request fails, and the lifecycle moves on.
#[derive(Clone, Copy, Debug, PartialEq, Eq, Structural)]
pub enum FrameFault {
    /// A frame ended before its fields did, or held bytes that do not decode.
    Underrun,
    /// The server's state id went backwards.
    ZxidRegressed,
    /// A frame other than a watch event arrived without a state id.
    MissingZxid,
    /// A reply named a transaction this client never issued.
    UnknownXid(i32),
    /// The session close was acknowledged with an error.
    CloseFailed(ZkError),
    /// The handshake negotiated a negative session timeout.
    BadTimeout,
}

/// Why a submission was refused.
#[derive(Clone, Copy, Debug, PartialEq, Eq, Structural)]
pub enum SubmitError {
    /// The caller side closed; no new requests are accepted.
    Closed,
    /// The encoded frame would not fit a signed 32-bit length.
    TooBig,
    /// The transaction-id counter is spent.
    Exhausted,
}

/// What end-of-stream means in the current state.
#[derive(Clone, Copy, Debug, PartialEq, Eq, Structural)]
pub enum EofOutcome {
    /// Boundary-aligned with nothing outstanding: normal termination.
    Clean,
    /// A partial frame was left behind: fatal.
    PartialFrame,
    /// Requests were still outstanding: fatal.
    Outstanding,
}

// ---------------------------------------------------------------------------
// Wire images owned by this layer: the request frame with its xid/opcode
// header, the reply header, the fixed ping and close frames.
// ---------------------------------------------------------------------------

/// The frame payload for a request: xid and opcode, then the body — except
/// the handshake, which goes out as its bare body.
pub open spec fn spec_request_frame(xid: i32, req: &Request) -> Seq<u8> {
    match req {
        Request::Connect { .. } => req.spec_encode(),
        _ => spec_be_i32(xid) + spec_be_i32(spec_opcode_code(req.spec_opcode()))
            + req.spec_encode(),
    }
}

/// The header of every server reply frame but the handshake's:
/// xid, state id, error code.
pub open spec fn spec_header(s: Seq<u8>) -> Option<(i32, i64, i32)> {
    match spec_read_i32(s, 0) {
        None => None,
        Some((x, p1)) => match spec_read_i64(s, p1) {
            None => None,
            Some((z, p2)) => match spec_read_i32(s, p2) {
                None => None,
                Some((e, _)) => Some((x, z, e)),
            },
        },
    }
}

/// The fixed 12-byte heartbeat frame: length 8, xid -2, the ping opcode.
pub open spec fn spec_ping_frame() -> Seq<u8> {
    spec_buffer(spec_be_i32(-2i32) + spec_be_i32(spec_opcode_code(OpCode::Ping)))
}

/// The fixed 12-byte session-close frame: length 8, xid 0, the close opcode.
pub open spec fn spec_close_frame() -> Seq<u8> {
    spec_buffer(spec_be_i32(0i32) + spec_be_i32(spec_opcode_code(OpCode::CloseSession)))
}

// ---------------------------------------------------------------------------
// The connection.
// ---------------------------------------------------------------------------

/// One live connection generation: the framed transport, the pending table
/// keyed by xid, the handshake flag, and the session state remembered for
/// resumption.
pub struct ActivePacketizer {
    transport: FrameTransport,
    /// Operations awaiting a reply: xid to the kind needed to decode it.
    reply: HashMap<i32, OpCode>,
    /// The next inbound frame is the handshake reply, which has no header.
    first: bool,
    last_zxid_seen: i64,
    session_id: i64,
    password: Vec<u8>,
    timeout_ms: i32,
    heartbeat_ms: u64,
}

impl ActivePacketizer {
    pub closed spec fn wf(&self) -> bool {
        &&& self.transport.wf()
        &&& self.password@.len() <= i32::MAX
    }

    /// The pending table: outstanding xids and their operation kinds.
    pub closed spec fn pending(&self) -> Map<i32, OpCode> {
        self.reply@
    }

    pub closed spec fn spec_first(&self) -> bool {
        self.first
    }

    pub closed spec fn out_pending(&self) -> Seq<u8> {
        self.transport.out_pending()
    }

    pub closed spec fn in_pending(&self) -> Seq<u8> {
        self.transport.in_pending()
    }

    pub closed spec fn spec_last_zxid(&self) -> i64 {
        self.last_zxid_seen
    }

    pub closed spec fn spec_session_id(&self) -> i64 {
        self.session_id
    }

    pub closed spec fn spec_password(&self) -> Seq<u8> {
        self.password@
    }

    pub closed spec fn spec_timeout(&self) -> i32 {
        self.timeout_ms
    }

    pub closed spec fn spec_heartbeat(&self) -> u64 {
        self.heartbeat_ms
    }

    /// The session fields are the same on both sides.
    pub open spec fn session_eq(pre: &Self, post: &Self) -> bool {
        &&& post.spec_session_id() == pre.spec_session_id()
        &&& post.spec_password() == pre.spec_password()
        &&& post.spec_timeout() == pre.spec_timeout()
        &&& post.spec_heartbeat() == pre.spec_heartbeat()
    }

    /// Nothing but the buffers moved.
    pub open spec fn state_eq(pre: &Self, post: &Self) -> bool {
        &&& post.pending() == pre.pending()
        &&& post.spec_first() == pre.spec_first()
        &&& post.spec_last_zxid() == pre.spec_last_zxid()
        &&& Self::session_eq(pre, post)
    }

    /// A fresh first-connection generation.
    pub fn new() -> (ap: Self)
        ensures
            ap.wf(),
            ap.pending() == Map::<i32, OpCode>::empty(),
            ap.spec_first() == true,
            ap.out_pending() == Seq::<u8>::empty(),
            ap.in_pending() == Seq::<u8>::empty(),
            ap.spec_last_zxid() == 0,
            ap.spec_session_id() == 0,
            ap.spec_password() == Seq::<u8>::empty(),
            ap.spec_timeout() == 0,
            ap.spec_heartbeat() == 86_400_000u64,
    {
        ActivePacketizer {
            transport: FrameTransport::new(),
            reply: HashMap::new(),
            first: true,
            last_zxid_seen: 0,
            session_id: 0,
            password: Vec::new(),
            timeout_ms: 0,
            heartbeat_ms: 86_400_000,
        }
    }

    /// A generation that resumes a prior session: it still expects a
    /// handshake reply first, but remembers where the old session stood.
    pub fn new_resuming(last_zxid_seen: i64, session_id: i64, password: Vec<u8>, timeout_ms: i32) -> (ap: Self)
        requires
            password@.len() <= i32::MAX,
        ensures
            ap.wf(),
            ap.pending() == Map::<i32, OpCode>::empty(),
            ap.spec_first() == true,
            ap.out_pending() == Seq::<u8>::empty(),
            ap.in_pending() == Seq::<u8>::empty(),
            ap.spec_last_zxid() == last_zxid_seen,
            ap.spec_session_id() == session_id,
            ap.spec_password() == password@,
            ap.spec_timeout() == timeout_ms,
            ap.spec_heartbeat() == 86_400_000u64,
    {
        ActivePacketizer {
            transport: FrameTransport::new(),
            reply: HashMap::new(),
            first: true,
            last_zxid_seen,
            session_id,
            password,
            timeout_ms,
            heartbeat_ms: 86_400_000,
        }
    }

    // -- outbound ----------------------------------------------------------

    /// Serializes one request under the given xid: frame length, xid and
    /// opcode (both omitted for the handshake), then the body; and records
    /// the xid in the pending table. Refused only when the frame would not
    /// fit a signed 32-bit length, in which case nothing changes.
    pub fn enqueue(&mut self, xid: i32, item: &Request) -> (r: Result<(), SubmitError>)
        requires
            old(self).wf(),
            item.wf(),
            !old(self).pending().contains_key(xid),
        ensures
            final(self).wf(),
            final(self).in_pending() == old(self).in_pending(),
            final(self).spec_first() == old(self).spec_first(),
            final(self).spec_last_zxid() == old(self).spec_last_zxid(),
            Self::session_eq(old(self), final(self)),
            match r {
                Ok(()) => {
                    &&& spec_request_frame(xid, item).len() <= i32::MAX
                    &&& final(self).pending() == old(self).pending().insert(
                        xid,
                        item.spec_opcode(),
                    )
                    &&& final(self).out_pending() == old(self).out_pending() + spec_buffer(
                        spec_request_frame(xid, item),
                    )
                },
                Err(e) => {
                    &&& e == SubmitError::TooBig
                    &&& spec_request_frame(xid, item).len() > i32::MAX
                    &&& final(self).pending() == old(self).pending()
                    &&& final(self).out_pending() == old(self).out_pending()
                },
            },
    {
        let mut payload: Vec<u8> = Vec::new();
        let is_connect = match item {
            Request::Connect { .. } => true,
            _ => false,
        };
        if !is_connect {
            push_be_i32(&mut payload, xid);
            push_be_i32(&mut payload, opcode_code(item.opcode()));
        }
        item.serialize_into(&mut payload);
        proof {
            assert(payload@ =~= spec_request_frame(xid, item));
        }
        if payload.len() > (i32::MAX as usize) {
            return Err(SubmitError::TooBig);
        }
        self.reply.insert(xid, item.opcode());
        self.transport.append_frame(payload.as_slice());
        Ok(())
    }

    /// The heartbeat timer fired. A ping goes out only when nothing else is
    /// queued outbound: an in-flight request already proves liveness, so no
    /// ping is emitted while any request is unflushed.
    pub fn on_ping_timer(&mut self) -> (sent: bool)
        requires
            old(self).wf(),
        ensures
            final(self).wf(),
            final(self).in_pending() == old(self).in_pending(),
            Self::state_eq(old(self), final(self)),
            sent == (old(self).out_pending().len() == 0),
            sent ==> final(self).out_pending() == spec_ping_frame(),
            !sent ==> final(self).out_pending() == old(self).out_pending(),
    {
        if self.transport.outlen() == 0 {
            let mut payload: Vec<u8> = Vec::new();
            push_be_i32(&mut payload, -2i32);
            push_be_i32(&mut payload, opcode_code(OpCode::Ping));
            self.transport.append_frame(payload.as_slice());
            proof {
                assert(payload@ =~= spec_be_i32(-2i32) + spec_be_i32(
                    spec_opcode_code(OpCode::Ping),
                ));
                assert(old(self).out_pending() + spec_buffer(payload@) =~= spec_ping_frame());
            }
            true
        } else {
            false
        }
    }

    /// Queues the fixed-size close-session frame, xid 0. No pending-table
    /// entry is made: the acknowledgment is recognized by its xid alone.
    pub fn send_close(&mut self)
        requires
            old(self).wf(),
        ensures
            final(self).wf(),
            final(self).in_pending() == old(self).in_pending(),
            Self::state_eq(old(self), final(self)),
            final(self).out_pending() == old(self).out_pending() + spec_close_frame(),
    {
        let mut payload: Vec<u8> = Vec::new();
        push_be_i32(&mut payload, 0i32);
        push_be_i32(&mut payload, opcode_code(OpCode::CloseSession));
        self.transport.append_frame(payload.as_slice());
        proof {
            assert(payload@ =~= spec_be_i32(0i32) + spec_be_i32(
                spec_opcode_code(OpCode::CloseSession),
            ));
        }
    }

    // -- inbound -----------------------------------------------------------

    /// Dispatches one complete inbound frame payload.
    ///
    /// The first frame of a generation is the handshake reply, headerless:
    /// it fulfils the entry at xid 0 and captures session id, password and
    /// negotiated timeout, arming the heartbeat at two-thirds of it. Every
    /// later frame opens with xid, state id, and error code; xid -1 is a
    /// watch event and never consumes a pending entry, xid -2 answers a
    /// ping, xid 0 acknowledges the close, and any other xid fulfils
    /// exactly the matching pending entry — with a typed error when the
    /// code is nonzero, else with the decoded response. A fault leaves the
    /// state untouched and poisons the connection.
    pub fn handle_frame(&mut self, payload: &[u8]) -> (r: Result<Dispatch, FrameFault>)
        requires
            old(self).wf(),
        ensures
            final(self).wf(),
            final(self).out_pending() == old(self).out_pending(),
            final(self).in_pending() == old(self).in_pending(),
            r is Err ==> Self::state_eq(old(self), final(self)),
            ({
                let s = payload@;
                if old(self).spec_first() {
                    if !old(self).pending().contains_key(0i32) {
                        r == Err::<Dispatch, FrameFault>(FrameFault::UnknownXid(0i32))
                    } else {
                        let op = old(self).pending()[0i32];
                        match spec_parse_response(op, s) {
                            None => r == Err::<Dispatch, FrameFault>(FrameFault::Underrun),
                            Some(m) => match m {
                                ResponseModel::Connect { timeout, session_id, passwd, .. } => {
                                    if timeout < 0 {
                                        r == Err::<Dispatch, FrameFault>(FrameFault::BadTimeout)
                                    } else {
                                        &&& r matches Ok(d) && d.deep_view()
                                            == DispatchModel::Reply {
                                            xid: 0,
                                            result: Ok(m),
                                        }
                                        &&& final(self).spec_first() == false
                                        &&& final(self).pending() == old(self).pending().remove(
                                            0i32,
                                        )
                                        &&& final(self).spec_session_id() == session_id
                                        &&& final(self).spec_password() == passwd
                                        &&& final(self).spec_timeout() == timeout
                                        &&& final(self).spec_heartbeat() == 2 * timeout / 3
                                        &&& final(self).spec_last_zxid() == old(
                                            self,
                                        ).spec_last_zxid()
                                    }
                                },
                                _ => {
                                    &&& r matches Ok(d) && d.deep_view() == DispatchModel::Reply {
                                        xid: 0,
                                        result: Ok(m),
                                    }
                                    &&& final(self).spec_first() == false
                                    &&& final(self).pending() == old(self).pending().remove(0i32)
                                    &&& final(self).spec_last_zxid() == old(self).spec_last_zxid()
                                    &&& Self::session_eq(old(self), final(self))
                                },
                            },
                        }
                    }
                } else {
                    match spec_header(s) {
                        None => r == Err::<Dispatch, FrameFault>(FrameFault::Underrun),
                        Some((x, z, e)) => {
                            if z == -1 && x != -1 {
                                r == Err::<Dispatch, FrameFault>(FrameFault::MissingZxid)
                            } else if z != -1 && z < old(self).spec_last_zxid() {
                                r == Err::<Dispatch, FrameFault>(FrameFault::ZxidRegressed)
                            } else {
                                let zx = if z == -1 {
                                    old(self).spec_last_zxid()
                                } else {
                                    z
                                };
                                if x == 0 {
                                    if e != 0 {
                                        r == Err::<Dispatch, FrameFault>(
                                            FrameFault::CloseFailed(spec_zk_error_of(e)),
                                        )
                                    } else {
                                        &&& r matches Ok(d) && d.deep_view()
                                            == DispatchModel::CloseAck
                                        &&& final(self).pending() == old(self).pending()
                                        &&& final(self).spec_first() == old(self).spec_first()
                                        &&& final(self).spec_last_zxid() == zx
                                        &&& Self::session_eq(old(self), final(self))
                                    }
                                } else if x == -1 {
                                    match WatchedEvent::spec_read(s, 16) {
                                        None => r == Err::<Dispatch, FrameFault>(
                                            FrameFault::Underrun,
                                        ),
                                        Some((em, _)) => {
                                            &&& r matches Ok(d) && d.deep_view()
                                                == DispatchModel::Watch { event: em }
                                            &&& final(self).pending() == old(self).pending()
                                            &&& final(self).spec_first() == old(self).spec_first()
                                            &&& final(self).spec_last_zxid() == zx
                                            &&& Self::session_eq(old(self), final(self))
                                        },
                                    }
                                } else if x == -2 {
                                    &&& r matches Ok(d) && d.deep_view() == DispatchModel::PingReply
                                    &&& final(self).pending() == old(self).pending()
                                    &&& final(self).spec_first() == old(self).spec_first()
                                    &&& final(self).spec_last_zxid() == zx
                                    &&& Self::session_eq(old(self), final(self))
                                } else {
                                    if !old(self).pending().contains_key(x) {
                                        r == Err::<Dispatch, FrameFault>(FrameFault::UnknownXid(x))
                                    } else {
                                        let op = old(self).pending()[x];
                                        if e != 0 {
                                            &&& r matches Ok(d) && d.deep_view()
                                                == DispatchModel::Reply {
                                                xid: x,
                                                result: Err(spec_zk_error_of(e)),
                                            }
                                            &&& final(self).pending() == old(
                                                self,
                                            ).pending().remove(x)
                                            &&& final(self).spec_first() == old(self).spec_first()
                                            &&& final(self).spec_last_zxid() == zx
                                            &&& Self::session_eq(old(self), final(self))
                                        } else {
                                            match spec_parse_response(op, s.skip(16)) {
                                                None => r == Err::<Dispatch, FrameFault>(
                                                    FrameFault::Underrun,
                                                ),
                                                Some(m) => {
                                                    &&& r matches Ok(d) && d.deep_view()
                                                        == DispatchModel::Reply {
                                                        xid: x,
                                                        result: Ok(m),
                                                    }
                                                    &&& final(self).pending() == old(
                                                        self,
                                                    ).pending().remove(x)
                                                    &&& final(self).spec_first() == old(
                                                        self,
                                                    ).spec_first()
                                                    &&& final(self).spec_last_zxid() == zx
                                                    &&& Self::session_eq(old(self), final(self))
                                                },
                                            }
                                        }
                                    }
                                }
                            }
                        },
                    }
                }
            }),
    {
        if self.first {
            let op = match self.reply.get(&0i32) {
                Some(op) => *op,
                None => {
                    return Err(FrameFault::UnknownXid(0));
                },
            };
            let resp = match Response::parse(op, payload) {
                Ok(v) => v,
                Err(_) => {
                    return Err(FrameFault::Underrun);
                },
            };
            match &resp {
                Response::Connect { timeout, session_id, passwd, .. } => {
                    if *timeout < 0 {
                        return Err(FrameFault::BadTimeout);
                    }
                    self.session_id = *session_id;
                    self.password = slice_to_vec(passwd.as_slice());
                    self.timeout_ms = *timeout;
                    self.heartbeat_ms = 2 * (*timeout as u64) / 3;
                },
                _ => {},
            }
            self.first = false;
            self.reply.remove(&0i32);
            Ok(Dispatch::Reply { xid: 0, result: Ok(resp) })
        } else {
            let mut pos: usize = 0;
            let x = match read_be_i32(payload, &mut pos) {
                Ok(v) => v,
                Err(_) => {
                    return Err(FrameFault::Underrun);
                },
            };
            let z = match read_be_i64(payload, &mut pos) {
                Ok(v) => v,
                Err(_) => {
                    return Err(FrameFault::Underrun);
                },
            };
            let e = match read_be_i32(payload, &mut pos) {
                Ok(v) => v,
                Err(_) => {
                    return Err(FrameFault::Underrun);
                },
            };
            if z == -1 {
                if x != -1 {
                    return Err(FrameFault::MissingZxid);
                }
            } else if z < self.last_zxid_seen {
                return Err(FrameFault::ZxidRegressed);
            }
            if x == 0 {
                if e != 0 {
                    return Err(FrameFault::CloseFailed(zk_error_of(e)));
                }
                if z != -1 {
                    self.last_zxid_seen = z;
                }
                Ok(Dispatch::CloseAck)
            } else if x == -1 {
                let mut p: usize = 16;
                let event = match WatchedEvent::read_from(payload, &mut p) {
                    Ok(v) => v,
                    Err(_) => {
                        return Err(FrameFault::Underrun);
                    },
                };
                if z != -1 {
                    self.last_zxid_seen = z;
                }
                Ok(Dispatch::Watch { event })
            } else if x == -2 {
                if z != -1 {
                    self.last_zxid_seen = z;
                }
                Ok(Dispatch::PingReply)
            } else {
                let op = match self.reply.get(&x) {
                    Some(op) => *op,
                    None => {
                        return Err(FrameFault::UnknownXid(x));
                    },
                };
                if e != 0 {
                    self.reply.remove(&x);
                    if z != -1 {
                        self.last_zxid_seen = z;
                    }
                    Ok(Dispatch::Reply { xid: x, result: Err(zk_error_of(e)) })
                } else {
                    let body = tail_copy(payload, 16);
                    let resp = match Response::parse(op, body.as_slice()) {
                        Ok(v) => v,
                        Err(_) => {
                            return Err(FrameFault::Underrun);
                        },
                    };
                    self.reply.remove(&x);
                    if z != -1 {
                        self.last_zxid_seen = z;
                    }
                    Ok(Dispatch::Reply { xid: x, result: Ok(resp) })
                }
            }
        }
    }

    /// What end-of-stream means right now: normal termination only at a
    /// frame boundary (or after the server's all-zero closing frame) with
    /// no request outstanding; anything else is a protocol violation.
    pub fn eof_outcome(&self) -> (r: EofOutcome)
        requires
            self.wf(),
        ensures
            r == EofOutcome::Clean <==> ((self.in_pending() == Seq::<u8>::empty()
                || self.in_pending() == seq![0u8, 0u8, 0u8, 0u8]) && self.pending().len() == 0),
            r == EofOutcome::PartialFrame <==> !(self.in_pending() == Seq::<u8>::empty()
                || self.in_pending() == seq![0u8, 0u8, 0u8, 0u8]),
    {
        if !self.transport.at_clean_boundary() {
            EofOutcome::PartialFrame
        } else if self.reply.len() != 0 {
            EofOutcome::Outstanding
        } else {
            EofOutcome::Clean
        }
    }

    // -- the transport, delegated ------------------------------------------

    /// A copy of the bytes not yet accepted by the stream.
    pub fn unsent(&self) -> (v: Vec<u8>)
        requires
            self.wf(),
        ensures
            v@ == self.out_pending(),
    {
        self.transport.unsent()
    }

    pub fn outlen(&self) -> (n: usize)
        requires
            self.wf(),
        ensures
            n == self.out_pending().len(),
    {
        self.transport.outlen()
    }

    pub fn inlen(&self) -> (n: usize)
        requires
            self.wf(),
        ensures
            n == self.in_pending().len(),
    {
        self.transport.inlen()
    }

    /// The stream accepted `n` outbound bytes.
    pub fn wrote(&mut self, n: usize)
        requires
            old(self).wf(),
            n <= old(self).out_pending().len(),
        ensures
            final(self).wf(),
            final(self).out_pending() == old(self).out_pending().skip(n as int),
            final(self).in_pending() == old(self).in_pending(),
            Self::state_eq(old(self), final(self)),
    {
        self.transport.wrote(n);
    }

    /// The stream delivered bytes.
    pub fn feed(&mut self, bytes: &[u8])
        requires
            old(self).wf(),
        ensures
            final(self).wf(),
            final(self).in_pending() == old(self).in_pending() + bytes@,
            final(self).out_pending() == old(self).out_pending(),
            Self::state_eq(old(self), final(self)),
    {
        self.transport.feed(bytes);
    }

    /// The next complete inbound frame payload, if any.
    pub fn next_frame(&mut self) -> (r: Result<Option<Vec<u8>>, FrameFault>)
        requires
            old(self).wf(),
        ensures
            final(self).wf(),
            final(self).out_pending() == old(self).out_pending(),
            Self::state_eq(old(self), final(self)),
            match r {
                Ok(Some(p)) => crate::transport::spec_frame_split(old(self).in_pending()) == Some(
                    (p@, final(self).in_pending()),
                ),
                Ok(None) => {
                    &&& crate::transport::spec_frame_split(old(self).in_pending()) is None
                    &&& !crate::transport::spec_frame_malformed(old(self).in_pending())
                    &&& final(self).in_pending() == old(self).in_pending()
                },
                Err(f) => {
                    &&& f == FrameFault::Underrun
                    &&& crate::transport::spec_frame_malformed(old(self).in_pending())
                    &&& final(self).in_pending() == old(self).in_pending()
                },
            },
    {
        match self.transport.next_frame() {
            Ok(p) => Ok(p),
            Err(_) => Err(FrameFault::Underrun),
        }
    }

    // -- session state, read out -------------------------------------------

    pub fn session_id(&self) -> (v: i64)
        ensures
            v == self.spec_session_id(),
    {
        self.session_id
    }

    pub fn last_zxid(&self) -> (v: i64)
        ensures
            v == self.spec_last_zxid(),
    {
        self.last_zxid_seen
    }

    pub fn timeout_ms(&self) -> (v: i32)
        ensures
            v == self.spec_timeout(),
    {
        self.timeout_ms
    }

    /// The heartbeat interval in milliseconds: two-thirds of the negotiated
    /// session timeout once a handshake reply armed it.
    pub fn heartbeat_ms(&self) -> (v: u64)
        ensures
            v == self.spec_heartbeat(),
    {
        self.heartbeat_ms
    }

    pub fn password_cloned(&self) -> (v: Vec<u8>)
        requires
            self.wf(),
        ensures
            v@ == self.spec_password(),
            v@.len() <= i32::MAX,
    {
        slice_to_vec(self.password.as_slice())
    }

    pub fn pending_len(&self) -> (n: usize)
        ensures
            n == self.pending().len(),
    {
        self.reply.len()
    }

    pub fn pending_contains(&self, xid: i32) -> (b: bool)
        ensures
            b == self.pending().contains_key(xid),
    {
        self.reply.contains_key(&xid)
    }
}

} // verus!
