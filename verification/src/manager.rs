//! The connection manager: supervises the active connection's lifecycle,
//! owns the transaction-id counter, accepts or queues submissions, and
//! carries the session identity across reconnects.
//!
//! The lifecycle is an explicit tagged state: connected, or reconnecting.
//! Each state's behavior is total; the transition functions here are the
//! only mutators of which state is active.

use vstd::prelude::*;

verus! {

use crate::codec::{OpCode, Request};
use crate::conn::{ActivePacketizer, SubmitError, spec_close_frame, spec_request_frame};
use crate::wire::{spec_be_i32, spec_be_i64, spec_buffer};
use vstd::pervasive::unreached;

/// How a submission was taken: sent at once under an assigned xid, or held
/// back until the connection is restored.
#[derive(Clone, Copy, Debug, PartialEq, Eq, Structural)]
pub enum Submitted {
    Sent(i32),
    Queued,
}

enum PacketizerState {
    Connected(ActivePacketizer),
    Reconnecting { queued: Vec<Request> },
}

/// The supervisor around one logical session: a connected generation, or a
/// reconnect in progress with submissions queued for the next generation.
pub struct Packetizer {
    state: PacketizerState,
    /// Next transaction id to assign.
    xid: i32,
    /// The caller side closed; nothing more is accepted.
    exiting: bool,
    /// Session identity remembered from the last generation, presented
    /// verbatim on resumption.
    mem_last_zxid: i64,
    mem_session_id: i64,
    mem_password: Vec<u8>,
    mem_timeout: i32,
}

impl Packetizer {
    pub closed spec fn is_connected(&self) -> bool {
        self.state is Connected
    }

    pub closed spec fn is_reconnecting(&self) -> bool {
        self.state is Reconnecting
    }

    /// The live connection generation, when connected.
    pub closed spec fn active(&self) -> ActivePacketizer
        recommends
            self.is_connected(),
    {
        match self.state {
            PacketizerState::Connected(ap) => ap,
            PacketizerState::Reconnecting { .. } => arbitrary(),
        }
    }

    /// Submissions held back while reconnecting, oldest first.
    pub closed spec fn queued(&self) -> Seq<Request>
        recommends
            self.is_reconnecting(),
    {
        match self.state {
            PacketizerState::Connected(_) => arbitrary(),
            PacketizerState::Reconnecting { queued } => queued@,
        }
    }

    pub closed spec fn spec_xid(&self) -> i32 {
        self.xid
    }

    pub closed spec fn spec_exiting(&self) -> bool {
        self.exiting
    }

    pub closed spec fn spec_mem_last_zxid(&self) -> i64 {
        self.mem_last_zxid
    }

    pub closed spec fn spec_mem_session_id(&self) -> i64 {
        self.mem_session_id
    }

    pub closed spec fn spec_mem_password(&self) -> Seq<u8> {
        self.mem_password@
    }

    pub closed spec fn spec_mem_timeout(&self) -> i32 {
        self.mem_timeout
    }

    /// The body of the stored-session handshake a resumption sends: the
    /// connect request built from the remembered identity, byte for byte.
    pub open spec fn spec_resume_handshake(&self) -> Seq<u8> {
        spec_be_i32(0i32) + spec_be_i64(self.spec_mem_last_zxid()) + spec_be_i32(
            self.spec_mem_timeout(),
        ) + spec_be_i64(self.spec_mem_session_id()) + spec_buffer(self.spec_mem_password())
            + seq![0u8]
    }

    /// Every outstanding xid was assigned before the counter: the source of
    /// xid uniqueness. Queued submissions stay well-formed for the replay.
    pub open spec fn wf(&self) -> bool {
        &&& self.spec_xid() >= 0
        &&& self.is_connected() ==> {
            &&& self.active().wf()
            &&& forall|x: i32|
                self.active().pending().contains_key(x) ==> 0 <= x < self.spec_xid()
        }
        &&& self.is_reconnecting() ==> forall|i: int|
            0 <= i < self.queued().len() ==> (#[trigger] self.queued()[i]).wf()
        &&& self.spec_mem_password().len() <= i32::MAX
    }

    /// A fresh supervisor over a fresh first generation: the next request
    /// submitted takes the reserved handshake xid 0.
    pub fn new() -> (p: Self)
        ensures
            p.wf(),
            p.is_connected(),
            p.active().pending() == Map::<i32, OpCode>::empty(),
            p.active().spec_first() == true,
            p.active().out_pending() == Seq::<u8>::empty(),
            p.active().in_pending() == Seq::<u8>::empty(),
            p.spec_xid() == 0,
            !p.spec_exiting(),
    {
        Packetizer {
            state: PacketizerState::Connected(ActivePacketizer::new()),
            xid: 0,
            exiting: false,
            mem_last_zxid: 0,
            mem_session_id: 0,
            mem_password: Vec::new(),
            mem_timeout: 0,
        }
    }

    /// Takes one request. Connected: the next xid is assigned, strictly
    /// increasing, never reused, and the request is framed outbound and
    /// recorded in the pending table — refused exactly when the counter is
    /// spent or the frame would not fit a signed 32-bit length.
    /// Reconnecting: the request is queued, in order, for the next
    /// generation. After the caller side closed, nothing is accepted.
    pub fn submit(&mut self, item: Request) -> (r: Result<Submitted, SubmitError>)
        requires
            old(self).wf(),
            item.wf(),
        ensures
            final(self).wf(),
            final(self).spec_exiting() == old(self).spec_exiting(),
            final(self).spec_mem_last_zxid() == old(self).spec_mem_last_zxid(),
            final(self).spec_mem_session_id() == old(self).spec_mem_session_id(),
            final(self).spec_mem_password() == old(self).spec_mem_password(),
            final(self).spec_mem_timeout() == old(self).spec_mem_timeout(),
            old(self).spec_exiting() ==> r == Err::<Submitted, SubmitError>(SubmitError::Closed)
                && *final(self) == *old(self),
            !old(self).spec_exiting() && old(self).is_connected() ==> {
                &&& final(self).is_connected()
                &&& match r {
                    Ok(s) => {
                        &&& s == Submitted::Sent(old(self).spec_xid())
                        &&& old(self).spec_xid() < i32::MAX
                        &&& !old(self).active().pending().contains_key(old(self).spec_xid())
                        &&& final(self).spec_xid() == old(self).spec_xid() + 1
                        &&& final(self).active().pending() == old(self).active().pending().insert(
                            old(self).spec_xid(),
                            item.spec_opcode(),
                        )
                        &&& final(self).active().out_pending() == old(self).active().out_pending()
                            + spec_buffer(spec_request_frame(old(self).spec_xid(), &item))
                        &&& final(self).active().in_pending() == old(self).active().in_pending()
                        &&& final(self).active().spec_first() == old(self).active().spec_first()
                        &&& final(self).active().spec_last_zxid() == old(
                            self,
                        ).active().spec_last_zxid()
                        &&& ActivePacketizer::session_eq(&old(self).active(), &final(self).active())
                    },
                    Err(e) => {
                        // refusal is owed, never chosen: the counter is
                        // spent, or the frame cannot carry its length
                        &&& (if old(self).spec_xid() == i32::MAX {
                            e == SubmitError::Exhausted
                        } else {
                            &&& e == SubmitError::TooBig
                            &&& spec_request_frame(old(self).spec_xid(), &item).len() > i32::MAX
                        })
                        &&& final(self).spec_xid() == old(self).spec_xid()
                        &&& final(self).active().pending() == old(self).active().pending()
                        &&& final(self).active().out_pending() == old(self).active().out_pending()
                        &&& final(self).active().in_pending() == old(self).active().in_pending()
                        &&& final(self).active().spec_first() == old(self).active().spec_first()
                        &&& final(self).active().spec_last_zxid() == old(
                            self,
                        ).active().spec_last_zxid()
                        &&& ActivePacketizer::session_eq(&old(self).active(), &final(self).active())
                    },
                }
            },
            !old(self).spec_exiting() && old(self).is_reconnecting() ==> {
                &&& final(self).is_reconnecting()
                &&& r == Ok::<Submitted, SubmitError>(Submitted::Queued)
                &&& final(self).queued() == old(self).queued().push(item)
                &&& final(self).spec_xid() == old(self).spec_xid()
            },
    {
        if self.exiting {
            return Err(SubmitError::Closed);
        }
        let r = match &mut self.state {
            PacketizerState::Connected(ap) => {
                if self.xid == i32::MAX {
                    return Err(SubmitError::Exhausted);
                }
                let x = self.xid;
                match ap.enqueue(x, &item) {
                    Ok(()) => {
                        self.xid = self.xid + 1;
                        Ok(Submitted::Sent(x))
                    },
                    Err(e) => Err(e),
                }
            },
            PacketizerState::Reconnecting { queued } => {
                queued.push(item);
                Ok(Submitted::Queued)
            },
        };
        proof {
            if self.is_reconnecting() {
                assert(self.queued() == old(self).queued().push(item));
                assert forall|i: int| 0 <= i < self.queued().len() implies (
                #[trigger] self.queued()[i]).wf() by {
                    if i < old(self).queued().len() {
                        assert(self.queued()[i] == old(self).queued()[i]);
                    } else {
                        assert(self.queued()[i] == item);
                    }
                }
            }
        }
        r
    }

    /// The caller-side channel closed: stop accepting, queue the one
    /// close-session frame, and keep driving until end-of-stream.
    pub fn on_channel_closed(&mut self)
        requires
            old(self).wf(),
            old(self).is_connected(),
            !old(self).spec_exiting(),
        ensures
            final(self).wf(),
            final(self).spec_exiting(),
            final(self).is_connected(),
            final(self).spec_xid() == old(self).spec_xid(),
            final(self).active().out_pending() == old(self).active().out_pending()
                + spec_close_frame(),
            final(self).active().in_pending() == old(self).active().in_pending(),
            final(self).active().pending() == old(self).active().pending(),
            final(self).active().spec_first() == old(self).active().spec_first(),
            ActivePacketizer::session_eq(&old(self).active(), &final(self).active()),
    {
        self.exiting = true;
        match &mut self.state {
            PacketizerState::Connected(ap) => {
                ap.send_close();
            },
            PacketizerState::Reconnecting { .. } => unreached(),
        }
    }

    /// A transport or protocol fault killed the active generation: remember
    /// the session identity it had reached and move to reconnecting. The
    /// caller fails every waiting request; the queue starts empty.
    pub fn start_reconnect(&mut self)
        requires
            old(self).wf(),
            old(self).is_connected(),
        ensures
            final(self).wf(),
            final(self).is_reconnecting(),
            final(self).queued() == Seq::<Request>::empty(),
            final(self).spec_xid() == old(self).spec_xid(),
            final(self).spec_exiting() == old(self).spec_exiting(),
            final(self).spec_mem_last_zxid() == old(self).active().spec_last_zxid(),
            final(self).spec_mem_session_id() == old(self).active().spec_session_id(),
            final(self).spec_mem_password() == old(self).active().spec_password(),
            final(self).spec_mem_timeout() == old(self).active().spec_timeout(),
    {
        match &self.state {
            PacketizerState::Connected(ap) => {
                self.mem_last_zxid = ap.last_zxid();
                self.mem_session_id = ap.session_id();
                self.mem_password = ap.password_cloned();
                self.mem_timeout = ap.timeout_ms();
            },
            PacketizerState::Reconnecting { .. } => unreached(),
        }
        self.state = PacketizerState::Reconnecting { queued: Vec::new() };
        proof {
            assert(self.queued() =~= Seq::<Request>::empty());
        }
    }

    /// The handshake that resumes the prior session: it presents the stored
    /// session id, password, and last-seen state id verbatim, so the server
    /// treats the new connection as a continuation.
    pub fn reconnect_request(&self) -> (req: Request)
        requires
            self.wf(),
        ensures
            req matches Request::Connect {
                protocol_version,
                last_zxid_seen,
                timeout,
                session_id,
                passwd,
                read_only,
            } && {
                &&& protocol_version == 0
                &&& last_zxid_seen == self.spec_mem_last_zxid()
                &&& timeout == self.spec_mem_timeout()
                &&& session_id == self.spec_mem_session_id()
                &&& passwd@ == self.spec_mem_password()
                &&& read_only == false
            },
            req.wf(),
    {
        Request::Connect {
            protocol_version: 0,
            last_zxid_seen: self.mem_last_zxid,
            timeout: self.mem_timeout,
            session_id: self.mem_session_id,
            passwd: vstd::slice::slice_to_vec(self.mem_password.as_slice()),
            read_only: false,
        }
    }

    /// A new transport is up: install the resumed generation seeded with
    /// the remembered session identity, send the stored-session handshake
    /// under the reserved xid 0 — its length-prefixed frame leads the
    /// outbound bytes — and replay every queued request in original
    /// submission order under fresh, strictly increasing xids. Refused,
    /// without effect, exactly when the handshake itself cannot carry its
    /// length; a queued request that cannot be framed is reported in its
    /// slot and the replay goes on.
    pub fn resume(&mut self) -> (r: Result<Vec<Result<i32, SubmitError>>, SubmitError>)
        requires
            old(self).wf(),
            old(self).is_reconnecting(),
            !old(self).spec_exiting(),
        ensures
            final(self).wf(),
            final(self).spec_exiting() == old(self).spec_exiting(),
            match r {
                Ok(results) => {
                    &&& final(self).is_connected()
                    &&& final(self).active().spec_first() == true
                    // the resumed generation carries the stored identity
                    &&& final(self).active().spec_last_zxid() == old(self).spec_mem_last_zxid()
                    &&& final(self).active().spec_session_id() == old(self).spec_mem_session_id()
                    &&& final(self).active().spec_password() == old(self).spec_mem_password()
                    &&& final(self).active().spec_timeout() == old(self).spec_mem_timeout()
                    // and opens with the stored-session handshake: its frame
                    // leads the outbound bytes, awaited under xid 0
                    &&& final(self).active().pending().contains_key(0i32)
                    &&& final(self).active().pending()[0i32] == OpCode::CreateSession
                    &&& old(self).spec_resume_handshake().len() <= i32::MAX
                    &&& final(self).active().out_pending().len() >= spec_buffer(
                        old(self).spec_resume_handshake(),
                    ).len()
                    &&& final(self).active().out_pending().subrange(
                        0,
                        spec_buffer(old(self).spec_resume_handshake()).len() as int,
                    ) == spec_buffer(old(self).spec_resume_handshake())
                    &&& results@.len() == old(self).queued().len()
                    // replayed in order: assigned xids strictly increase
                    &&& forall|i: int, j: int|
                        0 <= i < j < results@.len() && results@[i] is Ok && results@[j] is Ok
                            ==> results@[i]->Ok_0 < results@[j]->Ok_0
                    // nothing is lost: each replayed request is outstanding
                    // under its reported xid, with its own operation kind
                    &&& forall|i: int|
                        0 <= i < results@.len() && results@[i] is Ok ==> {
                            &&& final(self).active().pending().contains_key(
                                #[trigger] results@[i]->Ok_0,
                            )
                            &&& final(self).active().pending()[results@[i]->Ok_0] == old(
                                self,
                            ).queued()[i].spec_opcode()
                        }
                    &&& forall|i: int|
                        0 <= i < results@.len() && results@[i] is Err ==> (results@[i]->Err_0
                            == SubmitError::TooBig || results@[i]->Err_0 == SubmitError::Exhausted)
                    &&& final(self).spec_xid() >= old(self).spec_xid()
                },
                Err(e) => {
                    // refusal is owed, never chosen: only a handshake too
                    // large for its length prefix is turned away
                    &&& e == SubmitError::TooBig
                    &&& old(self).spec_resume_handshake().len() > i32::MAX
                    &&& *final(self) == *old(self)
                },
            },
    {
        let handshake = self.reconnect_request();
        proof {
            assert(handshake.spec_encode() =~= old(self).spec_resume_handshake());
        }
        let mut ap = ActivePacketizer::new_resuming(
            self.mem_last_zxid,
            self.mem_session_id,
            self.password_mem_cloned(),
            self.mem_timeout,
        );
        match ap.enqueue(0, &handshake) {
            Ok(()) => {},
            Err(_) => {
                return Err(SubmitError::TooBig);
            },
        }
        let ghost hsf = spec_buffer(old(self).spec_resume_handshake());
        proof {
            assert(ap.out_pending() =~= hsf);
        }
        let mut taken = PacketizerState::Connected(ap);
        core::mem::swap(&mut self.state, &mut taken);
        if self.xid == 0 {
            // the reserved handshake id is spent in this generation
            self.xid = 1;
        }
        let mut queued = match taken {
            PacketizerState::Reconnecting { queued } => queued,
            PacketizerState::Connected(_) => unreached(),
        };
        let ghost all = old(self).queued();
        let mut results: Vec<Result<i32, SubmitError>> = Vec::new();
        proof {
            assert(self.active().out_pending().subrange(0, hsf.len() as int) =~= hsf);
        }
        while queued.len() > 0
            invariant
                results@.len() + queued@.len() == all.len(),
                queued@ == all.skip(results@.len() as int),
                forall|i: int| 0 <= i < all.len() ==> (#[trigger] all[i]).wf(),
                self.wf(),
                self.is_connected(),
                self.active().spec_first() == true,
                self.active().pending().contains_key(0i32),
                self.active().pending()[0i32] == OpCode::CreateSession,
                self.active().spec_last_zxid() == old(self).spec_mem_last_zxid(),
                self.active().spec_session_id() == old(self).spec_mem_session_id(),
                self.active().spec_password() == old(self).spec_mem_password(),
                self.active().spec_timeout() == old(self).spec_mem_timeout(),
                hsf == spec_buffer(old(self).spec_resume_handshake()),
                hsf.len() <= self.active().out_pending().len(),
                self.active().out_pending().subrange(0, hsf.len() as int) == hsf,
                self.spec_exiting() == old(self).spec_exiting(),
                !self.spec_exiting(),
                self.spec_xid() >= 1,
                self.spec_xid() >= old(self).spec_xid(),
                forall|i: int| #![trigger results@[i]]
                    0 <= i < results@.len() && results@[i] is Ok ==> {
                        &&& 0 <= results@[i]->Ok_0 < self.spec_xid()
                        &&& self.active().pending().contains_key(results@[i]->Ok_0)
                        &&& self.active().pending()[results@[i]->Ok_0] == all[i].spec_opcode()
                    },
                forall|i: int, j: int|
                    0 <= i < j < results@.len() && results@[i] is Ok && results@[j] is Ok
                        ==> results@[i]->Ok_0 < results@[j]->Ok_0,
                forall|i: int| #![trigger results@[i]]
                    0 <= i < results@.len() && results@[i] is Err ==> (results@[i]->Err_0
                        == SubmitError::TooBig || results@[i]->Err_0 == SubmitError::Exhausted),
            decreases queued@.len(),
        {
            let ghost k = results@.len() as int;
            let item = queued.remove(0);
            proof {
                assert(item == all[k]);
                assert(queued@ =~= all.skip(k + 1));
            }
            let ghost prev = results@;
            let ghost xid_pre = self.spec_xid();
            let outcome = match self.submit(item) {
                Ok(Submitted::Sent(x)) => Ok(x),
                Ok(Submitted::Queued) => Err(SubmitError::TooBig),
                Err(e) => Err(e),
            };
            results.push(outcome);
            proof {
                assert(results@ == prev.push(outcome));
                assert(self.active().out_pending().subrange(0, hsf.len() as int) =~= hsf);
                assert forall|i: int, j: int|
                    0 <= i < j < results@.len() && results@[i] is Ok && results@[j] is Ok
                        implies results@[i]->Ok_0 < results@[j]->Ok_0 by {
                    assert(results@[i] == prev[i]);
                    if j < prev.len() {
                        assert(results@[j] == prev[j]);
                    } else {
                        assert(results@[j] == outcome);
                        assert(prev[i]->Ok_0 < xid_pre);
                    }
                }
            }
        }
        proof {
            assert(results@.len() == all.len());
        }
        Ok(results)
    }

    fn password_mem_cloned(&self) -> (v: Vec<u8>)
        ensures
            v@ == self.spec_mem_password(),
    {
        vstd::slice::slice_to_vec(self.mem_password.as_slice())
    }

    // -- read-outs and delegation ------------------------------------------

    pub fn connected(&self) -> (b: bool)
        ensures
            b == self.is_connected(),
    {
        match &self.state {
            PacketizerState::Connected(_) => true,
            PacketizerState::Reconnecting { .. } => false,
        }
    }

    pub fn exiting(&self) -> (b: bool)
        ensures
            b == self.spec_exiting(),
    {
        self.exiting
    }

    /// The live generation, for the drive loop to feed and drain. The
    /// caller leaves the pending table with no key at or above the counter,
    /// which every operation of the active connection does.
    pub fn active_mut(&mut self) -> (ap: &mut ActivePacketizer)
        requires
            old(self).wf(),
            old(self).is_connected(),
        ensures
            *ap == old(self).active(),
            final(self).is_connected(),
            final(self).active() == *final(ap),
            final(self).spec_xid() == old(self).spec_xid(),
            final(self).spec_exiting() == old(self).spec_exiting(),
            final(self).spec_mem_last_zxid() == old(self).spec_mem_last_zxid(),
            final(self).spec_mem_session_id() == old(self).spec_mem_session_id(),
            final(self).spec_mem_password() == old(self).spec_mem_password(),
            final(self).spec_mem_timeout() == old(self).spec_mem_timeout(),
    {
        match &mut self.state {
            PacketizerState::Connected(ap) => ap,
            PacketizerState::Reconnecting { .. } => unreached(),
        }
    }
}

/// Xid uniqueness, as an invariant: every transaction id still outstanding
/// was assigned before the counter, so the id the next submission takes is
/// distinct from — and greater than — every outstanding one.
pub proof fn lemma_xid_fresh(p: &Packetizer, x: i32)
    requires
        p.wf(),
        p.is_connected(),
        p.active().pending().contains_key(x),
    ensures
        x < p.spec_xid(),
        !p.active().pending().contains_key(p.spec_xid()),
{
}

} // verus!
