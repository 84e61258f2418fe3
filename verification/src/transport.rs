//! The frame transport: adapts a byte stream that delivers partial reads and
//! accepts partial writes into discrete length-prefixed frames.
//!
//! Outbound, bytes accumulate in one buffer with a sent-cursor; a flush step
//! writes what the stream accepts and compacts once fully drained. Inbound,
//! bytes accumulate with a consumed-cursor; a frame is a 4-byte signed length
//! followed by exactly that many payload bytes.

use vstd::prelude::*;

verus! {

use crate::wire::{
    DecodeError, push_buffer, spec_buffer, spec_read_i32, lemma_read_i32_at,
    lemma_i32_be_round_trip, spec_be_i32,
};

// ---------------------------------------------------------------------------
// Specification: how a byte stream splits into frames.
// ---------------------------------------------------------------------------

/// Splits the first complete frame off a byte sequence: its payload and the
/// rest. Nothing when fewer than four bytes arrived, when the advertised
/// length is negative, or when the payload is still short.
pub open spec fn spec_frame_split(s: Seq<u8>) -> Option<(Seq<u8>, Seq<u8>)> {
    match spec_read_i32(s, 0) {
        None => None,
        Some((l, _)) => {
            if l < 0 {
                None
            } else if 4 + l <= s.len() {
                Some((s.subrange(4, 4 + l), s.skip(4 + l)))
            } else {
                None
            }
        },
    }
}

/// A negative advertised length: the stream is corrupt, no frame can follow.
pub open spec fn spec_frame_malformed(s: Seq<u8>) -> bool {
    match spec_read_i32(s, 0) {
        Some((l, _)) => l < 0,
        None => false,
    }
}

/// All complete frame payloads at the front of a byte sequence, in order.
pub open spec fn spec_frames_of(s: Seq<u8>) -> Seq<Seq<u8>>
    decreases s.len(),
{
    match spec_frame_split(s) {
        Some((p, rest)) => seq![p] + spec_frames_of(rest),
        None => Seq::<Seq<u8>>::empty(),
    }
}

/// The byte image of a sequence of frame payloads, each length-prefixed.
pub open spec fn spec_encode_frames(ps: Seq<Seq<u8>>) -> Seq<u8>
    decreases ps.len(),
{
    if ps.len() == 0 {
        Seq::<u8>::empty()
    } else {
        spec_buffer(ps[0]) + spec_encode_frames(ps.drop_first())
    }
}

/// Splitting a frame image off the front of any continuation recovers the
/// payload and the continuation, whatever follows.
pub proof fn lemma_frame_split_prefix(p: Seq<u8>, rest: Seq<u8>)
    requires
        p.len() <= i32::MAX,
    ensures
        spec_frame_split(spec_buffer(p) + rest) == Some((p, rest)),
{
    let s = spec_buffer(p) + rest;
    let l = p.len() as i32;
    lemma_i32_be_round_trip(l);
    assert(s.subrange(0, 4) =~= spec_be_i32(l));
    lemma_read_i32_at(s, 0, l);
    assert(s.subrange(4, 4 + l as int) =~= p);
    assert(s.skip(4 + l as int) =~= rest);
}

/// Round-trip framing: however the stream chunks the bytes, the encoded
/// frame payloads come back with identical boundaries, in order.
pub proof fn lemma_frames_round_trip(ps: Seq<Seq<u8>>)
    requires
        forall|i: int| 0 <= i < ps.len() ==> #[trigger] ps[i].len() <= i32::MAX,
    ensures
        spec_frames_of(spec_encode_frames(ps)) == ps,
    decreases ps.len(),
{
    if ps.len() == 0 {
        assert(spec_encode_frames(ps) =~= Seq::<u8>::empty());
        assert(spec_read_i32(Seq::<u8>::empty(), 0) is None);
        assert(spec_frames_of(spec_encode_frames(ps)) =~= ps);
    } else {
        let rest = ps.drop_first();
        lemma_frame_split_prefix(ps[0], spec_encode_frames(rest));
        lemma_frames_round_trip(rest);
        assert(spec_frames_of(spec_encode_frames(ps)) =~= seq![ps[0]] + rest);
        assert(seq![ps[0]] + rest =~= ps);
    }
}

// ---------------------------------------------------------------------------
// The transport itself.
// ---------------------------------------------------------------------------

/// One end of a byte stream, framed. Holds what has not been sent yet and
/// what has not been consumed yet; the stream I/O itself stays with the
/// caller, which hands bytes in and out.
pub struct FrameTransport {
    outbox: Vec<u8>,
    outstart: usize,
    inbox: Vec<u8>,
    instart: usize,
}

impl FrameTransport {
    pub closed spec fn wf(&self) -> bool {
        &&& self.outstart <= self.outbox@.len()
        &&& self.instart <= self.inbox@.len()
    }

    /// Bytes queued outbound and not yet accepted by the stream.
    pub closed spec fn out_pending(&self) -> Seq<u8> {
        self.outbox@.skip(self.outstart as int)
    }

    /// Bytes received and not yet consumed as frames.
    pub closed spec fn in_pending(&self) -> Seq<u8> {
        self.inbox@.skip(self.instart as int)
    }

    pub fn new() -> (t: Self)
        ensures
            t.wf(),
            t.out_pending() == Seq::<u8>::empty(),
            t.in_pending() == Seq::<u8>::empty(),
    {
        let t = FrameTransport { outbox: Vec::new(), outstart: 0, inbox: Vec::new(), instart: 0 };
        proof {
            assert(t.out_pending() =~= Seq::<u8>::empty());
            assert(t.in_pending() =~= Seq::<u8>::empty());
        }
        t
    }

    pub fn outlen(&self) -> (n: usize)
        requires
            self.wf(),
        ensures
            n == self.out_pending().len(),
    {
        self.outbox.len() - self.outstart
    }

    pub fn inlen(&self) -> (n: usize)
        requires
            self.wf(),
        ensures
            n == self.in_pending().len(),
    {
        self.inbox.len() - self.instart
    }

    /// Queues one frame outbound: the payload's signed 32-bit length, then
    /// the payload.
    pub fn append_frame(&mut self, payload: &[u8])
        requires
            old(self).wf(),
            payload@.len() <= i32::MAX,
        ensures
            final(self).wf(),
            final(self).out_pending() == old(self).out_pending() + spec_buffer(payload@),
            final(self).in_pending() == old(self).in_pending(),
    {
        push_buffer(&mut self.outbox, payload);
        proof {
            assert(self.out_pending() =~= old(self).out_pending() + spec_buffer(payload@));
        }
    }

    /// A copy of the unsent bytes, for the caller to offer to the stream.
    pub fn unsent(&self) -> (v: Vec<u8>)
        requires
            self.wf(),
        ensures
            v@ == self.out_pending(),
    {
        let mut v: Vec<u8> = Vec::new();
        let mut i: usize = self.outstart;
        while i < self.outbox.len()
            invariant
                self.outstart <= i <= self.outbox@.len(),
                v@ == self.outbox@.subrange(self.outstart as int, i as int),
            decreases self.outbox@.len() - i,
        {
            v.push(self.outbox[i]);
            i = i + 1;
            assert(v@ =~= self.outbox@.subrange(self.outstart as int, i as int));
        }
        proof {
            assert(v@ =~= self.out_pending());
        }
        v
    }

    /// Records that the stream accepted `n` bytes: the sent-cursor advances,
    /// and the buffer compacts to empty once fully drained.
    pub fn wrote(&mut self, n: usize)
        requires
            old(self).wf(),
            n <= old(self).out_pending().len(),
        ensures
            final(self).wf(),
            final(self).out_pending() == old(self).out_pending().skip(n as int),
            final(self).in_pending() == old(self).in_pending(),
    {
        let total = self.outbox.len();
        proof {
            assert(self.outstart + n <= total);
        }
        self.outstart = self.outstart + n;
        if self.outstart == self.outbox.len() {
            self.outbox.clear();
            self.outstart = 0;
        }
        proof {
            assert(self.out_pending() =~= old(self).out_pending().skip(n as int));
        }
    }

    /// Takes bytes the stream delivered into the inbound buffer.
    pub fn feed(&mut self, bytes: &[u8])
        requires
            old(self).wf(),
        ensures
            final(self).wf(),
            final(self).in_pending() == old(self).in_pending() + bytes@,
            final(self).out_pending() == old(self).out_pending(),
    {
        let mut i: usize = 0;
        while i < bytes.len()
            invariant
                i <= bytes@.len(),
                self.wf(),
                self.instart == old(self).instart,
                self.outbox == old(self).outbox,
                self.outstart == old(self).outstart,
                self.inbox@ == old(self).inbox@ + bytes@.subrange(0, i as int),
            decreases bytes@.len() - i,
        {
            self.inbox.push(bytes[i]);
            i = i + 1;
            assert(self.inbox@ =~= old(self).inbox@ + bytes@.subrange(0, i as int));
        }
        proof {
            assert(bytes@.subrange(0, bytes@.len() as int) =~= bytes@);
            assert(self.in_pending() =~= old(self).in_pending() + bytes@);
        }
    }

    /// Yields the next complete inbound frame's payload, if one has fully
    /// arrived; reports a corrupt stream on a negative advertised length.
    /// The consumed-cursor advances past the frame, and the buffer compacts
    /// to empty once fully consumed.
    pub fn next_frame(&mut self) -> (r: Result<Option<Vec<u8>>, DecodeError>)
        requires
            old(self).wf(),
        ensures
            final(self).wf(),
            final(self).out_pending() == old(self).out_pending(),
            match r {
                Ok(Some(p)) => {
                    &&& spec_frame_split(old(self).in_pending()) == Some(
                        (p@, final(self).in_pending()),
                    )
                    &&& p@.len() <= i32::MAX
                },
                Ok(None) => {
                    &&& spec_frame_split(old(self).in_pending()) is None
                    &&& !spec_frame_malformed(old(self).in_pending())
                    &&& final(self).in_pending() == old(self).in_pending()
                },
                Err(_) => {
                    &&& spec_frame_malformed(old(self).in_pending())
                    &&& final(self).in_pending() == old(self).in_pending()
                },
            },
    {
        let have = self.inbox.len() - self.instart;
        if have < 4 {
            proof {
                assert(spec_read_i32(self.in_pending(), 0) is None);
            }
            return Ok(None);
        }
        let b0 = self.inbox[self.instart];
        let b1 = self.inbox[self.instart + 1];
        let b2 = self.inbox[self.instart + 2];
        let b3 = self.inbox[self.instart + 3];
        let u: u32 = ((b0 as u32) << 24) | ((b1 as u32) << 16) | ((b2 as u32) << 8) | (b3 as u32);
        let l: i32 = #[verifier::truncate] (u as i32);
        proof {
            let s = self.in_pending();
            assert(s.subrange(0, 4)[0] == b0 && s.subrange(0, 4)[1] == b1 && s.subrange(0, 4)[2]
                == b2 && s.subrange(0, 4)[3] == b3);
        }
        if l < 0 {
            return Err(DecodeError);
        }
        let len = l as usize;
        if have - 4 < len {
            return Ok(None);
        }
        let mut p: Vec<u8> = Vec::new();
        let start = self.instart + 4;
        let total = self.inbox.len();
        proof {
            assert(start + len <= total);
        }
        let mut i: usize = 0;
        while i < len
            invariant
                i <= len,
                start + len <= total,
                total == self.inbox@.len(),
                p@ == self.inbox@.subrange(start as int, start as int + i as int),
            decreases len - i,
        {
            p.push(self.inbox[start + i]);
            i = i + 1;
            assert(p@ =~= self.inbox@.subrange(start as int, start as int + i as int));
        }
        self.instart = start + len;
        if self.instart == self.inbox.len() {
            self.inbox.clear();
            self.instart = 0;
        }
        proof {
            let s = old(self).in_pending();
            assert(p@ =~= s.subrange(4, 4 + l as int));
            assert(self.in_pending() =~= s.skip(4 + l as int));
        }
        Ok(Some(p))
    }

    /// Whether the stream may close cleanly here: nothing unconsumed, or
    /// exactly the server's all-zero closing frame. End-of-stream anywhere
    /// else leaves a partial frame behind and is fatal.
    pub fn at_clean_boundary(&self) -> (r: bool)
        requires
            self.wf(),
        ensures
            r == (self.in_pending() == Seq::<u8>::empty() || self.in_pending() == seq![
                0u8,
                0u8,
                0u8,
                0u8,
            ]),
    {
        let have = self.inbox.len() - self.instart;
        if have == 0 {
            proof {
                assert(self.in_pending() =~= Seq::<u8>::empty());
            }
            true
        } else if have == 4 {
            let ok = self.inbox[self.instart] == 0 && self.inbox[self.instart + 1] == 0
                && self.inbox[self.instart + 2] == 0 && self.inbox[self.instart + 3] == 0;
            proof {
                if ok {
                    assert(self.in_pending() =~= seq![0u8, 0u8, 0u8, 0u8]);
                } else {
                    assert(self.in_pending() != seq![0u8, 0u8, 0u8, 0u8]);
                    assert(self.in_pending().len() == 4);
                }
            }
            ok
        } else {
            proof {
                assert(self.in_pending().len() == have);
            }
            false
        }
    }
}

} // verus!
