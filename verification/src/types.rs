//! The typed values that cross the caller surface: node metadata, ACLs,
//! creation modes, and the watch events the server pushes.

use vstd::prelude::*;

verus! {

use crate::wire::{
    DecodeError, ReadFrom, WriteTo, push_be_i32, push_be_i64, push_string, read_be_i32,
    read_be_i64, read_string, spec_be_i32, spec_be_i64, spec_read_i32, spec_read_i64,
    spec_read_string, spec_string, lemma_read_i32_at, lemma_read_i64_at,
    lemma_read_string_at, lemma_i32_be_round_trip, lemma_i64_be_round_trip,
};
use vstd::utf8::encode_utf8;
use vstd::string::StringExecFns;

// ---------------------------------------------------------------------------
// Stat: eleven fixed-width fields, decoded verbatim.
// ---------------------------------------------------------------------------

/// Node metadata as the server reports it: creation/modification transaction
/// ids and times, version counters, ephemeral owner, data length, child count,
/// and the transaction id of the last child change.
#[derive(Clone, Copy, Debug, PartialEq, Eq, Structural)]
pub struct Stat {
    pub czxid: i64,
    pub mzxid: i64,
    pub ctime: i64,
    pub mtime: i64,
    pub version: i32,
    pub cversion: i32,
    pub aversion: i32,
    pub ephemeral_owner: i64,
    pub data_length: i32,
    pub num_children: i32,
    pub pzxid: i64,
}

/// The 68-byte wire image of a Stat.
pub open spec fn spec_stat_wire(st: Stat) -> Seq<u8> {
    spec_be_i64(st.czxid) + spec_be_i64(st.mzxid) + spec_be_i64(st.ctime) + spec_be_i64(st.mtime)
        + spec_be_i32(st.version) + spec_be_i32(st.cversion) + spec_be_i32(st.aversion)
        + spec_be_i64(st.ephemeral_owner) + spec_be_i32(st.data_length) + spec_be_i32(
        st.num_children,
    ) + spec_be_i64(st.pzxid)
}

/// Appends the wire image of a Stat; the server side of the exchange, kept
/// for exercising the decoder against known bytes.
pub fn push_stat(out: &mut Vec<u8>, st: &Stat)
    ensures
        final(out)@ == old(out)@ + spec_stat_wire(*st),
{
    push_be_i64(out, st.czxid);
    push_be_i64(out, st.mzxid);
    push_be_i64(out, st.ctime);
    push_be_i64(out, st.mtime);
    push_be_i32(out, st.version);
    push_be_i32(out, st.cversion);
    push_be_i32(out, st.aversion);
    push_be_i64(out, st.ephemeral_owner);
    push_be_i32(out, st.data_length);
    push_be_i32(out, st.num_children);
    push_be_i64(out, st.pzxid);
    assert(out@ =~= old(out)@ + spec_stat_wire(*st));
}

impl DeepView for Stat {
    type V = Stat;

    open spec fn deep_view(&self) -> Stat {
        *self
    }
}

impl ReadFrom for Stat {
    open spec fn spec_read(s: Seq<u8>, pos: int) -> Option<(Stat, int)> {
        match spec_read_i64(s, pos) {
            None => None,
            Some((czxid, p1)) => match spec_read_i64(s, p1) {
                None => None,
                Some((mzxid, p2)) => match spec_read_i64(s, p2) {
                    None => None,
                    Some((ctime, p3)) => match spec_read_i64(s, p3) {
                        None => None,
                        Some((mtime, p4)) => match spec_read_i32(s, p4) {
                            None => None,
                            Some((version, p5)) => match spec_read_i32(s, p5) {
                                None => None,
                                Some((cversion, p6)) => match spec_read_i32(s, p6) {
                                    None => None,
                                    Some((aversion, p7)) => match spec_read_i64(s, p7) {
                                        None => None,
                                        Some((ephemeral_owner, p8)) => match spec_read_i32(
                                            s,
                                            p8,
                                        ) {
                                            None => None,
                                            Some((data_length, p9)) => match spec_read_i32(
                                                s,
                                                p9,
                                            ) {
                                                None => None,
                                                Some((num_children, p10)) => match spec_read_i64(
                                                    s,
                                                    p10,
                                                ) {
                                                    None => None,
                                                    Some((pzxid, p11)) => Some(
                                                        (
                                                            Stat {
                                                                czxid,
                                                                mzxid,
                                                                ctime,
                                                                mtime,
                                                                version,
                                                                cversion,
                                                                aversion,
                                                                ephemeral_owner,
                                                                data_length,
                                                                num_children,
                                                                pzxid,
                                                            },
                                                            p11,
                                                        ),
                                                    ),
                                                },
                                            },
                                        },
                                    },
                                },
                            },
                        },
                    },
                },
            },
        }
    }

    fn read_from(buf: &[u8], pos: &mut usize) -> (r: Result<Stat, DecodeError>) {
        let mut p = *pos;
        let outcome = Self::read_fields(buf, &mut p);
        match outcome {
            Ok(st) => {
                *pos = p;
                Ok(st)
            },
            Err(e) => Err(e),
        }
    }
}

impl Stat {
    fn read_fields(buf: &[u8], pos: &mut usize) -> (r: Result<Stat, DecodeError>)
        ensures
            match r {
                Ok(v) => {
                    &&& Self::spec_read(buf@, *old(pos) as int) == Some((v, *final(pos) as int))
                    &&& *final(pos) >= *old(pos)
                },
                Err(_) => Self::spec_read(buf@, *old(pos) as int) is None,
            },
    {
        let czxid = read_be_i64(buf, pos)?;
        let mzxid = read_be_i64(buf, pos)?;
        let ctime = read_be_i64(buf, pos)?;
        let mtime = read_be_i64(buf, pos)?;
        let version = read_be_i32(buf, pos)?;
        let cversion = read_be_i32(buf, pos)?;
        let aversion = read_be_i32(buf, pos)?;
        let ephemeral_owner = read_be_i64(buf, pos)?;
        let data_length = read_be_i32(buf, pos)?;
        let num_children = read_be_i32(buf, pos)?;
        let pzxid = read_be_i64(buf, pos)?;
        Ok(
            Stat {
                czxid,
                mzxid,
                ctime,
                mtime,
                version,
                cversion,
                aversion,
                ephemeral_owner,
                data_length,
                num_children,
                pzxid,
            },
        )
    }
}

/// Reading where a Stat image was written yields the Stat written.
pub proof fn lemma_read_stat_at(s: Seq<u8>, pos: int, st: Stat)
    requires
        0 <= pos,
        pos + 68 <= s.len(),
        s.subrange(pos, pos + 68) == spec_stat_wire(st),
    ensures
        Stat::spec_read(s, pos) == Some((st, pos + 68)),
{
    let w = spec_stat_wire(st);
    assert(spec_be_i64(st.czxid).len() == 8 && spec_be_i64(st.mzxid).len() == 8 && spec_be_i64(
        st.ctime,
    ).len() == 8 && spec_be_i64(st.mtime).len() == 8 && spec_be_i64(st.ephemeral_owner).len() == 8
        && spec_be_i64(st.pzxid).len() == 8) by {
        lemma_i64_be_round_trip(st.czxid);
        lemma_i64_be_round_trip(st.mzxid);
        lemma_i64_be_round_trip(st.ctime);
        lemma_i64_be_round_trip(st.mtime);
        lemma_i64_be_round_trip(st.ephemeral_owner);
        lemma_i64_be_round_trip(st.pzxid);
    }
    assert(spec_be_i32(st.version).len() == 4 && spec_be_i32(st.cversion).len() == 4
        && spec_be_i32(st.aversion).len() == 4 && spec_be_i32(st.data_length).len() == 4
        && spec_be_i32(st.num_children).len() == 4) by {
        lemma_i32_be_round_trip(st.version);
        lemma_i32_be_round_trip(st.cversion);
        lemma_i32_be_round_trip(st.aversion);
        lemma_i32_be_round_trip(st.data_length);
        lemma_i32_be_round_trip(st.num_children);
    }
    assert(s.subrange(pos, pos + 8) =~= w.subrange(0, 8));
    assert(w.subrange(0, 8) =~= spec_be_i64(st.czxid));
    lemma_read_i64_at(s, pos, st.czxid);
    assert(s.subrange(pos + 8, pos + 16) =~= w.subrange(8, 16));
    assert(w.subrange(8, 16) =~= spec_be_i64(st.mzxid));
    lemma_read_i64_at(s, pos + 8, st.mzxid);
    assert(s.subrange(pos + 16, pos + 24) =~= w.subrange(16, 24));
    assert(w.subrange(16, 24) =~= spec_be_i64(st.ctime));
    lemma_read_i64_at(s, pos + 16, st.ctime);
    assert(s.subrange(pos + 24, pos + 32) =~= w.subrange(24, 32));
    assert(w.subrange(24, 32) =~= spec_be_i64(st.mtime));
    lemma_read_i64_at(s, pos + 24, st.mtime);
    assert(s.subrange(pos + 32, pos + 36) =~= w.subrange(32, 36));
    assert(w.subrange(32, 36) =~= spec_be_i32(st.version));
    lemma_read_i32_at(s, pos + 32, st.version);
    assert(s.subrange(pos + 36, pos + 40) =~= w.subrange(36, 40));
    assert(w.subrange(36, 40) =~= spec_be_i32(st.cversion));
    lemma_read_i32_at(s, pos + 36, st.cversion);
    assert(s.subrange(pos + 40, pos + 44) =~= w.subrange(40, 44));
    assert(w.subrange(40, 44) =~= spec_be_i32(st.aversion));
    lemma_read_i32_at(s, pos + 40, st.aversion);
    assert(s.subrange(pos + 44, pos + 52) =~= w.subrange(44, 52));
    assert(w.subrange(44, 52) =~= spec_be_i64(st.ephemeral_owner));
    lemma_read_i64_at(s, pos + 44, st.ephemeral_owner);
    assert(s.subrange(pos + 52, pos + 56) =~= w.subrange(52, 56));
    assert(w.subrange(52, 56) =~= spec_be_i32(st.data_length));
    lemma_read_i32_at(s, pos + 52, st.data_length);
    assert(s.subrange(pos + 56, pos + 60) =~= w.subrange(56, 60));
    assert(w.subrange(56, 60) =~= spec_be_i32(st.num_children));
    lemma_read_i32_at(s, pos + 56, st.num_children);
    assert(s.subrange(pos + 60, pos + 68) =~= w.subrange(60, 68));
    assert(w.subrange(60, 68) =~= spec_be_i64(st.pzxid));
    lemma_read_i64_at(s, pos + 60, st.pzxid);
}

// ---------------------------------------------------------------------------
// Watch events.
// ---------------------------------------------------------------------------

/// What changed under a watched path.
#[derive(Clone, Copy, Debug, PartialEq, Eq, Structural)]
pub enum WatchedEventType {
    NodeCreated,
    NodeDeleted,
    NodeDataChanged,
    NodeChildrenChanged,
}

/// The connection state the server reported along with the event.
#[derive(Clone, Copy, Debug, PartialEq, Eq, Structural)]
pub enum KeeperState {
    Disconnected,
    SyncConnected,
    AuthFailed,
    ConnectedReadOnly,
    Expired,
}

pub open spec fn spec_event_type_code(t: WatchedEventType) -> i32 {
    match t {
        WatchedEventType::NodeCreated => 1,
        WatchedEventType::NodeDeleted => 2,
        WatchedEventType::NodeDataChanged => 3,
        WatchedEventType::NodeChildrenChanged => 4,
    }
}

pub open spec fn spec_event_type_of(c: i32) -> Option<WatchedEventType> {
    if c == 1 {
        Some(WatchedEventType::NodeCreated)
    } else if c == 2 {
        Some(WatchedEventType::NodeDeleted)
    } else if c == 3 {
        Some(WatchedEventType::NodeDataChanged)
    } else if c == 4 {
        Some(WatchedEventType::NodeChildrenChanged)
    } else {
        None
    }
}

pub open spec fn spec_keeper_state_code(k: KeeperState) -> i32 {
    match k {
        KeeperState::Disconnected => 0,
        KeeperState::SyncConnected => 3,
        KeeperState::AuthFailed => 4,
        KeeperState::ConnectedReadOnly => 5,
        KeeperState::Expired => -112i32,
    }
}

pub open spec fn spec_keeper_state_of(c: i32) -> Option<KeeperState> {
    if c == 0 {
        Some(KeeperState::Disconnected)
    } else if c == 3 {
        Some(KeeperState::SyncConnected)
    } else if c == 4 {
        Some(KeeperState::AuthFailed)
    } else if c == 5 {
        Some(KeeperState::ConnectedReadOnly)
    } else if c == -112i32 {
        Some(KeeperState::Expired)
    } else {
        None
    }
}

pub fn event_type_code(t: WatchedEventType) -> (c: i32)
    ensures
        c == spec_event_type_code(t),
{
    match t {
        WatchedEventType::NodeCreated => 1,
        WatchedEventType::NodeDeleted => 2,
        WatchedEventType::NodeDataChanged => 3,
        WatchedEventType::NodeChildrenChanged => 4,
    }
}

pub fn event_type_of(c: i32) -> (t: Option<WatchedEventType>)
    ensures
        t == spec_event_type_of(c),
{
    if c == 1 {
        Some(WatchedEventType::NodeCreated)
    } else if c == 2 {
        Some(WatchedEventType::NodeDeleted)
    } else if c == 3 {
        Some(WatchedEventType::NodeDataChanged)
    } else if c == 4 {
        Some(WatchedEventType::NodeChildrenChanged)
    } else {
        None
    }
}

pub fn keeper_state_code(k: KeeperState) -> (c: i32)
    ensures
        c == spec_keeper_state_code(k),
{
    match k {
        KeeperState::Disconnected => 0,
        KeeperState::SyncConnected => 3,
        KeeperState::AuthFailed => 4,
        KeeperState::ConnectedReadOnly => 5,
        KeeperState::Expired => -112i32,
    }
}

pub fn keeper_state_of(c: i32) -> (k: Option<KeeperState>)
    ensures
        k == spec_keeper_state_of(c),
{
    if c == 0 {
        Some(KeeperState::Disconnected)
    } else if c == 3 {
        Some(KeeperState::SyncConnected)
    } else if c == 4 {
        Some(KeeperState::AuthFailed)
    } else if c == 5 {
        Some(KeeperState::ConnectedReadOnly)
    } else if c == -112i32 {
        Some(KeeperState::Expired)
    } else {
        None
    }
}

/// An unsolicited notification: (what happened, connection state, path).
#[derive(Clone, Debug, PartialEq, Eq)]
pub struct WatchedEvent {
    pub event_type: WatchedEventType,
    pub keeper_state: KeeperState,
    pub path: String,
}

/// The mathematical image of a watch event: the path as a character sequence.
pub struct WatchedEventModel {
    pub event_type: WatchedEventType,
    pub keeper_state: KeeperState,
    pub path: Seq<char>,
}

impl DeepView for WatchedEvent {
    type V = WatchedEventModel;

    open spec fn deep_view(&self) -> WatchedEventModel {
        WatchedEventModel {
            event_type: self.event_type,
            keeper_state: self.keeper_state,
            path: self.path@,
        }
    }
}

/// The wire image of a watch event payload body (after the frame header).
pub open spec fn spec_event_wire(e: WatchedEventModel) -> Seq<u8>
    recommends
        encode_utf8(e.path).len() <= i32::MAX,
{
    spec_be_i32(spec_event_type_code(e.event_type)) + spec_be_i32(
        spec_keeper_state_code(e.keeper_state),
    ) + spec_string(e.path)
}

impl ReadFrom for WatchedEvent {
    open spec fn spec_read(s: Seq<u8>, pos: int) -> Option<(WatchedEventModel, int)> {
        match spec_read_i32(s, pos) {
            None => None,
            Some((tc, p1)) => match spec_event_type_of(tc) {
                None => None,
                Some(event_type) => match spec_read_i32(s, p1) {
                    None => None,
                    Some((kc, p2)) => match spec_keeper_state_of(kc) {
                        None => None,
                        Some(keeper_state) => match spec_read_string(s, p2) {
                            None => None,
                            Some((path, p3)) => Some(
                                (WatchedEventModel { event_type, keeper_state, path }, p3),
                            ),
                        },
                    },
                },
            },
        }
    }

    fn read_from(buf: &[u8], pos: &mut usize) -> (r: Result<WatchedEvent, DecodeError>) {
        let start = *pos;
        let tc = read_be_i32(buf, pos)?;
        let event_type = match event_type_of(tc) {
            Some(t) => t,
            None => {
                *pos = start;
                return Err(DecodeError);
            },
        };
        let kc = match read_be_i32(buf, pos) {
            Ok(v) => v,
            Err(e) => {
                *pos = start;
                return Err(e);
            },
        };
        let keeper_state = match keeper_state_of(kc) {
            Some(k) => k,
            None => {
                *pos = start;
                return Err(DecodeError);
            },
        };
        let path = match read_string(buf, pos) {
            Ok(v) => v,
            Err(e) => {
                *pos = start;
                return Err(e);
            },
        };
        Ok(WatchedEvent { event_type, keeper_state, path })
    }
}

/// Reading where a watch event image was written yields the event written.
pub proof fn lemma_read_event_at(s: Seq<u8>, pos: int, m: WatchedEventModel)
    requires
        0 <= pos,
        encode_utf8(m.path).len() <= i32::MAX,
        pos + 12 + encode_utf8(m.path).len() <= s.len(),
        s.subrange(pos, pos + 12 + encode_utf8(m.path).len() as int) == spec_event_wire(m),
    ensures
        WatchedEvent::spec_read(s, pos) == Some((m, pos + 12 + encode_utf8(m.path).len())),
{
    let w = spec_event_wire(m);
    let plen = encode_utf8(m.path).len() as int;
    lemma_i32_be_round_trip(spec_event_type_code(m.event_type));
    lemma_i32_be_round_trip(spec_keeper_state_code(m.keeper_state));
    lemma_i32_be_round_trip(plen as i32);
    assert(s.subrange(pos, pos + 4) =~= w.subrange(0, 4));
    assert(w.subrange(0, 4) =~= spec_be_i32(spec_event_type_code(m.event_type)));
    lemma_read_i32_at(s, pos, spec_event_type_code(m.event_type));
    assert(spec_event_type_of(spec_event_type_code(m.event_type)) == Some(m.event_type));
    assert(s.subrange(pos + 4, pos + 8) =~= w.subrange(4, 8));
    assert(w.subrange(4, 8) =~= spec_be_i32(spec_keeper_state_code(m.keeper_state)));
    lemma_read_i32_at(s, pos + 4, spec_keeper_state_code(m.keeper_state));
    assert(spec_keeper_state_of(spec_keeper_state_code(m.keeper_state)) == Some(m.keeper_state));
    assert(s.subrange(pos + 8, pos + 12 + plen) =~= w.subrange(8, 12 + plen));
    assert(w.subrange(8, 12 + plen) =~= spec_string(m.path));
    lemma_read_string_at(s, pos + 8, m.path);
}

/// Appends the wire image of a watch event body; the server side of the
/// exchange, kept for exercising the decoder against known bytes.
pub fn push_event(out: &mut Vec<u8>, e: &WatchedEvent)
    requires
        encode_utf8(e.path@).len() <= i32::MAX,
    ensures
        final(out)@ == old(out)@ + spec_event_wire(e.deep_view()),
{
    push_be_i32(out, event_type_code(e.event_type));
    push_be_i32(out, keeper_state_code(e.keeper_state));
    push_string(out, e.path.as_str());
    assert(out@ =~= old(out)@ + spec_event_wire(e.deep_view()));
}

// ---------------------------------------------------------------------------
// String lists: a signed 32-bit count followed by that many strings; a
// negative count reads as empty.
// ---------------------------------------------------------------------------

pub open spec fn spec_read_string_list(s: Seq<u8>, pos: int, n: int) -> Option<
    (Seq<Seq<char>>, int),
>
    decreases n,
{
    if n <= 0 {
        Some((Seq::<Seq<char>>::empty(), pos))
    } else {
        match spec_read_string(s, pos) {
            None => None,
            Some((c, p)) => match spec_read_string_list(s, p, n - 1) {
                None => None,
                Some((rest, p2)) => Some((seq![c] + rest, p2)),
            },
        }
    }
}

impl ReadFrom for Vec<String> {
    open spec fn spec_read(s: Seq<u8>, pos: int) -> Option<(Seq<Seq<char>>, int)> {
        match spec_read_i32(s, pos) {
            None => None,
            Some((n, p)) => spec_read_string_list(s, p, n as int),
        }
    }

    fn read_from(buf: &[u8], pos: &mut usize) -> (r: Result<Vec<String>, DecodeError>) {
        let start = *pos;
        let n = read_be_i32(buf, pos)?;
        let ghost p0 = *pos as int;
        let mut items: Vec<String> = Vec::new();
        if n <= 0 {
            proof {
                assert(items.deep_view() =~~= Seq::<Seq<char>>::empty());
            }
            return Ok(items);
        }
        let mut i: i32 = 0;
        while i < n
            invariant
                0 <= i <= n,
                n > 0,
                start == *old(pos),
                *pos >= start,
                spec_read_i32(buf@, start as int) == Some((n, p0)),
                spec_read_string_list(buf@, p0, n as int) == (match spec_read_string_list(
                    buf@,
                    *pos as int,
                    n - i,
                ) {
                    None => None::<(Seq<Seq<char>>, int)>,
                    Some((rest, pe)) => Some((items.deep_view() + rest, pe)),
                }),
            decreases n - i,
        {
            let ghost pos_before = *pos as int;
            let ghost done_before = items.deep_view();
            let item = match read_string(buf, pos) {
                Ok(v) => v,
                Err(e) => {
                    proof {
                        assert(spec_read_string_list(buf@, pos_before, n - i) is None);
                    }
                    *pos = start;
                    return Err(e);
                },
            };
            let ghost c = item@;
            items.push(item);
            i = i + 1;
            proof {
                assert(items.deep_view() =~~= done_before.push(c));
                assert(spec_read_string_list(buf@, pos_before, n - i + 1) == (
                match spec_read_string_list(buf@, *pos as int, n - i) {
                    None => None::<(Seq<Seq<char>>, int)>,
                    Some((rest, pe)) => Some((seq![c] + rest, pe)),
                }));
                if spec_read_string_list(buf@, *pos as int, n - i) is Some {
                    let rp = spec_read_string_list(buf@, *pos as int, n - i)->Some_0;
                    assert(done_before + (seq![c] + rp.0) =~~= items.deep_view() + rp.0);
                }
            }
        }
        proof {
            assert(spec_read_string_list(buf@, *pos as int, 0) == Some(
                (Seq::<Seq<char>>::empty(), *pos as int),
            ));
            assert(items.deep_view() + Seq::<Seq<char>>::empty() =~~= items.deep_view());
        }
        Ok(items)
    }
}

// ---------------------------------------------------------------------------
// ACLs and creation modes: opaque pass-through on the request side.
// ---------------------------------------------------------------------------

/// One access-control entry: a permission mask and a scheme:id pair,
/// passed through to the server untouched.
#[derive(Clone, Debug, PartialEq, Eq)]
pub struct Acl {
    pub perms: i32,
    pub scheme: String,
    pub id: String,
}

impl WriteTo for Acl {
    open spec fn wire(&self) -> Seq<u8> {
        spec_be_i32(self.perms) + spec_string(self.scheme@) + spec_string(self.id@)
    }

    open spec fn wire_wf(&self) -> bool {
        &&& encode_utf8(self.scheme@).len() <= i32::MAX
        &&& encode_utf8(self.id@).len() <= i32::MAX
    }

    fn write_to(&self, out: &mut Vec<u8>) {
        push_be_i32(out, self.perms);
        push_string(out, self.scheme.as_str());
        push_string(out, self.id.as_str());
        assert(out@ =~= old(out)@ + self.wire());
    }
}

impl Acl {
    /// The fully open ACL: anyone in the world may do anything.
    pub fn open_unsafe() -> (r: Vec<Acl>)
        ensures
            r@.len() == 1,
            r@[0].perms == 0x1f,
            r@[0].scheme@ == "world"@,
            r@[0].id@ == "anyone"@,
    {
        let acl = Acl {
            perms: 0x1f,
            scheme: String::from_str("world"),
            id: String::from_str("anyone"),
        };
        let mut v: Vec<Acl> = Vec::new();
        v.push(acl);
        v
    }
}

/// How a created node persists: plain or ephemeral, optionally with a
/// server-appended sequence number.
#[derive(Clone, Copy, Debug, PartialEq, Eq, Structural)]
pub enum CreateMode {
    Persistent,
    Ephemeral,
    PersistentSequential,
    EphemeralSequential,
}

pub open spec fn spec_create_mode_flags(m: CreateMode) -> i32 {
    match m {
        CreateMode::Persistent => 0,
        CreateMode::Ephemeral => 1,
        CreateMode::PersistentSequential => 2,
        CreateMode::EphemeralSequential => 3,
    }
}

pub fn create_mode_flags(m: CreateMode) -> (f: i32)
    ensures
        f == spec_create_mode_flags(m),
{
    match m {
        CreateMode::Persistent => 0,
        CreateMode::Ephemeral => 1,
        CreateMode::PersistentSequential => 2,
        CreateMode::EphemeralSequential => 3,
    }
}

} // verus!
