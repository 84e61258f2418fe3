//! Big-endian wire primitives.
//!
//! Every multi-byte integer on the wire is big-endian. Variable-length
//! fields (byte buffers, strings) are a 4-byte signed length prefix followed
//! by the raw bytes; a negative length stands for an absent/empty value.

use vstd::prelude::*;

verus! {

use vstd::utf8::{valid_utf8, encode_utf8, decode_utf8};
use vstd::string::StringSliceAdditionalSpecFns;

// ---------------------------------------------------------------------------
// Specification: big-endian byte images of the wire integers.
// ---------------------------------------------------------------------------

pub open spec fn spec_be_u32(x: u32) -> Seq<u8> {
    seq![
        ((x >> 24) & 0xff) as u8,
        ((x >> 16) & 0xff) as u8,
        ((x >> 8) & 0xff) as u8,
        (x & 0xff) as u8,
    ]
}

pub open spec fn spec_u32_of_be(s: Seq<u8>) -> u32
    recommends
        s.len() == 4,
{
    ((s[0] as u32) << 24) | ((s[1] as u32) << 16) | ((s[2] as u32) << 8) | (s[3] as u32)
}

pub open spec fn spec_be_u64(x: u64) -> Seq<u8> {
    seq![
        ((x >> 56) & 0xff) as u8,
        ((x >> 48) & 0xff) as u8,
        ((x >> 40) & 0xff) as u8,
        ((x >> 32) & 0xff) as u8,
        ((x >> 24) & 0xff) as u8,
        ((x >> 16) & 0xff) as u8,
        ((x >> 8) & 0xff) as u8,
        (x & 0xff) as u8,
    ]
}

pub open spec fn spec_u64_of_be(s: Seq<u8>) -> u64
    recommends
        s.len() == 8,
{
    ((s[0] as u64) << 56) | ((s[1] as u64) << 48) | ((s[2] as u64) << 40) | ((s[3] as u64) << 32)
        | ((s[4] as u64) << 24) | ((s[5] as u64) << 16) | ((s[6] as u64) << 8) | (s[7] as u64)
}

pub open spec fn spec_be_i32(x: i32) -> Seq<u8> {
    spec_be_u32(#[verifier::truncate] (x as u32))
}

pub open spec fn spec_i32_of_be(s: Seq<u8>) -> i32
    recommends
        s.len() == 4,
{
    #[verifier::truncate] (spec_u32_of_be(s) as i32)
}

pub open spec fn spec_be_i64(x: i64) -> Seq<u8> {
    spec_be_u64(#[verifier::truncate] (x as u64))
}

pub open spec fn spec_i64_of_be(s: Seq<u8>) -> i64
    recommends
        s.len() == 8,
{
    #[verifier::truncate] (spec_u64_of_be(s) as i64)
}

/// A length-prefixed byte buffer.
pub open spec fn spec_buffer(data: Seq<u8>) -> Seq<u8>
    recommends
        data.len() <= i32::MAX,
{
    spec_be_i32(data.len() as i32) + data
}

/// A length-prefixed UTF-8 string.
pub open spec fn spec_string(s: Seq<char>) -> Seq<u8>
    recommends
        encode_utf8(s).len() <= i32::MAX,
{
    spec_buffer(encode_utf8(s))
}

// ---------------------------------------------------------------------------
// Round trips.
// ---------------------------------------------------------------------------

pub proof fn lemma_u32_be_round_trip(x: u32)
    ensures
        spec_be_u32(x).len() == 4,
        spec_u32_of_be(spec_be_u32(x)) == x,
{
    assert(((((x >> 24) & 0xff) as u8 as u32) << 24) | ((((x >> 16) & 0xff) as u8 as u32) << 16)
        | ((((x >> 8) & 0xff) as u8 as u32) << 8) | ((x & 0xff) as u8 as u32) == x)
        by (bit_vector);
}

pub proof fn lemma_i32_be_round_trip(x: i32)
    ensures
        spec_be_i32(x).len() == 4,
        spec_i32_of_be(spec_be_i32(x)) == x,
{
    let u = #[verifier::truncate] (x as u32);
    lemma_u32_be_round_trip(u);
    assert((#[verifier::truncate] (x as u32)) as i32 == x) by (bit_vector);
}

pub proof fn lemma_u64_be_round_trip(x: u64)
    ensures
        spec_be_u64(x).len() == 8,
        spec_u64_of_be(spec_be_u64(x)) == x,
{
    assert(((((x >> 56) & 0xff) as u8 as u64) << 56) | ((((x >> 48) & 0xff) as u8 as u64) << 48)
        | ((((x >> 40) & 0xff) as u8 as u64) << 40) | ((((x >> 32) & 0xff) as u8 as u64) << 32)
        | ((((x >> 24) & 0xff) as u8 as u64) << 24) | ((((x >> 16) & 0xff) as u8 as u64) << 16)
        | ((((x >> 8) & 0xff) as u8 as u64) << 8) | ((x & 0xff) as u8 as u64) == x)
        by (bit_vector);
}

pub proof fn lemma_i64_be_round_trip(x: i64)
    ensures
        spec_be_i64(x).len() == 8,
        spec_i64_of_be(spec_be_i64(x)) == x,
{
    let u = #[verifier::truncate] (x as u64);
    lemma_u64_be_round_trip(u);
    assert((#[verifier::truncate] (x as u64)) as i64 == x) by (bit_vector);
}

// ---------------------------------------------------------------------------
// Executable writers. Each appends exactly its specification image.
// ---------------------------------------------------------------------------

pub fn push_be_u32(out: &mut Vec<u8>, x: u32)
    ensures
        final(out)@ == old(out)@ + spec_be_u32(x),
{
    out.push(((x >> 24) & 0xff) as u8);
    out.push(((x >> 16) & 0xff) as u8);
    out.push(((x >> 8) & 0xff) as u8);
    out.push((x & 0xff) as u8);
    assert(out@ =~= old(out)@ + spec_be_u32(x));
}

pub fn push_be_i32(out: &mut Vec<u8>, x: i32)
    ensures
        final(out)@ == old(out)@ + spec_be_i32(x),
{
    push_be_u32(out, x as u32);
}

pub fn push_be_u64(out: &mut Vec<u8>, x: u64)
    ensures
        final(out)@ == old(out)@ + spec_be_u64(x),
{
    out.push(((x >> 56) & 0xff) as u8);
    out.push(((x >> 48) & 0xff) as u8);
    out.push(((x >> 40) & 0xff) as u8);
    out.push(((x >> 32) & 0xff) as u8);
    out.push(((x >> 24) & 0xff) as u8);
    out.push(((x >> 16) & 0xff) as u8);
    out.push(((x >> 8) & 0xff) as u8);
    out.push((x & 0xff) as u8);
    assert(out@ =~= old(out)@ + spec_be_u64(x));
}

pub fn push_be_i64(out: &mut Vec<u8>, x: i64)
    ensures
        final(out)@ == old(out)@ + spec_be_i64(x),
{
    push_be_u64(out, x as u64);
}

pub fn push_bytes(out: &mut Vec<u8>, data: &[u8])
    ensures
        final(out)@ == old(out)@ + data@,
{
    let mut i: usize = 0;
    while i < data.len()
        invariant
            i <= data.len(),
            out@ == old(out)@ + data@.subrange(0, i as int),
        decreases data.len() - i,
    {
        out.push(data[i]);
        i = i + 1;
        assert(out@ =~= old(out)@ + data@.subrange(0, i as int));
    }
    assert(data@.subrange(0, data@.len() as int) =~= data@);
}

/// A length-prefixed byte buffer.
pub fn push_buffer(out: &mut Vec<u8>, data: &[u8])
    requires
        data@.len() <= i32::MAX,
    ensures
        final(out)@ == old(out)@ + spec_buffer(data@),
{
    push_be_i32(out, data.len() as i32);
    push_bytes(out, data);
    assert(out@ =~= old(out)@ + spec_buffer(data@));
}

/// A length-prefixed UTF-8 string.
pub fn push_string(out: &mut Vec<u8>, s: &str)
    requires
        s.spec_bytes().len() <= i32::MAX,
    ensures
        final(out)@ == old(out)@ + spec_string(s@),
{
    push_buffer(out, s.as_bytes());
}

// ---------------------------------------------------------------------------
// Specification: reading from a byte sequence at a position.
// A reader yields the decoded value and the next position, or nothing on
// underrun.
// ---------------------------------------------------------------------------

pub open spec fn spec_read_u8(s: Seq<u8>, pos: int) -> Option<(u8, int)> {
    if 0 <= pos && pos + 1 <= s.len() {
        Some((s[pos], pos + 1))
    } else {
        None
    }
}

pub open spec fn spec_read_i32(s: Seq<u8>, pos: int) -> Option<(i32, int)> {
    if 0 <= pos && pos + 4 <= s.len() {
        Some((spec_i32_of_be(s.subrange(pos, pos + 4)), pos + 4))
    } else {
        None
    }
}

pub open spec fn spec_read_i64(s: Seq<u8>, pos: int) -> Option<(i64, int)> {
    if 0 <= pos && pos + 8 <= s.len() {
        Some((spec_i64_of_be(s.subrange(pos, pos + 8)), pos + 8))
    } else {
        None
    }
}

/// A length-prefixed byte buffer: a negative length reads as empty.
pub open spec fn spec_read_buffer(s: Seq<u8>, pos: int) -> Option<(Seq<u8>, int)> {
    match spec_read_i32(s, pos) {
        None => None,
        Some((len, p)) => {
            if len < 0 {
                Some((Seq::<u8>::empty(), p))
            } else if p + len <= s.len() {
                Some((s.subrange(p, p + len), p + len))
            } else {
                None
            }
        },
    }
}

/// A length-prefixed UTF-8 string; bytes that are not valid UTF-8 fail.
pub open spec fn spec_read_string(s: Seq<u8>, pos: int) -> Option<(Seq<char>, int)> {
    match spec_read_buffer(s, pos) {
        None => None,
        Some((raw, p)) => {
            if valid_utf8(raw) {
                Some((decode_utf8(raw), p))
            } else {
                None
            }
        },
    }
}

// ---------------------------------------------------------------------------
// Executable readers.
// ---------------------------------------------------------------------------

/// The one failure a reader reports: the payload ended before the value did,
/// or held bytes that do not decode.
#[derive(Clone, Copy, Debug, PartialEq, Eq, Structural)]
pub struct DecodeError;

pub fn read_u8(buf: &[u8], pos: &mut usize) -> (r: Result<u8, DecodeError>)
    ensures
        match r {
            Ok(v) => {
                &&& spec_read_u8(buf@, *old(pos) as int) == Some((v, *final(pos) as int))
                &&& *final(pos) == *old(pos) + 1
            },
            Err(_) => {
                &&& spec_read_u8(buf@, *old(pos) as int) is None
                &&& *final(pos) == *old(pos)
            },
        },
{
    if *pos < buf.len() {
        let v = buf[*pos];
        *pos = *pos + 1;
        Ok(v)
    } else {
        Err(DecodeError)
    }
}

pub fn read_be_i32(buf: &[u8], pos: &mut usize) -> (r: Result<i32, DecodeError>)
    ensures
        match r {
            Ok(v) => {
                &&& spec_read_i32(buf@, *old(pos) as int) == Some((v, *final(pos) as int))
                &&& *final(pos) == *old(pos) + 4
            },
            Err(_) => {
                &&& spec_read_i32(buf@, *old(pos) as int) is None
                &&& *final(pos) == *old(pos)
            },
        },
{
    if buf.len() >= 4 && *pos <= buf.len() - 4 {
        let b0 = buf[*pos];
        let b1 = buf[*pos + 1];
        let b2 = buf[*pos + 2];
        let b3 = buf[*pos + 3];
        let u: u32 = ((b0 as u32) << 24) | ((b1 as u32) << 16) | ((b2 as u32) << 8) | (b3 as u32);
        let ghost sub = buf@.subrange(*pos as int, *pos as int + 4);
        proof {
            assert(sub[0] == b0 && sub[1] == b1 && sub[2] == b2 && sub[3] == b3);
        }
        *pos = *pos + 4;
        Ok(u as i32)
    } else {
        Err(DecodeError)
    }
}

pub fn read_be_i64(buf: &[u8], pos: &mut usize) -> (r: Result<i64, DecodeError>)
    ensures
        match r {
            Ok(v) => {
                &&& spec_read_i64(buf@, *old(pos) as int) == Some((v, *final(pos) as int))
                &&& *final(pos) == *old(pos) + 8
            },
            Err(_) => {
                &&& spec_read_i64(buf@, *old(pos) as int) is None
                &&& *final(pos) == *old(pos)
            },
        },
{
    if buf.len() >= 8 && *pos <= buf.len() - 8 {
        let b0 = buf[*pos];
        let b1 = buf[*pos + 1];
        let b2 = buf[*pos + 2];
        let b3 = buf[*pos + 3];
        let b4 = buf[*pos + 4];
        let b5 = buf[*pos + 5];
        let b6 = buf[*pos + 6];
        let b7 = buf[*pos + 7];
        let u: u64 = ((b0 as u64) << 56) | ((b1 as u64) << 48) | ((b2 as u64) << 40)
            | ((b3 as u64) << 32) | ((b4 as u64) << 24) | ((b5 as u64) << 16) | ((b6 as u64) << 8)
            | (b7 as u64);
        let ghost sub = buf@.subrange(*pos as int, *pos as int + 8);
        proof {
            assert(sub[0] == b0 && sub[1] == b1 && sub[2] == b2 && sub[3] == b3);
            assert(sub[4] == b4 && sub[5] == b5 && sub[6] == b6 && sub[7] == b7);
        }
        *pos = *pos + 8;
        Ok(u as i64)
    } else {
        Err(DecodeError)
    }
}

pub fn read_buffer(buf: &[u8], pos: &mut usize) -> (r: Result<Vec<u8>, DecodeError>)
    ensures
        match r {
            Ok(v) => {
                &&& spec_read_buffer(buf@, *old(pos) as int) == Some((v@, *final(pos) as int))
                &&& *final(pos) >= *old(pos)
            },
            Err(_) => {
                &&& spec_read_buffer(buf@, *old(pos) as int) is None
                &&& *final(pos) == *old(pos)
            },
        },
{
    let start = *pos;
    let len = match read_be_i32(buf, pos) {
        Ok(v) => v,
        Err(e) => {
            return Err(e);
        },
    };
    if len < 0 {
        return Ok(Vec::new());
    }
    let n = len as usize;
    if n > buf.len() - *pos {
        *pos = start;
        return Err(DecodeError);
    }
    let end: usize = *pos + n;
    let mut v: Vec<u8> = Vec::new();
    let mut i: usize = 0;
    while i < n
        invariant
            i <= n,
            *pos + n == end,
            *pos + n <= buf@.len(),
            v@ == buf@.subrange(*pos as int, *pos as int + i as int),
        decreases n - i,
    {
        v.push(buf[*pos + i]);
        i = i + 1;
        assert(v@ =~= buf@.subrange(*pos as int, *pos as int + i as int));
    }
    *pos = *pos + n;
    Ok(v)
}

/// Relies on std's String::from_utf8: it succeeds exactly on valid UTF-8
/// input, and the returned string's UTF-8 encoding is the input, unchanged.
#[verifier::external_body]
fn utf8_to_string(v: Vec<u8>) -> (r: Option<String>)
    ensures
        r is Some <==> valid_utf8(v@),
        r matches Some(s) ==> encode_utf8(s@) == v@,
{
    String::from_utf8(v).ok()
}

pub fn read_string(buf: &[u8], pos: &mut usize) -> (r: Result<String, DecodeError>)
    ensures
        match r {
            Ok(v) => {
                &&& spec_read_string(buf@, *old(pos) as int) == Some((v@, *final(pos) as int))
                &&& *final(pos) >= *old(pos)
            },
            Err(_) => {
                &&& spec_read_string(buf@, *old(pos) as int) is None
                &&& *final(pos) == *old(pos)
            },
        },
{
    broadcast use vstd::utf8::encode_utf8_decode_utf8;

    let start = *pos;
    let raw = match read_buffer(buf, pos) {
        Ok(v) => v,
        Err(e) => {
            return Err(e);
        },
    };
    match utf8_to_string(raw) {
        Some(s) => Ok(s),
        None => {
            *pos = start;
            Err(DecodeError)
        },
    }
}

// ---------------------------------------------------------------------------
// The two wire traits: a value that knows its byte image, and a value that
// can be read back off the wire.
// ---------------------------------------------------------------------------

/// A value with a fixed big-endian byte image on the wire.
pub trait WriteTo {
    /// The byte image this value contributes to a frame payload.
    spec fn wire(&self) -> Seq<u8>;

    /// What must hold of the value for its image to be writable
    /// (every length prefix fits in a signed 32-bit integer).
    spec fn wire_wf(&self) -> bool;

    fn write_to(&self, out: &mut Vec<u8>)
        requires
            self.wire_wf(),
        ensures
            final(out)@ == old(out)@ + self.wire(),
    ;
}

/// A value that can be decoded from a frame payload at a position. The
/// contract speaks of the value's deep view, the mathematical image of the
/// value with strings as character sequences.
pub trait ReadFrom: Sized + DeepView {
    /// The decoded value's deep view and the position after it, or nothing
    /// when the payload ends too soon or holds bytes that do not decode.
    spec fn spec_read(s: Seq<u8>, pos: int) -> Option<(Self::V, int)>;

    fn read_from(buf: &[u8], pos: &mut usize) -> (r: Result<Self, DecodeError>)
        ensures
            match r {
                Ok(v) => {
                    &&& Self::spec_read(buf@, *old(pos) as int) == Some(
                        (v.deep_view(), *final(pos) as int),
                    )
                    &&& *final(pos) >= *old(pos)
                },
                Err(_) => {
                    &&& Self::spec_read(buf@, *old(pos) as int) is None
                    &&& *final(pos) == *old(pos)
                },
            },
    ;
}

impl WriteTo for u8 {
    open spec fn wire(&self) -> Seq<u8> {
        seq![*self]
    }

    open spec fn wire_wf(&self) -> bool {
        true
    }

    fn write_to(&self, out: &mut Vec<u8>) {
        out.push(*self);
        assert(out@ =~= old(out)@ + self.wire());
    }
}

impl WriteTo for String {
    open spec fn wire(&self) -> Seq<u8> {
        spec_string(self@)
    }

    open spec fn wire_wf(&self) -> bool {
        encode_utf8(self@).len() <= i32::MAX
    }

    fn write_to(&self, out: &mut Vec<u8>) {
        push_string(out, self.as_str());
    }
}

/// The byte images of a sequence's elements, in order.
pub open spec fn spec_wire_concat<T: WriteTo>(s: Seq<T>) -> Seq<u8>
    decreases s.len(),
{
    if s.len() == 0 {
        Seq::<u8>::empty()
    } else {
        spec_wire_concat(s.drop_last()) + s.last().wire()
    }
}

impl<T: WriteTo> WriteTo for Vec<T> {
    /// A list is its signed 32-bit element count followed by the elements.
    open spec fn wire(&self) -> Seq<u8> {
        spec_be_i32(self@.len() as i32) + spec_wire_concat(self@)
    }

    open spec fn wire_wf(&self) -> bool {
        &&& self@.len() <= i32::MAX
        &&& forall|i: int| 0 <= i < self@.len() ==> #[trigger] self@[i].wire_wf()
    }

    fn write_to(&self, out: &mut Vec<u8>) {
        push_be_i32(out, self.len() as i32);
        let ghost prefix = out@;
        let mut i: usize = 0;
        while i < self.len()
            invariant
                i <= self@.len(),
                self.wire_wf(),
                out@ == prefix + spec_wire_concat(self@.take(i as int)),
            decreases self@.len() - i,
        {
            self[i].write_to(out);
            i = i + 1;
            proof {
                assert(self@.take(i as int).drop_last() =~= self@.take(i as int - 1));
                assert(self@.take(i as int).last() == self@[i as int - 1]);
                assert(out@ =~= prefix + spec_wire_concat(self@.take(i as int)));
            }
        }
        proof {
            assert(self@.take(self@.len() as int) =~= self@);
        }
    }
}

/// A byte list written element by element is exactly the length-prefixed
/// buffer image: the two encodings of raw bytes agree.
pub proof fn lemma_byte_list_wire_is_buffer(v: Vec<u8>)
    requires
        v@.len() <= i32::MAX,
    ensures
        v.wire() == spec_buffer(v@),
{
    lemma_wire_concat_bytes(v@);
}

proof fn lemma_wire_concat_bytes(s: Seq<u8>)
    ensures
        spec_wire_concat(s) == s,
    decreases s.len(),
{
    if s.len() == 0 {
        assert(spec_wire_concat(s) =~= s);
    } else {
        lemma_wire_concat_bytes(s.drop_last());
        assert(spec_wire_concat(s) =~= s);
    }
}

/// A copy of everything from a position to the end of the slice.
pub fn tail_copy(buf: &[u8], from: usize) -> (v: Vec<u8>)
    requires
        from <= buf@.len(),
    ensures
        v@ == buf@.skip(from as int),
{
    let mut v: Vec<u8> = Vec::new();
    let mut i: usize = from;
    while i < buf.len()
        invariant
            from <= i <= buf@.len(),
            v@ == buf@.subrange(from as int, i as int),
        decreases buf@.len() - i,
    {
        v.push(buf[i]);
        i = i + 1;
        assert(v@ =~= buf@.subrange(from as int, i as int));
    }
    proof {
        assert(v@ =~= buf@.skip(from as int));
    }
    v
}

// ---------------------------------------------------------------------------
// Positional reads of encoded values: reading where an image was written
// yields the value written. These compose into the codec round trips.
// ---------------------------------------------------------------------------

pub proof fn lemma_read_u8_at(s: Seq<u8>, pos: int, x: u8)
    requires
        0 <= pos,
        pos + 1 <= s.len(),
        s[pos] == x,
    ensures
        spec_read_u8(s, pos) == Some((x, pos + 1)),
{
}

pub proof fn lemma_read_i32_at(s: Seq<u8>, pos: int, x: i32)
    requires
        0 <= pos,
        pos + 4 <= s.len(),
        s.subrange(pos, pos + 4) == spec_be_i32(x),
    ensures
        spec_read_i32(s, pos) == Some((x, pos + 4)),
{
    lemma_i32_be_round_trip(x);
}

pub proof fn lemma_read_i64_at(s: Seq<u8>, pos: int, x: i64)
    requires
        0 <= pos,
        pos + 8 <= s.len(),
        s.subrange(pos, pos + 8) == spec_be_i64(x),
    ensures
        spec_read_i64(s, pos) == Some((x, pos + 8)),
{
    lemma_i64_be_round_trip(x);
}

pub proof fn lemma_read_buffer_at(s: Seq<u8>, pos: int, data: Seq<u8>)
    requires
        0 <= pos,
        data.len() <= i32::MAX,
        pos + 4 + data.len() <= s.len(),
        s.subrange(pos, pos + 4 + data.len()) == spec_buffer(data),
    ensures
        spec_read_buffer(s, pos) == Some((data, pos + 4 + data.len())),
{
    let len = data.len() as i32;
    assert(s.subrange(pos, pos + 4) =~= spec_buffer(data).subrange(0, 4));
    assert(spec_buffer(data).subrange(0, 4) =~= spec_be_i32(len));
    lemma_read_i32_at(s, pos, len);
    assert(s.subrange(pos + 4, pos + 4 + data.len()) =~= spec_buffer(data).subrange(
        4,
        4 + data.len() as int,
    ));
    assert(spec_buffer(data).subrange(4, 4 + data.len() as int) =~= data);
}

pub proof fn lemma_read_string_at(s: Seq<u8>, pos: int, chars: Seq<char>)
    requires
        0 <= pos,
        encode_utf8(chars).len() <= i32::MAX,
        pos + 4 + encode_utf8(chars).len() <= s.len(),
        s.subrange(pos, pos + 4 + encode_utf8(chars).len()) == spec_string(chars),
    ensures
        spec_read_string(s, pos) == Some((chars, pos + 4 + encode_utf8(chars).len())),
{
    broadcast use vstd::utf8::encode_utf8_valid_utf8, vstd::utf8::encode_utf8_decode_utf8;

    lemma_read_buffer_at(s, pos, encode_utf8(chars));
}

} // verus!
