use vstd::prelude::*;
use crate::element::{Element, ElementModel, Record, RecordModel, StreamStatus};

verus! {

/// The four bytes of `n`, most significant first.
pub open spec fn be32(n: u32) -> Seq<u8> {
    seq![(n >> 24u32) as u8, (n >> 16u32) as u8, (n >> 8u32) as u8, n as u8]
}

/// The eight bytes of `n`, most significant first.
pub open spec fn be64(n: u64) -> Seq<u8> {
    seq![
        (n >> 56u64) as u8,
        (n >> 48u64) as u8,
        (n >> 40u64) as u8,
        (n >> 32u64) as u8,
        (n >> 24u64) as u8,
        (n >> 16u64) as u8,
        (n >> 8u64) as u8,
        n as u8,
    ]
}

/// The number that the four bytes at `i` of `b` spell, most significant
/// first.
pub open spec fn read32(b: Seq<u8>, i: int) -> u32 {
    ((b[i] as u32) << 24u32) | ((b[i + 1] as u32) << 16u32) | ((b[i + 2] as u32) << 8u32) | (b[i
        + 3] as u32)
}

/// The number that the eight bytes at `i` of `b` spell, most significant
/// first.
pub open spec fn read64(b: Seq<u8>, i: int) -> u64 {
    ((read32(b, i) as u64) << 32u64) | (read32(b, i + 4) as u64)
}

pub proof fn lemma_read32_be32(n: u32)
    ensures
        read32(be32(n), 0) == n,
{
    let b = be32(n);
    assert(b[0] == (n >> 24u32) as u8);
    assert(b[1] == (n >> 16u32) as u8);
    assert(b[2] == (n >> 8u32) as u8);
    assert(b[3] == n as u8);
    assert(((((n >> 24u32) as u8) as u32) << 24u32) | ((((n >> 16u32) as u8) as u32) << 16u32) | ((((n
        >> 8u32) as u8) as u32) << 8u32) | ((n as u8) as u32) == n) by (bit_vector);
}

pub proof fn lemma_read64_be64(n: u64)
    ensures
        read64(be64(n), 0) == n,
{
    let b = be64(n);
    let hi = read32(b, 0);
    let lo = read32(b, 4);
    assert(hi == ((((n >> 56u64) as u8) as u32) << 24u32) | ((((n >> 48u64) as u8) as u32) << 16u32)
        | ((((n >> 40u64) as u8) as u32) << 8u32) | (((n >> 32u64) as u8) as u32));
    assert(lo == ((((n >> 24u64) as u8) as u32) << 24u32) | ((((n >> 16u64) as u8) as u32) << 16u32)
        | ((((n >> 8u64) as u8) as u32) << 8u32) | ((n as u8) as u32));
    assert((((((((n >> 56u64) as u8) as u32) << 24u32) | ((((n >> 48u64) as u8) as u32) << 16u32)
        | ((((n >> 40u64) as u8) as u32) << 8u32) | (((n >> 32u64) as u8) as u32)) as u64) << 32u64)
        | ((((((n >> 24u64) as u8) as u32) << 24u32) | ((((n >> 16u64) as u8) as u32) << 16u32) | ((((n
        >> 8u64) as u8) as u32) << 8u32) | ((n as u8) as u32)) as u64) == n) by (bit_vector);
}

/// Reading four bytes at `i` gives back the number whose bytes stand there.
pub proof fn lemma_read32_at(s: Seq<u8>, i: int, n: u32)
    requires
        0 <= i,
        i + 4 <= s.len(),
        s.subrange(i, i + 4) == be32(n),
    ensures
        read32(s, i) == n,
{
    let b = be32(n);
    assert(s[i] == s.subrange(i, i + 4)[0]);
    assert(s[i + 1] == s.subrange(i, i + 4)[1]);
    assert(s[i + 2] == s.subrange(i, i + 4)[2]);
    assert(s[i + 3] == s.subrange(i, i + 4)[3]);
    lemma_read32_be32(n);
}

/// Reading eight bytes at `i` gives back the number whose bytes stand there.
pub proof fn lemma_read64_at(s: Seq<u8>, i: int, n: u64)
    requires
        0 <= i,
        i + 8 <= s.len(),
        s.subrange(i, i + 8) == be64(n),
    ensures
        read64(s, i) == n,
{
    let b = be64(n);
    assert forall|j: int| 0 <= j < 8 implies s[i + j] == #[trigger] b[j] by {
        assert(s[i + j] == s.subrange(i, i + 8)[j]);
    }
    assert(read32(s, i) == read32(b, 0));
    assert(read32(s, i + 4) == read32(b, 4));
    lemma_read64_be64(n);
}

pub const KIND_RECORD: u8 = 1;

pub const KIND_WATERMARK: u8 = 2;

pub const KIND_BARRIER: u8 = 3;

pub const KIND_STREAM_STATUS: u8 = 4;

pub open spec fn key_bytes(r: RecordModel) -> Seq<u8> {
    match r.key {
        Some(k) => k,
        None => Seq::empty(),
    }
}

pub open spec fn status_byte(s: StreamStatus) -> u8 {
    match s {
        StreamStatus::Idle => 0,
        StreamStatus::Active => 1,
    }
}

/// The kind byte of a frame.
pub open spec fn kind_of(e: ElementModel) -> u8 {
    match e {
        ElementModel::Record(_) => KIND_RECORD,
        ElementModel::Watermark(_) => KIND_WATERMARK,
        ElementModel::Barrier(_) => KIND_BARRIER,
        ElementModel::StreamStatus(_) => KIND_STREAM_STATUS,
    }
}

/// The bytes after the kind byte: a record is its timestamp, its key and
/// its body, each of the latter two after its length; a watermark and a
/// barrier are eight bytes; a status is one.
pub open spec fn payload_of(e: ElementModel) -> Seq<u8> {
    match e {
        ElementModel::Record(r) => be64(r.timestamp as u64) + be32(key_bytes(r).len() as u32)
            + key_bytes(r) + be32(r.body.len() as u32) + r.body,
        ElementModel::Watermark(t) => be64(t as u64),
        ElementModel::Barrier(c) => be64(c),
        ElementModel::StreamStatus(s) => seq![status_byte(s)],
    }
}

/// The frame of an element: the length of what follows, the kind byte and
/// the payload.
pub open spec fn frame_of(e: ElementModel) -> Seq<u8> {
    be32((1 + payload_of(e).len()) as u32) + seq![kind_of(e)] + payload_of(e)
}

/// Whether every length in the frame of `e` fits its four bytes.
pub open spec fn encodable(e: ElementModel) -> bool {
    match e {
        ElementModel::Record(r) => 17 + key_bytes(r).len() + r.body.len() <= u32::MAX,
        _ => true,
    }
}

/// Whether `e` is the one element its frame stands for: an empty key and no
/// key travel alike, as no key.
pub open spec fn canonical(e: ElementModel) -> bool {
    match e {
        ElementModel::Record(r) => r.key != Some(Seq::<u8>::empty()),
        _ => true,
    }
}

/// Why bytes are no frame.
#[derive(Clone, Copy, Debug, PartialEq, Eq, Structural)]
pub enum FrameError {
    /// Fewer than the five bytes of a length and a kind.
    TooShort,
    /// The length field disagrees with the number of bytes that follow it.
    LengthMismatch,
    /// The kind byte names no element.
    UnknownKind,
    /// The payload does not have the layout its kind asks for.
    BadPayload,
}

/// The element a payload of the given kind stands for, if it has that
/// kind's layout.
pub open spec fn parse_payload(kind: u8, p: Seq<u8>) -> Option<ElementModel> {
    if kind == KIND_RECORD {
        if p.len() < 16 {
            None
        } else {
            let klen = read32(p, 8) as int;
            if p.len() < 16 + klen {
                None
            } else {
                let blen = read32(p, 12 + klen) as int;
                if p.len() != 16 + klen + blen {
                    None
                } else {
                    Some(
                        ElementModel::Record(
                            RecordModel {
                                timestamp: read64(p, 0) as i64,
                                key: if klen == 0 {
                                    None
                                } else {
                                    Some(p.subrange(12, 12 + klen))
                                },
                                body: p.subrange(16 + klen, p.len() as int),
                            },
                        ),
                    )
                }
            }
        }
    } else if kind == KIND_WATERMARK {
        if p.len() == 8 {
            Some(ElementModel::Watermark(read64(p, 0) as i64))
        } else {
            None
        }
    } else if kind == KIND_BARRIER {
        if p.len() == 8 {
            Some(ElementModel::Barrier(read64(p, 0)))
        } else {
            None
        }
    } else if kind == KIND_STREAM_STATUS {
        if p.len() == 1 && p[0] == 0 {
            Some(ElementModel::StreamStatus(StreamStatus::Idle))
        } else if p.len() == 1 && p[0] == 1 {
            Some(ElementModel::StreamStatus(StreamStatus::Active))
        } else {
            None
        }
    } else {
        None
    }
}

/// What a run of bytes decodes to: an element, or why it is no frame.
pub open spec fn parse_frame(b: Seq<u8>) -> Result<ElementModel, FrameError> {
    if b.len() < 5 {
        Err(FrameError::TooShort)
    } else if b.len() != 4 + read32(b, 0) {
        Err(FrameError::LengthMismatch)
    } else if !(KIND_RECORD <= b[4] <= KIND_STREAM_STATUS) {
        Err(FrameError::UnknownKind)
    } else {
        match parse_payload(b[4], b.subrange(5, b.len() as int)) {
            Some(e) => Ok(e),
            None => Err(FrameError::BadPayload),
        }
    }
}

proof fn lemma_i64_round_trip(t: i64)
    ensures
        (t as u64) as i64 == t,
{
    assert((t as u64) as i64 == t) by (bit_vector);
}

/// Decoding the frame of an element gives the element back.
pub proof fn lemma_frame_round_trip(e: ElementModel)
    requires
        encodable(e),
        canonical(e),
    ensures
        parse_frame(frame_of(e)) == Ok::<ElementModel, FrameError>(e),
{
    let p = payload_of(e);
    let len = (1 + p.len()) as u32;
    let b = frame_of(e);
    assert(b.subrange(0, 4) =~= be32(len));
    lemma_read32_at(b, 0, len);
    assert(b[4] == kind_of(e));
    assert(b.subrange(5, b.len() as int) =~= p);
    match e {
        ElementModel::Record(r) => {
            let k = key_bytes(r);
            let kl = k.len() as int;
            assert(p.subrange(0, 8) =~= be64(r.timestamp as u64));
            lemma_read64_at(p, 0, r.timestamp as u64);
            lemma_i64_round_trip(r.timestamp);
            assert(p.subrange(8, 12) =~= be32(k.len() as u32));
            lemma_read32_at(p, 8, k.len() as u32);
            assert(p.subrange(12 + kl, 16 + kl) =~= be32(r.body.len() as u32));
            lemma_read32_at(p, 12 + kl, r.body.len() as u32);
            assert(p.subrange(12, 12 + kl) =~= k);
            assert(p.subrange(16 + kl, p.len() as int) =~= r.body);
            if k.len() == 0 {
                assert(k =~= Seq::<u8>::empty());
            }
        },
        ElementModel::Watermark(t) => {
            assert(p.subrange(0, 8) =~= be64(t as u64));
            lemma_read64_at(p, 0, t as u64);
            lemma_i64_round_trip(t);
        },
        ElementModel::Barrier(c) => {
            assert(p.subrange(0, 8) =~= be64(c));
            lemma_read64_at(p, 0, c);
        },
        ElementModel::StreamStatus(s) => {},
    }
}

proof fn lemma_read32_shift(b: Seq<u8>, off: int, j: int)
    requires
        0 <= off <= b.len(),
        0 <= j,
        off + j + 4 <= b.len(),
    ensures
        read32(b.subrange(off, b.len() as int), j) == read32(b, off + j),
{
    let p = b.subrange(off, b.len() as int);
    assert(p[j] == b[off + j]);
    assert(p[j + 1] == b[off + j + 1]);
    assert(p[j + 2] == b[off + j + 2]);
    assert(p[j + 3] == b[off + j + 3]);
}

proof fn lemma_read64_shift(b: Seq<u8>, off: int, j: int)
    requires
        0 <= off <= b.len(),
        0 <= j,
        off + j + 8 <= b.len(),
    ensures
        read64(b.subrange(off, b.len() as int), j) == read64(b, off + j),
{
    lemma_read32_shift(b, off, j);
    lemma_read32_shift(b, off, j + 4);
}

fn push_be32(out: &mut Vec<u8>, n: u32)
    ensures
        final(out)@ == old(out)@ + be32(n),
{
    out.push((n >> 24u32) as u8);
    out.push((n >> 16u32) as u8);
    out.push((n >> 8u32) as u8);
    out.push(n as u8);
    proof {
        assert(final(out)@ =~= old(out)@ + be32(n));
    }
}

fn push_be64(out: &mut Vec<u8>, n: u64)
    ensures
        final(out)@ == old(out)@ + be64(n),
{
    out.push((n >> 56u64) as u8);
    out.push((n >> 48u64) as u8);
    out.push((n >> 40u64) as u8);
    out.push((n >> 32u64) as u8);
    out.push((n >> 24u64) as u8);
    out.push((n >> 16u64) as u8);
    out.push((n >> 8u64) as u8);
    out.push(n as u8);
    proof {
        assert(final(out)@ =~= old(out)@ + be64(n));
    }
}

fn push_all(out: &mut Vec<u8>, b: &Vec<u8>)
    ensures
        final(out)@ == old(out)@ + b@,
{
    let mut i: usize = 0;
    while i < b.len()
        invariant
            i <= b@.len(),
            out@ == old(out)@ + b@.subrange(0, i as int),
        decreases b@.len() - i,
    {
        out.push(b[i]);
        i = i + 1;
        proof {
            assert(out@ =~= old(out)@ + b@.subrange(0, i as int));
        }
    }
    proof {
        assert(b@.subrange(0, b@.len() as int) =~= b@);
    }
}

fn copy_range(b: &Vec<u8>, from: usize, to: usize) -> (r: Vec<u8>)
    requires
        from <= to <= b@.len(),
    ensures
        r@ == b@.subrange(from as int, to as int),
{
    let mut out: Vec<u8> = Vec::new();
    let mut i: usize = from;
    while i < to
        invariant
            from <= i <= to <= b@.len(),
            out@ == b@.subrange(from as int, i as int),
        decreases to - i,
    {
        out.push(b[i]);
        i = i + 1;
        proof {
            assert(out@ =~= b@.subrange(from as int, i as int));
        }
    }
    out
}

fn read32_at(b: &Vec<u8>, i: usize) -> (r: u32)
    requires
        i + 4 <= b@.len(),
    ensures
        r == read32(b@, i as int),
{
    let n = b.len();
    assert(i + 4 <= n);
    ((b[i] as u32) << 24u32) | ((b[i + 1] as u32) << 16u32) | ((b[i + 2] as u32) << 8u32) | (b[i
        + 3] as u32)
}

fn read64_at(b: &Vec<u8>, i: usize) -> (r: u64)
    requires
        i + 8 <= b@.len(),
    ensures
        r == read64(b@, i as int),
{
    let n = b.len();
    assert(i + 8 <= n);
    ((read32_at(b, i) as u64) << 32u64) | (read32_at(b, i + 4) as u64)
}

/// Frames an element for the network; `None` when a key or body is too
/// long for its length field.
pub fn encode_element(e: &Element) -> (r: Option<Vec<u8>>)
    ensures
        r is Some <==> encodable(e@),
        r matches Some(v) ==> v@ == frame_of(e@),
{
    let mut payload: Vec<u8> = Vec::new();
    let kind: u8 = match e {
        Element::Record(rec) => {
            let empty: Vec<u8> = Vec::new();
            let key: &Vec<u8> = match &rec.key {
                Some(k) => k,
                None => &empty,
            };
            proof {
                assert(key@ == key_bytes(rec@));
            }
            if key.len() > 0xffff_ffff - 17 || rec.body.len() > 0xffff_ffff - 17 - key.len() {
                return None;
            }
            push_be64(&mut payload, rec.timestamp as u64);
            push_be32(&mut payload, key.len() as u32);
            push_all(&mut payload, key);
            push_be32(&mut payload, rec.body.len() as u32);
            push_all(&mut payload, &rec.body);
            KIND_RECORD
        },
        Element::Watermark(t) => {
            push_be64(&mut payload, *t as u64);
            KIND_WATERMARK
        },
        Element::Barrier(c) => {
            push_be64(&mut payload, *c);
            KIND_BARRIER
        },
        Element::StreamStatus(s) => {
            let b: u8 = match s {
                StreamStatus::Idle => 0,
                StreamStatus::Active => 1,
            };
            payload.push(b);
            proof {
                assert(payload@ =~= seq![status_byte(*s)]);
            }
            KIND_STREAM_STATUS
        },
    };
    proof {
        assert(payload@ =~= payload_of(e@));
        assert(kind == kind_of(e@));
    }
    let mut out: Vec<u8> = Vec::new();
    push_be32(&mut out, (1 + payload.len()) as u32);
    out.push(kind);
    push_all(&mut out, &payload);
    proof {
        assert(out@ =~= frame_of(e@));
    }
    Some(out)
}

/// Decodes one frame.
pub fn decode_frame(bytes: &Vec<u8>) -> (r: Result<Element, FrameError>)
    ensures
        match parse_frame(bytes@) {
            Ok(m) => r is Ok && r->Ok_0@ == m,
            Err(x) => r == Err::<Element, FrameError>(x),
        },
{
    let n = bytes.len();
    if n < 5 {
        return Err(FrameError::TooShort);
    }
    let len = read32_at(bytes, 0);
    if n as u64 != 4 + len as u64 {
        return Err(FrameError::LengthMismatch);
    }
    let kind = bytes[4];
    if !(KIND_RECORD <= kind && kind <= KIND_STREAM_STATUS) {
        return Err(FrameError::UnknownKind);
    }
    let ghost b = bytes@;
    let ghost p = b.subrange(5, b.len() as int);
    let plen = n - 5;
    if kind == KIND_RECORD {
        if plen < 16 {
            return Err(FrameError::BadPayload);
        }
        let klen = read32_at(bytes, 13) as usize;
        proof {
            lemma_read32_shift(b, 5, 8);
        }
        if (plen as u64) < 16 + (klen as u64) {
            return Err(FrameError::BadPayload);
        }
        let blen = read32_at(bytes, 17 + klen) as usize;
        proof {
            lemma_read32_shift(b, 5, 12 + klen);
        }
        if (plen as u64) != 16 + (klen as u64) + (blen as u64) {
            return Err(FrameError::BadPayload);
        }
        let ts = #[verifier::truncate] (read64_at(bytes, 5) as i64);
        proof {
            lemma_read64_shift(b, 5, 0);
        }
        let key = if klen == 0 {
            None
        } else {
            Some(copy_range(bytes, 17, 17 + klen))
        };
        let body = copy_range(bytes, 21 + klen, n);
        proof {
            assert(b.subrange(17, 17 + klen) =~= p.subrange(12, 12 + klen));
            assert(b.subrange(21 + klen, n as int) =~= p.subrange(16 + klen, p.len() as int));
        }
        Ok(Element::Record(Record { timestamp: ts, key, body }))
    } else if kind == KIND_WATERMARK || kind == KIND_BARRIER {
        if plen != 8 {
            return Err(FrameError::BadPayload);
        }
        let v = read64_at(bytes, 5);
        proof {
            lemma_read64_shift(b, 5, 0);
        }
        if kind == KIND_WATERMARK {
            Ok(Element::Watermark(#[verifier::truncate] (v as i64)))
        } else {
            Ok(Element::Barrier(v))
        }
    } else {
        if plen != 1 {
            return Err(FrameError::BadPayload);
        }
        proof {
            assert(p[0] == b[5]);
        }
        if bytes[5] == 0 {
            Ok(Element::StreamStatus(StreamStatus::Idle))
        } else if bytes[5] == 1 {
            Ok(Element::StreamStatus(StreamStatus::Active))
        } else {
            Err(FrameError::BadPayload)
        }
    }
}

} // verus!
