//! Frame codec of the engine protocol, version 0:
//! `[u32 LE: payload length][u8: type][payload]`.

use vstd::prelude::*;

verus! {

pub const VERSION: u32 = 0;

// client -> engine
pub const HELLO: u8 = 0x01;
pub const START: u8 = 0x02;
pub const AUDIO: u8 = 0x03;
pub const STOP: u8 = 0x04;

// engine -> client
pub const READY: u8 = 0x81;
pub const PARTIAL: u8 = 0x82;
pub const COMMIT: u8 = 0x83;
pub const STOPPED: u8 = 0x84;
pub const ERROR: u8 = 0xFF;

/// Upper bound on a payload accepted by the reader, so that a corrupt
/// length field cannot make it allocate without limit.
pub const MAX_PAYLOAD: u32 = 16777216;

/// Length of the fixed header: four length bytes and one type byte.
pub const HEADER_LEN: usize = 5;

/// One decoded frame.
#[derive(Debug, PartialEq, Eq)]
pub struct Frame {
    pub kind: u8,
    pub payload: Vec<u8>,
}

/// Why a frame could not be written or read.
#[derive(Debug, Clone, Copy, PartialEq, Eq)]
pub enum FrameError {
    /// The input ended before the header or the payload was complete.
    UnexpectedEof,
    /// The header announces a payload longer than `MAX_PAYLOAD`.
    PayloadTooLarge,
    /// The payload is too long for the 32-bit length field.
    LengthOverflow,
}

/// Little-endian encoding of a 32-bit length.
pub open spec fn le_u32_bytes(n: nat) -> Seq<u8> {
    seq![
        (n % 256) as u8,
        ((n / 256) % 256) as u8,
        ((n / 65536) % 256) as u8,
        ((n / 16777216) % 256) as u8,
    ]
}

/// Value of four little-endian bytes.
pub open spec fn le_u32_value(b: Seq<u8>) -> nat {
    (b[0] + 256 * b[1] + 65536 * b[2] + 16777216 * b[3]) as nat
}

/// The bytes of one frame on the wire.
pub open spec fn frame_bytes(kind: u8, payload: Seq<u8>) -> Seq<u8> {
    le_u32_bytes(payload.len()) + seq![kind] + payload
}

/// What reading one frame from the front of `s` gives: the type, the
/// payload and the number of bytes consumed, or the error.
pub open spec fn decode_frame(s: Seq<u8>) -> Result<(u8, Seq<u8>, nat), FrameError> {
    if s.len() < 5 {
        Err(FrameError::UnexpectedEof)
    } else {
        let len = le_u32_value(s);
        if len > MAX_PAYLOAD {
            Err(FrameError::PayloadTooLarge)
        } else if s.len() < 5 + len {
            Err(FrameError::UnexpectedEof)
        } else {
            Ok((s[4], s.subrange(5, 5 + len as int), (5 + len) as nat))
        }
    }
}

proof fn lemma_le_u32_value_of_bytes(n: nat)
    requires
        n <= u32::MAX,
    ensures
        le_u32_value(le_u32_bytes(n)) == n,
{
    let b = le_u32_bytes(n);
    assert(b[0] == n % 256);
    assert(b[1] == (n / 256) % 256);
    assert(b[2] == (n / 65536) % 256);
    assert(b[3] == (n / 16777216) % 256);
    assert((n % 256) + 256 * ((n / 256) % 256) + 65536 * ((n / 65536) % 256) + 16777216 * ((n
        / 16777216) % 256) == n) by (nonlinear_arith)
        requires
            n <= 4294967295,
    ;
}

/// Reading a frame back from the bytes that `write_frame` appended gives the
/// same type and payload, and consumes exactly the frame, whatever follows.
pub proof fn lemma_frame_roundtrip(kind: u8, payload: Seq<u8>, rest: Seq<u8>)
    requires
        payload.len() <= MAX_PAYLOAD,
    ensures
        decode_frame(frame_bytes(kind, payload) + rest) == Ok::<(u8, Seq<u8>, nat), FrameError>(
            (kind, payload, (5 + payload.len()) as nat),
        ),
{
    let s = frame_bytes(kind, payload) + rest;
    lemma_le_u32_value_of_bytes(payload.len());
    assert(s[0] == le_u32_bytes(payload.len())[0]);
    assert(s[1] == le_u32_bytes(payload.len())[1]);
    assert(s[2] == le_u32_bytes(payload.len())[2]);
    assert(s[3] == le_u32_bytes(payload.len())[3]);
    assert(s[4] == kind);
    assert(s.subrange(5, 5 + payload.len() as int) =~= payload);
}

/// Appends the frame `[len LE][kind][payload]` to `w`.
pub fn write_frame(w: &mut Vec<u8>, kind: u8, payload: &[u8]) -> (res: Result<(), FrameError>)
    ensures
        payload@.len() <= u32::MAX ==> res is Ok && final(w)@ == old(w)@ + frame_bytes(kind, payload@),
        payload@.len() > u32::MAX ==> res == Err::<(), FrameError>(FrameError::LengthOverflow)
            && final(w)@ == old(w)@,
{
    if payload.len() > 0xFFFF_FFFF {
        return Err(FrameError::LengthOverflow);
    }
    let n = payload.len();
    let ghost before = w@;
    w.push((n % 256) as u8);
    w.push(((n / 256) % 256) as u8);
    w.push(((n / 65536) % 256) as u8);
    w.push(((n / 16777216) % 256) as u8);
    w.push(kind);
    let mut i: usize = 0;
    while i < n
        invariant
            n == payload@.len(),
            i <= n,
            w@ == before + le_u32_bytes(n as nat) + seq![kind] + payload@.take(i as int),
        decreases n - i,
    {
        w.push(payload[i]);
        i = i + 1;
        assert(payload@.take(i as int) == payload@.take((i - 1) as int).push(payload@[i - 1]));
    }
    assert(payload@.take(n as int) == payload@);
    Ok(())
}

/// Decodes the fixed five-byte header into the frame type and the payload
/// length, refusing lengths above `MAX_PAYLOAD`.
pub fn decode_header(header: &[u8]) -> (res: Result<(u8, u32), FrameError>)
    requires
        header@.len() == HEADER_LEN,
    ensures
        le_u32_value(header@) <= MAX_PAYLOAD ==> res == Ok::<(u8, u32), FrameError>(
            (header@[4], le_u32_value(header@) as u32),
        ),
        le_u32_value(header@) > MAX_PAYLOAD ==> res == Err::<(u8, u32), FrameError>(
            FrameError::PayloadTooLarge,
        ),
{
    let len: u32 = header[0] as u32 + 256 * (header[1] as u32) + 65536 * (header[2] as u32)
        + 16777216 * (header[3] as u32);
    if len > MAX_PAYLOAD {
        Err(FrameError::PayloadTooLarge)
    } else {
        Ok((header[4], len))
    }
}

/// An in-memory source of frames: a byte buffer and the position of the
/// next unread byte.
pub struct FrameReader {
    data: Vec<u8>,
    pos: usize,
}

impl FrameReader {
    #[verifier::type_invariant]
    spec fn position_in_bounds(self) -> bool {
        self.pos <= self.data@.len()
    }

    /// The bytes not read yet.
    pub closed spec fn remaining(self) -> Seq<u8> {
        self.data@.skip(self.pos as int)
    }

    /// A reader positioned at the first byte of `data`.
    pub fn new(data: Vec<u8>) -> (r: Self)
        ensures
            r.remaining() == data@,
    {
        let r = FrameReader { data, pos: 0 };
        assert(r.data@.skip(0) == r.data@);
        r
    }

    /// Number of bytes not read yet.
    pub fn remaining_len(&self) -> (n: usize)
        ensures
            n == self.remaining().len(),
    {
        proof {
            use_type_invariant(self);
        }
        self.data.len() - self.pos
    }
}

/// Reads one frame from the front of the reader. On success the reader
/// moves past the frame; on failure it is left as it was.
pub fn read_frame(r: &mut FrameReader) -> (res: Result<Frame, FrameError>)
    ensures
        match decode_frame(old(r).remaining()) {
            Ok((kind, payload, used)) => {
                &&& res matches Ok(f)
                &&& f.kind == kind
                &&& f.payload@ == payload
                &&& final(r).remaining() == old(r).remaining().skip(used as int)
            },
            Err(e) => res == Err::<Frame, FrameError>(e) && final(r).remaining() == old(
                r,
            ).remaining(),
        },
{
    proof {
        use_type_invariant(&*r);
    }
    let ghost rest = r.remaining();
    let start = r.pos;
    let avail = r.data.len() - start;
    if avail < HEADER_LEN {
        return Err(FrameError::UnexpectedEof);
    }
    let mut header: Vec<u8> = Vec::new();
    let mut i: usize = 0;
    while i < HEADER_LEN
        invariant
            i <= HEADER_LEN,
            start + HEADER_LEN <= r.data.len(),
            header@ == r.data@.subrange(start as int, start + i),
        decreases HEADER_LEN - i,
    {
        header.push(r.data[start + i]);
        i = i + 1;
    }
    assert(header@ =~= rest.take(5));
    let (kind, len) = match decode_header(header.as_slice()) {
        Ok(h) => h,
        Err(e) => return Err(e),
    };
    let len = len as usize;
    if avail - HEADER_LEN < len {
        return Err(FrameError::UnexpectedEof);
    }
    let mut payload: Vec<u8> = Vec::new();
    let base = start + HEADER_LEN;
    let mut j: usize = 0;
    while j < len
        invariant
            j <= len,
            base + len <= r.data.len(),
            payload@ == r.data@.subrange(base as int, base + j),
        decreases len - j,
    {
        payload.push(r.data[base + j]);
        j = j + 1;
    }
    r.pos = base + len;
    assert(payload@ =~= rest.subrange(5, 5 + len as int));
    assert(r.data@.skip(r.pos as int) =~= rest.skip(5 + len as int));
    Ok(Frame { kind, payload })
}

} // verus!
