//! Frames: a payload behind its length, which is written as four bytes, most
//! significant first. A frame above the limit is refused before its payload is
//! read, so a peer cannot make the reader set aside more than the limit.

use crate::text;
use vstd::prelude::*;
use vstd::string::*;

verus! {

/// How long a payload may be where no other limit is given.
pub const DEFAULT_MAX_PAYLOAD: usize = 67_108_864;

/// The bytes that stand in front of a payload of `n` bytes.
pub open spec fn length_bytes(n: nat) -> Seq<u8>
    recommends
        n <= u32::MAX,
{
    seq![
        (n / 0x100_0000) as u8,
        (n / 0x1_0000 % 0x100) as u8,
        (n / 0x100 % 0x100) as u8,
        (n % 0x100) as u8,
    ]
}

/// The length that four bytes announce.
pub open spec fn announced(b: Seq<u8>) -> nat {
    (b[0] * 0x100_0000 + b[1] * 0x1_0000 + b[2] * 0x100 + b[3]) as nat
}

/// The frame of a payload.
pub open spec fn framed(body: Seq<u8>) -> Seq<u8> {
    length_bytes(body.len()) + body
}

/// Why a frame is refused.
#[derive(Debug, Clone, Copy, PartialEq, Eq, Structural)]
pub enum FrameError {
    /// The frame announces more than the reader accepts.
    TooLarge { announced: usize, limit: usize },
    /// The payload is longer than four bytes can say.
    LengthOverflow,
}

/// What a frame error says.
pub open spec fn frame_error_text(e: FrameError) -> Seq<char> {
    match e {
        FrameError::TooLarge { announced, limit } => "frame too large: "@ + text::decimal(
            announced as nat,
        ) + " > "@ + text::decimal(limit as nat),
        FrameError::LengthOverflow => "payload exceeds u32 max"@,
    }
}

impl FrameError {
    /// The error in words.
    pub fn to_text(&self) -> (r: String)
        ensures
            r@ == frame_error_text(*self),
    {
        match self {
            FrameError::TooLarge { announced, limit } => {
                let n = text::to_decimal(*announced as u64);
                let m = text::to_decimal(*limit as u64);
                text::cat4("frame too large: ", n.as_str(), " > ", m.as_str())
            },
            FrameError::LengthOverflow => "payload exceeds u32 max".to_string(),
        }
    }
}

/// The length that a frame announces, where it is within the limit.
pub fn payload_length(header: &[u8; 4], max_payload: usize) -> (r: Result<usize, FrameError>)
    ensures
        r == length_accepted(header@, max_payload),
{
    let len: u32 = header[0] as u32 * 0x100_0000 + header[1] as u32 * 0x1_0000 + header[2] as u32
        * 0x100 + header[3] as u32;
    let n: usize = len as usize;
    assert(n == announced(header@));
    if n > max_payload {
        Err(FrameError::TooLarge { announced: n, limit: max_payload })
    } else {
        Ok(n)
    }
}

/// What can be read from a run of bytes.
#[derive(Debug, Clone, PartialEq, Eq)]
pub enum FrameRead {
    /// The bytes end before the frame does.
    Unfinished,
    /// A payload, and where the next frame starts.
    Payload { body: Vec<u8>, end: usize },
    /// The frame is refused.
    Refused(FrameError),
}

/// What a reader that accepts at most `limit` bytes takes from `bytes`.
pub open spec fn reads(bytes: Seq<u8>, limit: usize, r: FrameRead) -> bool {
    if bytes.len() < 4 {
        r is Unfinished
    } else if announced(bytes) > limit {
        r == FrameRead::Refused(
            FrameError::TooLarge { announced: announced(bytes) as usize, limit },
        )
    } else if bytes.len() < 4 + announced(bytes) {
        r is Unfinished
    } else {
        &&& r is Payload
        &&& r->end == 4 + announced(bytes)
        &&& r->body@ == bytes.subrange(4, 4 + announced(bytes) as int)
    }
}

/// Reads the first frame of `bytes`, with a limit on its payload.
pub fn read_raw_frame_with_limit(bytes: &[u8], max_payload: usize) -> (r: FrameRead)
    ensures
        reads(bytes@, max_payload, r),
{
    if bytes.len() < 4 {
        return FrameRead::Unfinished;
    }
    let header: [u8; 4] = [bytes[0], bytes[1], bytes[2], bytes[3]];
    assert(announced(header@) == announced(bytes@));
    match payload_length(&header, max_payload) {
        Err(e) => FrameRead::Refused(e),
        Ok(n) => {
            if bytes.len() - 4 < n {
                return FrameRead::Unfinished;
            }
            let mut body: Vec<u8> = Vec::new();
            let mut i: usize = 0;
            while i < n
                invariant
                    i <= n,
                    n <= bytes.len() - 4,
                    body@ == bytes@.subrange(4, 4 + i),
                decreases n - i,
            {
                body.push(bytes[4 + i]);
                i = i + 1;
                assert(bytes@.subrange(4, 4 + i) =~= bytes@.subrange(4, 3 + i).push(
                    bytes@[3 + i],
                ));
            }
            FrameRead::Payload { body, end: 4 + n }
        },
    }
}

/// Reads the first frame of `bytes`, with the default limit.
pub fn read_frame(bytes: &[u8]) -> (r: FrameRead)
    ensures
        reads(bytes@, DEFAULT_MAX_PAYLOAD, r),
{
    read_raw_frame_with_limit(bytes, DEFAULT_MAX_PAYLOAD)
}

/// Puts a payload behind its length.
pub fn write_raw_frame(body: &[u8]) -> (r: Result<Vec<u8>, FrameError>)
    ensures
        match r {
            Ok(f) => body@.len() <= u32::MAX && f@ == framed(body@),
            Err(e) => body@.len() > u32::MAX && e == FrameError::LengthOverflow,
        },
{
    let len = body.len();
    if len as u64 > 0xffff_ffff {
        return Err(FrameError::LengthOverflow);
    }
    let n: u32 = len as u32;
    let mut out: Vec<u8> = Vec::new();
    out.push((n / 0x100_0000) as u8);
    out.push((n / 0x1_0000 % 0x100) as u8);
    out.push((n / 0x100 % 0x100) as u8);
    out.push((n % 0x100) as u8);
    assert(out@ =~= length_bytes(body@.len()));
    let mut i: usize = 0;
    while i < len
        invariant
            i <= len,
            len == body.len(),
            out@ == length_bytes(body@.len()) + body@.take(i as int),
        decreases len - i,
    {
        out.push(body[i]);
        i = i + 1;
        assert(body@.take(i as int) =~= body@.take(i - 1).push(body@[i - 1]));
        assert(out@ =~= length_bytes(body@.len()) + body@.take(i as int));
    }
    assert(body@.take(len as int) =~= body@);
    Ok(out)
}

proof fn lemma_length_round_trip(n: nat)
    requires
        n <= u32::MAX,
    ensures
        announced(length_bytes(n)) == n,
        length_bytes(n).len() == 4,
{
}

/// What was written is read back: of a written frame, whatever follows it, a
/// reader whose limit admits the payload gets the payload, and goes on behind
/// it.
pub proof fn lemma_frame_round_trip(body: Seq<u8>, rest: Seq<u8>, limit: usize, r: FrameRead)
    requires
        body.len() <= u32::MAX,
        body.len() <= limit,
        reads(framed(body) + rest, limit, r),
    ensures
        r is Payload,
        r->body@ == body,
        (framed(body) + rest).skip(r->end as int) == rest,
{
    lemma_length_round_trip(body.len());
    let bytes = framed(body) + rest;
    assert(bytes.take(4) =~= length_bytes(body.len()));
    assert forall|i: int| 0 <= i < 4 implies bytes[i] == length_bytes(body.len())[i] by {
        assert(bytes.take(4)[i] == bytes[i]);
    }
    assert(announced(bytes) == body.len());
    assert(bytes.subrange(4, 4 + body.len() as int) =~= body);
    assert(bytes.skip(4 + body.len() as int) =~= rest);
}

/// A frame that announces more than the limit is refused as soon as its length
/// is known, whatever follows.
pub proof fn lemma_oversize_is_refused(bytes: Seq<u8>, limit: usize, r: FrameRead)
    requires
        bytes.len() >= 4,
        announced(bytes) > limit,
        reads(bytes, limit, r),
    ensures
        r is Refused,
{
}

/// A length is written in four bytes, the most significant first; so a short
/// payload is announced in the last of them alone.
pub proof fn lemma_lengths_are_written_high_byte_first(n: nat)
    requires
        n <= u32::MAX,
    ensures
        length_bytes(n).len() == 4,
        announced(length_bytes(n)) == n,
        length_bytes(n)[3] == n % 0x100,
        length_bytes(n)[0] == n / 0x100_0000,
        n < 0x100 ==> length_bytes(n) == seq![0u8, 0u8, 0u8, n as u8],
{
    lemma_length_round_trip(n);
    if n < 0x100 {
        assert(length_bytes(n) =~= seq![0u8, 0u8, 0u8, n as u8]);
    }
}

/// A frame that is refused tells how much it announces and how much is accepted.
pub proof fn lemma_frame_errors_tell_sizes(announced: usize, limit: usize)
    ensures
        text::has_text(
            frame_error_text(FrameError::TooLarge { announced, limit }),
            text::decimal(announced as nat) + " > "@,
        ),
        text::ends(
            frame_error_text(FrameError::TooLarge { announced, limit }),
            text::decimal(limit as nat),
        ),
{
    let lead = "frame too large: "@;
    let a = text::decimal(announced as nat);
    let b = text::decimal(limit as nat);
    text::lemma_part_is_held(lead, a + " > "@, b);
    assert(lead + (a + " > "@) + b =~= lead + a + " > "@ + b);
    let t = lead + a + " > "@ + b;
    assert(t.subrange(t.len() - b.len(), t.len() as int) =~= b);
}

/// The length that a frame announces, where it is within the limit.
pub open spec fn length_accepted(header: Seq<u8>, max_payload: usize) -> Result<usize, FrameError> {
    if announced(header) > max_payload {
        Err(FrameError::TooLarge { announced: announced(header) as usize, limit: max_payload })
    } else {
        Ok(announced(header) as usize)
    }
}

/// A length that was written is read back where it is within the limit, the
/// limit included, and refused above it with both numbers.
pub proof fn lemma_lengths_up_to_the_limit_are_accepted(n: usize, max_payload: usize)
    requires
        n <= u32::MAX,
    ensures
        n <= max_payload ==> length_accepted(length_bytes(n as nat), max_payload) == Ok::<
            usize,
            FrameError,
        >(n),
        n > max_payload ==> length_accepted(length_bytes(n as nat), max_payload) == Err::<
            usize,
            FrameError,
        >(FrameError::TooLarge { announced: n, limit: max_payload }),
{
    lemma_lengths_are_written_high_byte_first(n as nat);
}

} // verus!
