//! Frames: messages on a stream, each behind its length in four bytes, the
//! highest first.

use crate::numeral::{decimal, to_decimal};
use crate::text::concat;
use vstd::prelude::*;

verus! {

/// The most bytes of a message.
pub const MAX_FRAME: u32 = 16777216;

/// A length in four bytes, the highest first.
pub open spec fn length_bytes(n: nat) -> Seq<u8> {
    seq![
        (n / 16777216) as u8,
        ((n / 65536) % 256) as u8,
        ((n / 256) % 256) as u8,
        (n % 256) as u8,
    ]
}

/// The length that four bytes give, the highest first.
pub open spec fn bytes_length(b: Seq<u8>) -> nat {
    (b[0] as nat) * 16777216 + (b[1] as nat) * 65536 + (b[2] as nat) * 256 + (b[3] as nat)
}

/// A message in its frame.
pub open spec fn framed(data: Seq<u8>) -> Seq<u8> {
    length_bytes(data.len()) + data
}

/// A message that is too long, and how long it is as far as four bytes can
/// say.
pub struct FrameError {
    pub len: u32,
}

/// The length that is said of a message.
pub open spec fn said_length(n: nat) -> u32 {
    if n > u32::MAX {
        u32::MAX
    } else {
        n as u32
    }
}

impl FrameError {
    /// What is said of it.
    pub open spec fn saying(self) -> Seq<char> {
        "hub frame too large: "@ + decimal(self.len as nat) + " (max 16777216)"@
    }

    /// What is said of it.
    pub fn text(&self) -> (r: String)
        ensures
            r@ == self.saying(),
    {
        let mut out: String = concat("hub frame too large: ", to_decimal(self.len as u64).as_str());
        out.push_str(" (max 16777216)");
        out
    }
}

/// The four bytes that stand before a message of a length.
fn header(n: u32) -> (r: Vec<u8>)
    ensures
        r@ == length_bytes(n as nat),
{
    let mut out: Vec<u8> = Vec::new();
    out.push((n / 16777216) as u8);
    out.push(((n / 65536) % 256) as u8);
    out.push(((n / 256) % 256) as u8);
    out.push((n % 256) as u8);
    proof {
        assert(out@ =~= length_bytes(n as nat));
    }
    out
}

/// A message in its frame, if it is not too long for one.
pub fn write_frame(data: &Vec<u8>) -> (r: Result<Vec<u8>, FrameError>)
    ensures
        match r {
            Ok(b) => data@.len() <= MAX_FRAME && b@ == framed(data@),
            Err(e) => data@.len() > MAX_FRAME && e.len == said_length(data@.len()),
        },
{
    if data.len() > 16777216 {
        let len: u32 = if data.len() > 4294967295 {
            u32::MAX
        } else {
            data.len() as u32
        };
        return Err(FrameError { len });
    }
    let mut out: Vec<u8> = header(data.len() as u32);
    let ghost head = out@;
    let mut i: usize = 0;
    while i < data.len()
        invariant
            i <= data@.len(),
            out@ == head + data@.take(i as int),
        decreases data@.len() - i,
    {
        out.push(data[i]);
        proof {
            assert(out@ =~= head + data@.take(i + 1));
        }
        i = i + 1;
    }
    proof {
        assert(data@.take(i as int) =~= data@);
    }
    Ok(out)
}

/// The length of the message that a frame's four bytes announce, if it is not
/// too long.
pub fn frame_len(a: u8, b: u8, c: u8, d: u8) -> (r: Result<u32, FrameError>)
    ensures
        match r {
            Ok(n) => n == bytes_length(seq![a, b, c, d]) && n <= MAX_FRAME,
            Err(e) => e.len == bytes_length(seq![a, b, c, d]) && e.len > MAX_FRAME,
        },
{
    let n: u32 = (a as u32) * 16777216 + (b as u32) * 65536 + (c as u32) * 256 + (d as u32);
    if n > MAX_FRAME {
        Err(FrameError { len: n })
    } else {
        Ok(n)
    }
}

/// What stands at the beginning of a stream.
pub enum Arrived {
    /// Not all of a frame yet.
    Partial,
    /// A message, and how many bytes its frame took.
    Message { data: Vec<u8>, used: usize },
    /// The announcement of a message that is too long.
    TooLong(FrameError),
}

/// Whether a stream begins with a whole frame of a message that is not too
/// long.
pub open spec fn frame_ready(s: Seq<u8>) -> bool {
    s.len() >= 4 && bytes_length(s.take(4)) <= MAX_FRAME && s.len() >= 4 + bytes_length(s.take(4))
}

/// The message at the beginning of a stream.
pub open spec fn first_message(s: Seq<u8>) -> Seq<u8> {
    s.subrange(4, 4 + bytes_length(s.take(4)) as int)
}

/// Reads what stands at the beginning of a stream.
pub fn read_frame(stream: &Vec<u8>) -> (r: Arrived)
    ensures
        match r {
            Arrived::Message { data, used } => {
                &&& frame_ready(stream@)
                &&& data@ == first_message(stream@)
                &&& used == 4 + data@.len()
            },
            Arrived::TooLong(e) => {
                &&& stream@.len() >= 4
                &&& e.len == bytes_length(stream@.take(4))
                &&& e.len > MAX_FRAME
            },
            Arrived::Partial => stream@.len() < 4 || (bytes_length(stream@.take(4)) <= MAX_FRAME
                && stream@.len() < 4 + bytes_length(stream@.take(4))),
        },
{
    if stream.len() < 4 {
        return Arrived::Partial;
    }
    proof {
        assert(stream@.take(4) =~= seq![stream@[0], stream@[1], stream@[2], stream@[3]]);
    }
    match frame_len(stream[0], stream[1], stream[2], stream[3]) {
        Err(e) => Arrived::TooLong(e),
        Ok(n) => {
            let len: usize = n as usize;
            if stream.len() - 4 < len {
                return Arrived::Partial;
            }
            let mut data: Vec<u8> = Vec::new();
            let mut i: usize = 0;
            while i < len
                invariant
                    i <= len,
                    len + 4 <= stream.len(),
                    data@ == stream@.subrange(4, 4 + i),
                decreases len - i,
            {
                data.push(stream[4 + i]);
                proof {
                    assert(data@ =~= stream@.subrange(4, 4 + i + 1));
                }
                i = i + 1;
            }
            Arrived::Message { data, used: 4 + len }
        },
    }
}

/// Four bytes give back the length they were made of.
proof fn lemma_length_reads_back(n: nat)
    requires
        n <= u32::MAX,
    ensures
        length_bytes(n).len() == 4,
        bytes_length(length_bytes(n)) == n,
{
    let a = n / 16777216;
    let b = (n / 65536) % 256;
    let c = (n / 256) % 256;
    let d = n % 256;
    assert(a < 256);
    assert(n == a * 16777216 + b * 65536 + c * 256 + d);
}

/// What was put in a frame comes out of it again, whatever follows on the
/// stream.
pub proof fn frame_reads_back(data: Seq<u8>, rest: Seq<u8>)
    requires
        data.len() <= MAX_FRAME,
    ensures
        frame_ready(framed(data) + rest),
        first_message(framed(data) + rest) == data,
        (framed(data) + rest).skip(4 + data.len() as int) == rest,
{
    lemma_length_reads_back(data.len());
    let s = framed(data) + rest;
    assert(s.take(4) =~= length_bytes(data.len()));
    assert(first_message(s) =~= data);
    assert(s.skip(4 + data.len() as int) =~= rest);
}

} // verus!
