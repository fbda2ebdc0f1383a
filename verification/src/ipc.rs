//! Stream framing: every message travels as a 4-byte big-endian length
//! followed by exactly that many payload bytes, and a payload never
//! exceeds a fixed maximum. Also classifies socket addresses.
//!
//! A single read of a byte stream does not respect message boundaries, so
//! a receiver accumulates bytes and takes frames off the front; the
//! functions here do that arithmetic, while the socket reads and writes
//! stay outside the core.

use vstd::prelude::*;
use vstd::slice::{slice_subrange, slice_to_vec};
use crate::codec::{enc_u32, dec_u32_at};
use crate::errors::ProtocolError;
use crate::text::first_index_of;

verus! {

/// Maximum size of one frame's payload, in bytes (1 MiB).
pub const MAX_MESSAGE_SIZE: usize = 1048576;

/// A payload small enough to frame.
pub open spec fn frame_fits(payload: Seq<u8>) -> bool {
    payload.len() <= MAX_MESSAGE_SIZE
}

/// One frame: the payload length as a big-endian `u32`, then the payload.
pub open spec fn spec_frame(payload: Seq<u8>) -> Seq<u8> {
    enc_u32(payload.len() as u32) + payload
}

/// The first complete, in-bounds frame at the front of a stream buffer:
/// its payload and the number of bytes it occupies.
pub open spec fn spec_take_frame(b: Seq<u8>) -> Option<(Seq<u8>, int)> {
    match dec_u32_at(b) {
        Some((n, rest)) => {
            if n <= MAX_MESSAGE_SIZE && n <= rest.len() {
                Some((rest.subrange(0, n as int), 4 + n as int))
            } else {
                None
            }
        },
        None => None,
    }
}

/// Wrap a payload in a frame. Rejects an oversize payload before
/// producing any byte of output.
pub fn encode_frame(payload: &Vec<u8>) -> (r: Result<Vec<u8>, ProtocolError>)
    ensures
        match r {
            Ok(f) => frame_fits(payload@) && f@ == spec_frame(payload@),
            Err(e) => !frame_fits(payload@) && e == ProtocolError::TooLarge,
        },
{
    if payload.len() > MAX_MESSAGE_SIZE {
        return Err(ProtocolError::TooLarge);
    }
    let n: u32 = payload.len() as u32;
    let mut out: Vec<u8> = Vec::new();
    crate::codec::put_u32(&mut out, n);
    let mut body = payload.clone();
    out.append(&mut body);
    assert(out@ =~= spec_frame(payload@));
    Ok(out)
}

/// What taking one frame off a stream buffer yields.
pub enum FrameStep {
    /// A complete frame: its payload, and the index just past it.
    Complete(Vec<u8>, usize),
    /// The buffer ends before the frame does; more bytes are needed.
    Incomplete,
    /// The declared length exceeds the maximum; the frame is refused
    /// without waiting for that much data.
    Oversize,
}

/// Take one frame off the buffer, starting at `start`.
pub fn take_frame(buf: &Vec<u8>, start: usize) -> (r: FrameStep)
    requires
        start <= buf@.len(),
    ensures
        match r {
            FrameStep::Complete(p, j) => {
                &&& start <= j <= buf@.len()
                &&& spec_take_frame(buf@.skip(start as int)) == Some((p@, j - start))
            },
            FrameStep::Incomplete => {
                spec_take_frame(buf@.skip(start as int)) is None && !(match dec_u32_at(
                    buf@.skip(start as int),
                ) {
                    Some((n, _)) => n > MAX_MESSAGE_SIZE,
                    None => false,
                })
            },
            FrameStep::Oversize => match dec_u32_at(buf@.skip(start as int)) {
                Some((n, _)) => n > MAX_MESSAGE_SIZE,
                None => false,
            },
        },
{
    if buf.len() - start < 4 {
        return FrameStep::Incomplete;
    }
    let n: u32 = ((buf[start] as u32) << 24) | ((buf[start + 1] as u32) << 16) | ((buf[start
        + 2] as u32) << 8) | (buf[start + 3] as u32);
    proof {
        assert(buf@.skip(start as int).subrange(0, 4) =~= seq![
            buf@[start as int],
            buf@[start + 1],
            buf@[start + 2],
            buf@[start + 3],
        ]);
        assert(buf@.skip(start as int).skip(4) =~= buf@.skip(start + 4));
    }
    if n > MAX_MESSAGE_SIZE as u32 {
        return FrameStep::Oversize;
    }
    let m = n as usize;
    if buf.len() - (start + 4) < m {
        return FrameStep::Incomplete;
    }
    let sl = slice_subrange(buf.as_slice(), start + 4, start + 4 + m);
    let payload = slice_to_vec(sl);
    proof {
        assert(buf@.skip(start + 4).subrange(0, n as int) =~= buf@.subrange(
            start + 4,
            start + 4 + n,
        ));
    }
    FrameStep::Complete(payload, start + 4 + m)
}

/// Two frames written back to back come off the stream as two distinct
/// payloads: the first take yields the first payload, and taking again
/// just past it yields the second.
#[verifier::rlimit(100)]
#[verifier::spinoff_prover]
pub proof fn lemma_two_frames(p1: Seq<u8>, p2: Seq<u8>)
    requires
        frame_fits(p1),
        frame_fits(p2),
    ensures
        spec_take_frame(spec_frame(p1) + spec_frame(p2)) == Some((p1, 4 + p1.len() as int)),
        (spec_frame(p1) + spec_frame(p2)).skip(4 + p1.len() as int) == spec_frame(p2),
        spec_take_frame(spec_frame(p2)) == Some((p2, 4 + p2.len() as int)),
{
    let s = spec_frame(p1) + spec_frame(p2);
    lemma_take_framed(p1, spec_frame(p2));
    assert(s.skip(4 + p1.len() as int) =~= spec_frame(p2));
    lemma_take_framed(p2, Seq::empty());
    assert(spec_frame(p2) + Seq::<u8>::empty() =~= spec_frame(p2));
}

/// Taking a frame off a buffer that starts with one framed payload finds
/// exactly that payload.
pub proof fn lemma_take_framed(p: Seq<u8>, rest: Seq<u8>)
    requires
        frame_fits(p),
    ensures
        spec_take_frame(spec_frame(p) + rest) == Some((p, 4 + p.len() as int)),
{
    let n = p.len() as u32;
    let b = spec_frame(p) + rest;
    assert(b =~= enc_u32(n) + (p + rest));
    crate::codec::lemma_u32_round(n, p + rest);
    assert((p + rest).subrange(0, n as int) =~= p);
}

/// Whether an address names a local socket path rather than a host:port
/// endpoint: it does exactly when it contains a path separator.
pub fn is_unix_socket_path(addr: &str) -> (r: bool)
    ensures
        r == addr@.contains('/'),
{
    match crate::text::find_char(addr, '/') {
        Some(_) => true,
        None => {
            assert(!addr@.contains('/')) by {
                if addr@.contains('/') {
                    let w = choose|w: int| 0 <= w < addr@.len() && addr@[w] == '/';
                    assert(first_index_of(addr@, '/') is Some);
                }
            }
            false
        },
    }
}

} // verus!
