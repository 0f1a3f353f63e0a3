//! The wire envelope: a zero preamble byte, the varint-encoded payload
//! length, the varint-encoded message type, and the raw payload bytes.
//!
//! The codec works on byte buffers; reading from and writing to sockets is
//! the embedding application's business.  A buffer that is exhausted before
//! the preamble byte is the normal end-of-stream signal and is mapped to the
//! reserved frame type 0, never to an error.

use vstd::prelude::*;

use crate::varint::{
    lemma_varint_boundary_found, lemma_varint_encode_shape, lemma_varint_round_trip, take_varint,
    to_varuint, varint_boundary, varint_decode, varint_encode,
};

verus! {

/// One complete wire-level protocol unit: numeric message type and payload.
/// Type 0 is reserved: it is synthesized by the codec to signal a closed
/// stream and is never sent on the wire by a conforming peer.
#[derive(Debug, PartialEq, Eq)]
pub struct Frame {
    pub type_id: u32,
    pub payload: Vec<u8>,
}

/// Why a buffer failed to parse as a frame.
#[derive(Clone, Copy, Debug, PartialEq, Eq, Structural)]
pub enum FrameError {
    /// The first byte of the frame was not the zero preamble.
    InvalidPreamble,
    /// The buffer ended in the middle of a frame.
    Truncated,
}

/// The bytes that carry one frame on the wire.
pub open spec fn frame_bytes(ty: u32, payload: Seq<u8>) -> Seq<u8> {
    seq![0u8] + varint_encode(payload.len() as u32) + varint_encode(ty) + payload
}

/// What a byte buffer holds at its front, in frame terms.
pub enum FrameParse {
    /// No bytes at all: the peer closed the stream.
    Eof,
    /// A first byte other than the zero preamble.
    BadPreamble,
    /// The buffer ends inside the length, type, or payload.
    Truncated,
    /// A complete frame of `used` bytes.
    Parsed { ty: u32, payload: Seq<u8>, used: int },
}

/// The frame, if any, at the front of `s`.
pub open spec fn spec_parse_frame(s: Seq<u8>) -> FrameParse {
    if s.len() == 0 {
        FrameParse::Eof
    } else if s[0] != 0 {
        FrameParse::BadPreamble
    } else {
        match varint_boundary(s.skip(1)) {
            Option::None => FrameParse::Truncated,
            Option::Some(l1) => {
                let len = varint_decode(s.subrange(1, 1 + l1)) as int;
                match varint_boundary(s.skip(1 + l1)) {
                    Option::None => FrameParse::Truncated,
                    Option::Some(l2) => {
                        let ty = varint_decode(s.subrange(1 + l1, 1 + l1 + l2));
                        if s.len() < 1 + l1 + l2 + len {
                            FrameParse::Truncated
                        } else {
                            FrameParse::Parsed {
                                ty,
                                payload: s.subrange(1 + l1 + l2, 1 + l1 + l2 + len),
                                used: 1 + l1 + l2 + len,
                            }
                        }
                    },
                }
            },
        }
    }
}

/// Serializes one frame: preamble, varint payload length, varint type,
/// payload bytes, as a single buffer so one write call can emit it.
pub fn encode_frame(ty: u32, payload: &Vec<u8>) -> (r: Vec<u8>)
    requires
        payload@.len() <= u32::MAX,
    ensures
        r@ == frame_bytes(ty, payload@),
{
    let mut out: Vec<u8> = Vec::new();
    out.push(0);
    let mut lv = to_varuint(payload.len() as u32);
    out.append(&mut lv);
    let mut tv = to_varuint(ty);
    out.append(&mut tv);
    out.extend_from_slice(payload.as_slice());
    proof {
        assert(out@ =~= frame_bytes(ty, payload@));
    }
    out
}

/// Parses the frame that starts at `pos`.  An empty remainder yields the
/// reserved type-0 frame with the position unchanged; a complete frame is
/// returned together with the position just past it.
pub fn read_frame(buf: &Vec<u8>, pos: usize) -> (r: Result<(Frame, usize), FrameError>)
    requires
        pos <= buf@.len(),
    ensures
        match spec_parse_frame(buf@.skip(pos as int)) {
            FrameParse::Eof => {
                &&& r matches Ok(f_p)
                &&& f_p.0.type_id == 0
                &&& f_p.0.payload@ =~= Seq::<u8>::empty()
                &&& f_p.1 == pos
            },
            FrameParse::BadPreamble => r matches Err(FrameError::InvalidPreamble),
            FrameParse::Truncated => r matches Err(FrameError::Truncated),
            FrameParse::Parsed { ty, payload, used } => {
                &&& r matches Ok(f_p)
                &&& f_p.0.type_id == ty
                &&& f_p.0.payload@ =~= payload
                &&& f_p.1 == pos + used
            },
        },
{
    let ghost s = buf@.skip(pos as int);
    if pos == buf.len() {
        return Ok((Frame { type_id: 0, payload: Vec::new() }, pos));
    }
    assert(s[0] == buf@[pos as int]);
    if buf[pos] != 0 {
        return Err(FrameError::InvalidPreamble);
    }
    let after_preamble = pos + 1;
    proof {
        assert(s.skip(1) =~= buf@.skip(after_preamble as int));
    }
    let (len, p1) = match take_varint(buf, after_preamble) {
        Option::None => {
            return Err(FrameError::Truncated);
        },
        Option::Some(v_end) => v_end,
    };
    proof {
        let l1 = p1 - after_preamble;
        assert(s.subrange(1, 1 + l1 as int) =~= buf@.subrange(after_preamble as int, p1 as int));
        assert(s.skip(1 + l1 as int) =~= buf@.skip(p1 as int));
    }
    let (ty, p2) = match take_varint(buf, p1) {
        Option::None => {
            return Err(FrameError::Truncated);
        },
        Option::Some(v_end) => v_end,
    };
    proof {
        let l1 = p1 - after_preamble;
        let l2 = p2 - p1;
        assert(s.subrange(1 + l1 as int, 1 + l1 + l2 as int) =~= buf@.subrange(
            p1 as int,
            p2 as int,
        ));
    }
    if len as usize > buf.len() - p2 {
        return Err(FrameError::Truncated);
    }
    let end = p2 + len as usize;
    let mut payload: Vec<u8> = Vec::new();
    let mut j: usize = p2;
    while j < end
        invariant
            p2 <= j <= end <= buf@.len(),
            payload@ =~= buf@.subrange(p2 as int, j as int),
        decreases end - j,
    {
        payload.push(buf[j]);
        proof {
            assert(payload@ =~= buf@.subrange(p2 as int, j + 1));
        }
        j = j + 1;
    }
    proof {
        let l1 = p1 - after_preamble;
        let l2 = p2 - p1;
        assert(s.subrange(1 + l1 as int + l2 as int, 1 + l1 as int + l2 as int + len as int)
            =~= buf@.subrange(p2 as int, end as int));
    }
    Ok((Frame { type_id: ty, payload }, end))
}

/// Writing a frame and parsing the result, with any bytes following it,
/// yields the original type, the original payload, and consumes exactly the
/// frame's bytes.
pub proof fn lemma_frame_round_trip(ty: u32, payload: Seq<u8>, rest: Seq<u8>)
    requires
        payload.len() <= u32::MAX,
    ensures
        match spec_parse_frame(frame_bytes(ty, payload) + rest) {
            FrameParse::Parsed { ty: t2, payload: p2, used } => {
                &&& t2 == ty
                &&& p2 =~= payload
                &&& used == frame_bytes(ty, payload).len()
            },
            _ => false,
        },
{
    let len_enc = varint_encode(payload.len() as u32);
    let ty_enc = varint_encode(ty);
    let s = frame_bytes(ty, payload) + rest;
    lemma_varint_encode_shape(payload.len() as u32);
    lemma_varint_encode_shape(ty);
    lemma_varint_round_trip(payload.len() as u32);
    lemma_varint_round_trip(ty);
    let l1 = len_enc.len() as int;
    let l2 = ty_enc.len() as int;
    assert(s[0] == 0);
    assert(s.len() == 1 + l1 + l2 + payload.len() + rest.len());
    assert forall|j: int| 0 <= j < l1 - 1 implies #[trigger] (s.skip(1)[j] & 0x80) != 0 by {
        assert(s.skip(1)[j] == len_enc[j]);
    }
    assert(s.skip(1)[l1 - 1] == len_enc[l1 - 1]);
    lemma_varint_boundary_found(s.skip(1), l1 - 1);
    assert(s.subrange(1, 1 + l1) =~= len_enc);
    assert forall|j: int| 0 <= j < l2 - 1 implies #[trigger] (s.skip(1 + l1)[j] & 0x80) != 0 by {
        assert(s.skip(1 + l1)[j] == ty_enc[j]);
    }
    assert(s.skip(1 + l1)[l2 - 1] == ty_enc[l2 - 1]);
    lemma_varint_boundary_found(s.skip(1 + l1), l2 - 1);
    assert(s.subrange(1 + l1, 1 + l1 + l2) =~= ty_enc);
    assert(s.subrange(1 + l1 + l2, 1 + l1 + l2 + payload.len() as int) =~= payload);
}

} // verus!
