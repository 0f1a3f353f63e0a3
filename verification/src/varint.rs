//! Variable-length encoding of unsigned 32-bit integers: seven data bits per
//! byte, least-significant group first, the high bit of every byte except the
//! last set as a continuation flag.

use vstd::prelude::*;

verus! {

/// The byte sequence that encodes `v`: values up to 127 take a single byte,
/// larger values emit their low seven bits with the continuation flag set and
/// continue with the remaining bits.
pub open spec fn varint_encode(v: u32) -> Seq<u8>
    decreases v
    via varint_encode_decreases
{
    if v <= 0x7f {
        seq![v as u8]
    } else {
        seq![((v & 0x7f) | 0x80) as u8] + varint_encode(v >> 7)
    }
}

#[via_fn]
proof fn varint_encode_decreases(v: u32) {
    assert(v > 0x7f ==> v >> 7 < v) by (bit_vector);
}

/// The tolerant decoder's accumulation: each byte contributes its low seven
/// bits at the current bit position, groups beyond bit 31 contribute nothing,
/// the first byte with a clear high bit ends the value, and a sequence that
/// ends without such a byte decodes to 0.
pub open spec fn varint_decode_rec(s: Seq<u8>, shift: u32, acc: u32) -> u32
    decreases s.len()
{
    if s.len() == 0 {
        0
    } else {
        let acc2 = if shift < 32 {
            acc | (((s[0] & 0x7f) as u32) << shift)
        } else {
            acc
        };
        if s[0] & 0x80 == 0 {
            acc2
        } else {
            varint_decode_rec(s.drop_first(), if shift < 25 { (shift + 7) as u32 } else { 32u32 }, acc2)
        }
    }
}

/// The value decoded from `s`, reading groups until the first byte with a
/// clear high bit.  An empty sequence, or one with no terminating byte,
/// decodes to 0.
pub open spec fn varint_decode(s: Seq<u8>) -> u32 {
    varint_decode_rec(s, 0, 0)
}

/// Encodes `i` as a varint byte sequence.
pub fn to_varuint(i: u32) -> (r: Vec<u8>)
    ensures
        r@ == varint_encode(i),
{
    if i <= 0x7f {
        let mut buffer: Vec<u8> = Vec::new();
        buffer.push(i as u8);
        return buffer;
    }

    let mut buffer: Vec<u8> = Vec::new();
    let mut rest: u32 = i;

    while rest > 0
        invariant
            rest > 0 ==> varint_encode(i) == buffer@ + varint_encode(rest),
            rest == 0 ==> varint_encode(i) == buffer@,
        decreases rest,
    {
        let tmp = (rest & 0x7f) as u8;
        let next = rest >> 7;
        assert(next < rest) by (bit_vector)
            requires
                rest > 0,
                next == rest >> 7,
        ;
        if next > 0 {
            assert(rest > 0x7f) by (bit_vector)
                requires
                    rest >> 7 > 0,
            ;
            buffer.push(tmp | 0x80);
            assert(varint_encode(rest) == seq![((rest & 0x7f) | 0x80) as u8] + varint_encode(rest >> 7));
            assert((tmp | 0x80) == ((rest & 0x7f) | 0x80) as u8) by (bit_vector)
                requires
                    tmp == (rest & 0x7f) as u8,
            ;
            assert(buffer@.last() == ((rest & 0x7f) | 0x80) as u8);
        } else {
            if rest <= 0x7f {
                assert(varint_encode(rest) == seq![rest as u8]);
                assert(tmp == rest as u8) by (bit_vector)
                    requires
                        rest <= 0x7f,
                        tmp == (rest & 0x7f) as u8,
                ;
            } else {
                assert(rest <= 0x7f) by (bit_vector)
                    requires
                        rest >> 7 == 0,
                ;
            }
            buffer.push(tmp);
        }
        rest = next;
    }

    buffer
}

/// Decodes a varint from the front of `buf`, tolerating non-minimal
/// encodings; bits beyond position 31 are discarded, and a buffer with no
/// terminating byte yields 0.
pub fn from_varuint(buf: &Vec<u8>) -> (r: u32)
    ensures
        r == varint_decode(buf@),
{
    let mut i: u32 = 0;
    let mut bitpos: u32 = 0;
    let mut idx: usize = 0;

    proof {
        assert(buf@.skip(0) =~= buf@);
    }
    while idx < buf.len()
        invariant
            idx <= buf@.len(),
            bitpos == 0 || bitpos == 7 || bitpos == 14 || bitpos == 21 || bitpos == 28 || bitpos == 32,
            varint_decode(buf@) == varint_decode_rec(buf@.skip(idx as int), bitpos, i),
        decreases buf@.len() - idx,
    {
        let b = buf[idx];
        proof {
            assert(buf@.skip(idx as int)[0] == buf@[idx as int]);
        }
        if bitpos < 32 {
            i = i | (((b & 0x7f) as u32) << bitpos);
        }
        if b & 0x80 == 0 {
            return i;
        }
        proof {
            assert(buf@.skip(idx as int).drop_first() =~= buf@.skip(idx as int + 1));
        }
        bitpos = if bitpos < 25 { bitpos + 7 } else { 32 };
        idx = idx + 1;
    }
    assert(buf@.skip(idx as int).len() == 0);
    0
}

proof fn lemma_varint_round_trip_rec(v: u32, shift: u32, acc: u32)
    requires
        shift < 32,
        (v << shift) >> shift == v,
        acc & (0xffff_ffffu32 << shift) == 0,
    ensures
        varint_decode_rec(varint_encode(v), shift, acc) == acc | (v << shift),
    decreases v,
{
    if v <= 0x7f {
        assert(varint_encode(v) == seq![v as u8]);
        assert((v as u8) & 0x80 == 0 && (((v as u8) & 0x7f) as u32) == v) by (bit_vector)
            requires
                v <= 0x7f,
        ;
        assert(varint_decode_rec(seq![v as u8], shift, acc) == acc | (v << shift));
    } else {
        let b0 = ((v & 0x7f) | 0x80) as u8;
        let v1 = v >> 7;
        let shift1 = (shift + 7) as u32;
        let acc1 = acc | (((b0 & 0x7f) as u32) << shift);
        assert(shift < 25) by (bit_vector)
            requires
                v > 0x7f,
                (v << shift) >> shift == v,
                shift < 32,
        ;
        assert(b0 & 0x80 != 0) by (bit_vector)
            requires
                b0 == ((v & 0x7f) | 0x80) as u8,
        ;
        assert(varint_encode(v) == seq![b0] + varint_encode(v1));
        assert((seq![b0] + varint_encode(v1)).drop_first() =~= varint_encode(v1));
        assert((seq![b0] + varint_encode(v1))[0] == b0);
        assert(v1 < v) by (bit_vector)
            requires
                v > 0x7f,
                v1 == v >> 7,
        ;
        assert((v1 << shift1) >> shift1 == v1 && acc1 & (0xffff_ffffu32 << shift1) == 0) by (bit_vector)
            requires
                shift < 25,
                shift1 == shift + 7,
                v1 == v >> 7,
                (v << shift) >> shift == v,
                acc & (0xffff_ffffu32 << shift) == 0,
                acc1 == acc | (((b0 & 0x7f) as u32) << shift),
                b0 == ((v & 0x7f) | 0x80) as u8,
        ;
        lemma_varint_round_trip_rec(v1, shift1, acc1);
        assert(acc1 | (v1 << shift1) == acc | (v << shift)) by (bit_vector)
            requires
                shift < 25,
                shift1 == shift + 7,
                v1 == v >> 7,
                (v << shift) >> shift == v,
                acc & (0xffff_ffffu32 << shift) == 0,
                acc1 == acc | (((b0 & 0x7f) as u32) << shift),
                b0 == ((v & 0x7f) | 0x80) as u8,
        ;
    }
}

/// Decoding an encoded value gives the value back, for every `u32`.
pub proof fn lemma_varint_round_trip(v: u32)
    ensures
        varint_decode(varint_encode(v)) == v,
{
    assert((v << 0) >> 0 == v && 0u32 & (0xffff_ffffu32 << 0) == 0 && 0u32 | (v << 0) == v)
        by (bit_vector);
    lemma_varint_round_trip_rec(v, 0, 0);
}

/// Every encoding is non-empty, at most five bytes long, carries the
/// continuation flag on every byte except the last, and ends with a byte
/// whose continuation flag is clear.
pub proof fn lemma_varint_encode_shape(v: u32)
    ensures
        1 <= varint_encode(v).len() <= 5,
        forall|j: int|
            0 <= j < varint_encode(v).len() - 1 ==> #[trigger] (varint_encode(v)[j] & 0x80) != 0,
        varint_encode(v).last() & 0x80 == 0,
    decreases v,
{
    if v <= 0x7f {
        assert((v as u8) & 0x80 == 0) by (bit_vector)
            requires
                v <= 0x7f,
        ;
    } else {
        let b0 = ((v & 0x7f) | 0x80) as u8;
        let v1 = v >> 7;
        assert(v1 < v && b0 & 0x80 != 0 && v1 < 0x0200_0000) by (bit_vector)
            requires
                v > 0x7f,
                v1 == v >> 7,
                b0 == ((v & 0x7f) | 0x80) as u8,
        ;
        lemma_varint_encode_shape(v1);
        assert(varint_encode(v) == seq![b0] + varint_encode(v1));
        lemma_varint_encode_len(v1);
    }
}

/// Number of bytes the leading varint of `s` occupies, terminator byte
/// included; `None` if no byte with a clear continuation flag follows.
pub open spec fn varint_boundary(s: Seq<u8>) -> Option<int>
    decreases s.len()
{
    if s.len() == 0 {
        None
    } else if s[0] & 0x80 == 0 {
        Some(1)
    } else {
        match varint_boundary(s.drop_first()) {
            Option::None => None,
            Option::Some(n) => Some(n + 1),
        }
    }
}

pub(crate) proof fn lemma_varint_boundary_found(s: Seq<u8>, k: int)
    requires
        0 <= k < s.len(),
        forall|j: int| 0 <= j < k ==> #[trigger] (s[j] & 0x80) != 0,
        s[k] & 0x80 == 0,
    ensures
        varint_boundary(s) == Some(k + 1),
    decreases k,
{
    if k == 0 {
    } else {
        lemma_varint_boundary_found(s.drop_first(), k - 1);
    }
}

pub(crate) proof fn lemma_varint_boundary_none(s: Seq<u8>)
    requires
        forall|j: int| 0 <= j < s.len() ==> #[trigger] (s[j] & 0x80) != 0,
    ensures
        varint_boundary(s) is None,
    decreases s.len(),
{
    if s.len() > 0 {
        lemma_varint_boundary_none(s.drop_first());
    }
}

pub(crate) proof fn lemma_varint_boundary_bounds(s: Seq<u8>)
    ensures
        varint_boundary(s) matches Some(n) ==> 1 <= n <= s.len(),
    decreases s.len(),
{
    if s.len() > 0 {
        lemma_varint_boundary_bounds(s.drop_first());
    }
}

/// Scans for the end of the varint that starts at `start`, returning its
/// decoded value and the position just past its terminator byte; `None` when
/// the buffer ends before any terminator byte.
pub(crate) fn take_varint(buf: &Vec<u8>, start: usize) -> (r: Option<(u32, usize)>)
    requires
        start <= buf@.len(),
    ensures
        match r {
            Option::None => varint_boundary(buf@.skip(start as int)) is None,
            Option::Some(v_end) => {
                &&& varint_boundary(buf@.skip(start as int)) == Some(v_end.1 - start as int)
                &&& start < v_end.1 <= buf@.len()
                &&& v_end.0 == varint_decode(buf@.subrange(start as int, v_end.1 as int))
            },
        },
{
    let mut idx: usize = start;
    while idx < buf.len()
        invariant
            start <= idx <= buf@.len(),
            forall|j: int| start <= j < idx ==> #[trigger] (buf@[j] & 0x80) != 0,
        decreases buf@.len() - idx,
    {
        if buf[idx] & 0x80 == 0 {
            let end = idx + 1;
            let mut segment: Vec<u8> = Vec::new();
            let mut j: usize = start;
            while j < end
                invariant
                    start <= j <= end <= buf@.len(),
                    segment@ =~= buf@.subrange(start as int, j as int),
                decreases end - j,
            {
                segment.push(buf[j]);
                proof {
                    assert(segment@ =~= buf@.subrange(start as int, j + 1));
                }
                j = j + 1;
            }
            let v = from_varuint(&segment);
            proof {
                lemma_varint_boundary_found(buf@.skip(start as int), (idx - start) as int);
            }
            return Some((v, end));
        }
        idx = idx + 1;
    }
    proof {
        lemma_varint_boundary_none(buf@.skip(start as int));
    }
    None
}

proof fn lemma_varint_encode_len(v: u32)
    ensures
        v < 0x80 ==> varint_encode(v).len() == 1,
        v < 0x4000 ==> varint_encode(v).len() <= 2,
        v < 0x20_0000 ==> varint_encode(v).len() <= 3,
        v < 0x1000_0000 ==> varint_encode(v).len() <= 4,
        varint_encode(v).len() <= 5,
    decreases v,
{
    if v <= 0x7f {
    } else {
        let v1 = v >> 7;
        assert(v1 < v && (v < 0x4000 ==> v1 < 0x80) && (v < 0x20_0000 ==> v1 < 0x4000) && (v
            < 0x1000_0000 ==> v1 < 0x20_0000) && v1 < 0x1000_0000) by (bit_vector)
            requires
                v1 == v >> 7,
                v > 0x7f,
        ;
        lemma_varint_encode_len(v1);
        assert(varint_encode(v) == seq![((v & 0x7f) | 0x80) as u8] + varint_encode(v1));
    }
}

} // verus!
