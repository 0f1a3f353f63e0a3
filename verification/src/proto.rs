//! The structured payload schemas: a small field codec in the style of the
//! external protocol description.  A payload is a sequence of tagged fields;
//! a tag is a varint holding the field number and a wire type (0 varint,
//! 1 eight fixed bytes, 2 length-delimited bytes, 5 four fixed bytes).
//! Fields whose value is the type's default (zero, false, empty) are not
//! written; unknown fields are skipped on read.

use vstd::prelude::*;

use crate::varint::{
    lemma_varint_boundary_bounds, take_varint, to_varuint, varint_boundary, varint_decode,
    varint_encode,
};

verus! {

/// Why a payload failed to parse.
#[derive(Clone, Copy, Debug, PartialEq, Eq, Structural)]
pub enum ProtoError {
    /// A tag or value ended early, a field number was 0, or a wire type is
    /// not part of the protocol.
    Malformed,
}

/// The value of one decoded field, at the specification level.
#[verifier::ext_equal]
pub enum FieldData {
    Varint(u32),
    /// Eight fixed bytes; the protocol carries no such field, so the value
    /// is not retained, only skipped.
    Fixed64,
    Bytes(Seq<u8>),
    Fixed32(u32),
}

/// The value of one decoded field.
pub enum FieldValue {
    Varint(u32),
    Fixed64,
    Bytes(Vec<u8>),
    Fixed32(u32),
}

impl View for FieldValue {
    type V = FieldData;

    open spec fn view(&self) -> FieldData {
        match self {
            FieldValue::Varint(v) => FieldData::Varint(*v),
            FieldValue::Fixed64 => FieldData::Fixed64,
            FieldValue::Bytes(b) => FieldData::Bytes(b@),
            FieldValue::Fixed32(v) => FieldData::Fixed32(*v),
        }
    }
}

/// The unsigned 32-bit value held by four little-endian bytes.
pub open spec fn le32(s: Seq<u8>) -> u32
    recommends
        s.len() == 4,
{
    (s[0] + s[1] * 0x100 + s[2] * 0x1_0000 + s[3] * 0x100_0000) as u32
}

/// The four little-endian bytes that hold `v`.
pub open spec fn le32_bytes(v: u32) -> Seq<u8> {
    seq![
        (v % 0x100) as u8,
        ((v / 0x100) % 0x100) as u8,
        ((v / 0x1_0000) % 0x100) as u8,
        ((v / 0x100_0000) % 0x100) as u8,
    ]
}

pub proof fn lemma_le32_round_trip(v: u32)
    ensures
        le32(le32_bytes(v)) == v,
{
}

/// What a payload holds at its front, in field terms.
pub enum FieldParse {
    /// No bytes left: the payload is fully read.
    Done,
    /// The bytes do not form a field.
    Malformed,
    /// One complete field of `used` bytes.
    Field { num: u32, data: FieldData, used: int },
}

/// The field, if any, at the front of `s`.
pub open spec fn spec_next_field(s: Seq<u8>) -> FieldParse {
    if s.len() == 0 {
        FieldParse::Done
    } else {
        match varint_boundary(s) {
            Option::None => FieldParse::Malformed,
            Option::Some(t) => {
                let tag = varint_decode(s.subrange(0, t));
                let num = tag >> 3;
                let wt = tag & 7;
                if num == 0 {
                    FieldParse::Malformed
                } else if wt == 0 {
                    match varint_boundary(s.skip(t)) {
                        Option::None => FieldParse::Malformed,
                        Option::Some(v) => FieldParse::Field {
                            num,
                            data: FieldData::Varint(varint_decode(s.subrange(t, t + v))),
                            used: t + v,
                        },
                    }
                } else if wt == 1 {
                    if s.len() < t + 8 {
                        FieldParse::Malformed
                    } else {
                        FieldParse::Field { num, data: FieldData::Fixed64, used: t + 8 }
                    }
                } else if wt == 2 {
                    match varint_boundary(s.skip(t)) {
                        Option::None => FieldParse::Malformed,
                        Option::Some(lv) => {
                            let len = varint_decode(s.subrange(t, t + lv)) as int;
                            if s.len() < t + lv + len {
                                FieldParse::Malformed
                            } else {
                                FieldParse::Field {
                                    num,
                                    data: FieldData::Bytes(s.subrange(t + lv, t + lv + len)),
                                    used: t + lv + len,
                                }
                            }
                        },
                    }
                } else if wt == 5 {
                    if s.len() < t + 4 {
                        FieldParse::Malformed
                    } else {
                        FieldParse::Field {
                            num,
                            data: FieldData::Fixed32(le32(s.subrange(t, t + 4))),
                            used: t + 4,
                        }
                    }
                } else {
                    FieldParse::Malformed
                }
            },
        }
    }
}

/// A complete field occupies at least one byte and no more than the buffer.
pub proof fn lemma_next_field_used(s: Seq<u8>)
    ensures
        spec_next_field(s) matches FieldParse::Field { used, .. } ==> 1 <= used <= s.len(),
{
    if s.len() > 0 {
        lemma_varint_boundary_bounds(s);
        match varint_boundary(s) {
            Option::None => {},
            Option::Some(t) => {
                lemma_varint_boundary_bounds(s.skip(t));
            },
        }
    }
}

/// Reads the field that starts at `pos`; `Ok(None)` when the payload is
/// fully read.
pub fn next_field(p: &Vec<u8>, pos: usize) -> (r: Result<Option<(u32, FieldValue, usize)>, ProtoError>)
    requires
        pos <= p@.len(),
    ensures
        match spec_next_field(p@.skip(pos as int)) {
            FieldParse::Done => r matches Ok(o) && o is None,
            FieldParse::Malformed => r matches Err(ProtoError::Malformed),
            FieldParse::Field { num, data, used } => {
                &&& r matches Ok(o)
                &&& o matches Some(t)
                &&& t.0 == num
                &&& t.1@ =~= data
                &&& t.2 == pos + used
                &&& pos < t.2 <= p@.len()
            },
        },
{
    let ghost s = p@.skip(pos as int);
    if pos == p.len() {
        return Ok(None);
    }
    let (tag, t_end) = match take_varint(p, pos) {
        Option::None => {
            return Err(ProtoError::Malformed);
        },
        Option::Some(v_end) => v_end,
    };
    proof {
        assert(s.subrange(0, t_end - pos as int) =~= p@.subrange(pos as int, t_end as int));
        assert(s.skip(t_end - pos as int) =~= p@.skip(t_end as int));
    }
    let num = tag >> 3;
    let wt = tag & 7;
    if num == 0 {
        return Err(ProtoError::Malformed);
    }
    if wt == 0 {
        let (v, end) = match take_varint(p, t_end) {
            Option::None => {
                return Err(ProtoError::Malformed);
            },
            Option::Some(v_end) => v_end,
        };
        proof {
            let t = t_end - pos as int;
            assert(s.subrange(t, t + (end - t_end) as int) =~= p@.subrange(
                t_end as int,
                end as int,
            ));
        }
        Ok(Some((num, FieldValue::Varint(v), end)))
    } else if wt == 1 {
        if p.len() - t_end < 8 {
            return Err(ProtoError::Malformed);
        }
        Ok(Some((num, FieldValue::Fixed64, t_end + 8)))
    } else if wt == 2 {
        let (len, l_end) = match take_varint(p, t_end) {
            Option::None => {
                return Err(ProtoError::Malformed);
            },
            Option::Some(v_end) => v_end,
        };
        proof {
            let t = t_end - pos as int;
            assert(s.subrange(t, t + (l_end - t_end) as int) =~= p@.subrange(
                t_end as int,
                l_end as int,
            ));
        }
        if len as usize > p.len() - l_end {
            return Err(ProtoError::Malformed);
        }
        let end = l_end + len as usize;
        let mut bytes: Vec<u8> = Vec::new();
        let mut j: usize = l_end;
        while j < end
            invariant
                l_end <= j <= end <= p@.len(),
                bytes@ =~= p@.subrange(l_end as int, j as int),
            decreases end - j,
        {
            bytes.push(p[j]);
            proof {
                assert(bytes@ =~= p@.subrange(l_end as int, j + 1));
            }
            j = j + 1;
        }
        proof {
            let t = t_end - pos as int;
            let lv = l_end - t_end;
            assert(s.subrange(t + lv as int, t + lv as int + len as int) =~= p@.subrange(
                l_end as int,
                end as int,
            ));
        }
        Ok(Some((num, FieldValue::Bytes(bytes), end)))
    } else if wt == 5 {
        if p.len() - t_end < 4 {
            return Err(ProtoError::Malformed);
        }
        let b0 = p[t_end] as u32;
        let b1 = p[t_end + 1] as u32;
        let b2 = p[t_end + 2] as u32;
        let b3 = p[t_end + 3] as u32;
        let v = b0 + b1 * 0x100 + b2 * 0x1_0000 + b3 * 0x100_0000;
        proof {
            let t = t_end - pos as int;
            let four = s.subrange(t, t + 4);
            assert(four[0] == p@[t_end as int]);
            assert(four[1] == p@[t_end as int + 1]);
            assert(four[2] == p@[t_end as int + 2]);
            assert(four[3] == p@[t_end as int + 3]);
        }
        Ok(Some((num, FieldValue::Fixed32(v), t_end + 4)))
    } else {
        Err(ProtoError::Malformed)
    }
}

/// The bytes of a field tag.
pub open spec fn spec_tag(num: u32, wt: u32) -> Seq<u8> {
    varint_encode((num * 8 + wt) as u32)
}

/// A varint field, tag included.
pub open spec fn spec_varint_field(num: u32, v: u32) -> Seq<u8> {
    spec_tag(num, 0) + varint_encode(v)
}

/// A four-fixed-byte field, tag included.
pub open spec fn spec_fixed32_field(num: u32, v: u32) -> Seq<u8> {
    spec_tag(num, 5) + le32_bytes(v)
}

/// A length-delimited field, tag and length included.
pub open spec fn spec_len_field(num: u32, b: Seq<u8>) -> Seq<u8> {
    spec_tag(num, 2) + varint_encode(b.len() as u32) + b
}

/// Appends a varint field to `out`.
pub fn write_varint_field(out: &mut Vec<u8>, num: u32, v: u32)
    requires
        1 <= num < 0x2000_0000,
    ensures
        final(out)@ == old(out)@ + spec_varint_field(num, v),
{
    let mut tag = to_varuint(num * 8);
    out.append(&mut tag);
    let mut val = to_varuint(v);
    out.append(&mut val);
    proof {
        assert(final(out)@ =~= old(out)@ + spec_varint_field(num, v));
    }
}

/// Appends a four-fixed-byte field to `out`.
pub fn write_fixed32_field(out: &mut Vec<u8>, num: u32, v: u32)
    requires
        1 <= num < 0x2000_0000,
    ensures
        final(out)@ == old(out)@ + spec_fixed32_field(num, v),
{
    let mut tag = to_varuint(num * 8 + 5);
    out.append(&mut tag);
    out.push((v % 0x100) as u8);
    out.push(((v / 0x100) % 0x100) as u8);
    out.push(((v / 0x1_0000) % 0x100) as u8);
    out.push(((v / 0x100_0000) % 0x100) as u8);
    proof {
        assert(final(out)@ =~= old(out)@ + spec_fixed32_field(num, v));
    }
}

/// Appends a length-delimited field to `out`.
pub fn write_bytes_field(out: &mut Vec<u8>, num: u32, b: &[u8])
    requires
        1 <= num < 0x2000_0000,
        b@.len() <= u32::MAX,
    ensures
        final(out)@ == old(out)@ + spec_len_field(num, b@),
{
    let mut tag = to_varuint(num * 8 + 2);
    out.append(&mut tag);
    let mut len = to_varuint(b.len() as u32);
    out.append(&mut len);
    out.extend_from_slice(b);
    proof {
        assert(final(out)@ =~= old(out)@ + spec_len_field(num, b@));
    }
}

} // verus!
