//! Entity naming helpers: the deterministic 32-bit key derived from a
//! human-readable entity name, the snake-case object identifier, and the
//! unique identifier string.

use vstd::prelude::*;
use vstd::string::StrSliceExecFns;
use vstd::string::StringExecFns;

use convert_case::Case;
use convert_case::Casing;

verus! {

/// The FNV-1 32-bit hash of a character sequence: starting from the
/// standard offset basis, each character multiplies the state by the FNV
/// prime (wrapping) and is then folded in with exclusive or.
pub open spec fn spec_fnv1(s: Seq<char>) -> u32
    decreases s.len()
{
    if s.len() == 0 {
        2166136261u32
    } else {
        vstd::wrapping::u32_specs::wrapping_mul(spec_fnv1(s.drop_last()), 16777619) ^ (
        s.last() as u32)
    }
}

/// Computes the FNV-1 32-bit hash of `input`, character by character.
pub fn fnv1_hash(input: &str) -> (r: u32)
    ensures
        r == spec_fnv1(input@),
{
    let n = input.unicode_len();
    let mut state: u32 = 2166136261;
    let mut i: usize = 0;
    proof {
        assert(input@.take(0) =~= Seq::<char>::empty());
    }
    while i < n
        invariant
            i <= n == input@.len(),
            state == spec_fnv1(input@.take(i as int)),
        decreases n - i,
    {
        let c = input.get_char(i);
        state = state.wrapping_mul(16777619) ^ (c as u32);
        proof {
            assert(input@.take(i + 1).drop_last() =~= input@.take(i as int));
            assert(input@.take(i + 1).last() == input@[i as int]);
        }
        i = i + 1;
    }
    proof {
        assert(input@.take(n as int) =~= input@);
    }
    state
}

/// The stable 32-bit entity key of a name: a pure function of the name, so
/// the same name gives the same key in every run.
pub fn name_to_hash(name: &str) -> (r: u32)
    ensures
        r == spec_fnv1(name@),
{
    fnv1_hash(name)
}

/// What the snake-case conversion returns for a character sequence; the
/// result depends on the characters alone.
pub uninterp spec fn snake_of(s: Seq<char>) -> Seq<char>;

/// The object identifier of an entity name: its snake-case form.
///
/// Relies on convert_case's `Casing::to_case` with the snake case target,
/// which is a pure function of the input string.
#[verifier::external_body]
pub fn name_to_object(name: &str) -> (r: String)
    ensures
        r@ == snake_of(name@),
{
    name.to_case(Case::Snake)
}

/// The unique identifier of an entity: the entity type tag followed by the
/// entity name.
pub fn name_to_unique(name: &str, ty: &str) -> (r: String)
    ensures
        r@ == ty@ + name@,
{
    let mut out = String::from_str(ty);
    out.append(name);
    out
}

} // verus!
