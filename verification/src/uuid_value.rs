//! A UUID as a plain 128-bit value, and its hyphenated text form.

use vstd::prelude::*;

use crate::bytes::be_u128_at;
use crate::text::{push_char, HEX_DIGITS};

verus! {

/// A UUID, stored as its 128-bit big-endian value.
#[derive(Clone, Copy, PartialEq, Eq, Structural, Debug, Hash)]
pub struct UuidValue {
    pub value: u128,
}

/// Nibble `i` (0 is the most significant) of a 128-bit value.
pub open spec fn uuid_nibble(v: u128, i: int) -> u8 {
    ((v >> (((31 - i) * 4) as u128)) & 0xf) as u8
}

/// Nibbles `from..to` of `v` as lower-case hexadecimal characters.
pub open spec fn hex_fixed(v: u128, from: int, to: int) -> Seq<char>
    decreases to - from when from <= to
{
    if from >= to {
        Seq::empty()
    } else {
        seq![HEX_DIGITS@[uuid_nibble(v, from) as int]] + hex_fixed(v, from + 1, to)
    }
}

/// The hyphenated text of a UUID: 32 hexadecimal digits in groups of
/// 8, 4, 4, 4 and 12.
pub open spec fn hyphenated_str_of(v: u128) -> Seq<char> {
    hex_fixed(v, 0, 8) + seq!['-'] + hex_fixed(v, 8, 12) + seq!['-'] + hex_fixed(v, 12, 16)
        + seq!['-'] + hex_fixed(v, 16, 20) + seq!['-'] + hex_fixed(v, 20, 32)
}

proof fn lemma_low4_cast(x: u128)
    ensures
        ((x & 0xf) as u8) as u128 == x & 0xf,
        (x & 0xf) < 16,
{
    assert(((x & 0xf) as u8) as u128 == x & 0xf && (x & 0xf) < 16) by (bit_vector);
}

/// Appends nibbles `from..to` of `v` in lower-case hexadecimal.
fn append_hex_fixed(s: &mut String, v: u128, from: usize, to: usize)
    requires
        from <= to <= 32,
    ensures
        final(s)@ == old(s)@ + hex_fixed(v, from as int, to as int),
    decreases to - from,
{
    if from < to {
        let nib = ((v >> (((31 - from) * 4) as u128)) & 0xf) as usize;
        proof {
            lemma_low4_cast(v >> (((31 - from as int) * 4) as u128));
        }
        push_char(s, HEX_DIGITS[nib]);
        append_hex_fixed(s, v, from + 1, to);
        proof {
            assert(final(s)@ =~= old(s)@ + hex_fixed(v, from as int, to as int));
        }
    } else {
        proof {
            assert(final(s)@ =~= old(s)@ + hex_fixed(v, from as int, to as int));
        }
    }
}

impl UuidValue {
    pub fn new(value: u128) -> (r: UuidValue)
        ensures
            r.value == value,
    {
        UuidValue { value }
    }

    /// Builds the UUID whose bytes are the first 16 bytes of `b`.
    pub fn from_be_bytes(b: &[u8]) -> (r: UuidValue)
        requires
            b@.len() >= 16,
        ensures
            r.value == be_u128_at(b@, 0, 16),
    {
        UuidValue { value: crate::bytes::read_be_u128(b, 0, 16) }
    }

    /// Renders the UUID in its hyphenated lower-case form.
    pub fn hyphenated(&self) -> (r: String)
        ensures
            r@ == hyphenated_str_of(self.value),
    {
        let mut s = String::new();
        append_hex_fixed(&mut s, self.value, 0, 8);
        push_char(&mut s, '-');
        append_hex_fixed(&mut s, self.value, 8, 12);
        push_char(&mut s, '-');
        append_hex_fixed(&mut s, self.value, 12, 16);
        push_char(&mut s, '-');
        append_hex_fixed(&mut s, self.value, 16, 20);
        push_char(&mut s, '-');
        append_hex_fixed(&mut s, self.value, 20, 32);
        proof {
            assert(s@ =~= hyphenated_str_of(self.value));
        }
        s
    }
}

} // verus!
