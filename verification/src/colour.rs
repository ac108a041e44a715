//! Colours of splines as three independent channel bits, with the bitwise
//! operations used to pick the channels that a spline contributes to.

use vstd::prelude::*;

verus! {

/// Basic type supporting bitwise binary operations on colour channels.
///
/// Red is the lowest bit, green the middle bit and blue the highest bit.
#[derive(Debug, Clone, Copy, PartialEq, Eq, Structural)]
pub enum Colour {
    Black,
    Red,
    Green,
    Blue,
    Yellow,
    Cyan,
    Magenta,
    White,
}

/// The three channel bits of a colour.
pub open spec fn bits(c: Colour) -> u8 {
    match c {
        Colour::Black => 0,
        Colour::Red => 1,
        Colour::Green => 2,
        Colour::Blue => 4,
        Colour::Yellow => 3,
        Colour::Cyan => 6,
        Colour::Magenta => 5,
        Colour::White => 7,
    }
}

/// The colour whose channel bits are the low three bits of `b`.
pub open spec fn from_bits(b: u8) -> Colour {
    let b = b % 8;
    if b == 0 {
        Colour::Black
    } else if b == 1 {
        Colour::Red
    } else if b == 2 {
        Colour::Green
    } else if b == 3 {
        Colour::Yellow
    } else if b == 4 {
        Colour::Blue
    } else if b == 5 {
        Colour::Magenta
    } else if b == 6 {
        Colour::Cyan
    } else {
        Colour::White
    }
}

/// The colour whose channels are those both colours have.
pub open spec fn spec_and(a: Colour, b: Colour) -> Colour {
    from_bits(bits(a) & bits(b))
}

/// The colour whose channels are those either colour has.
pub open spec fn spec_or(a: Colour, b: Colour) -> Colour {
    from_bits(bits(a) | bits(b))
}

/// The colour whose channels are those exactly one of the colours has.
pub open spec fn spec_xor(a: Colour, b: Colour) -> Colour {
    from_bits(bits(a) ^ bits(b))
}

/// The colour whose channels are those the colour lacks.
pub open spec fn spec_not(a: Colour) -> Colour {
    from_bits(!bits(a) & 7)
}

/// Every colour has three channel bits and is named back by them.
pub proof fn lemma_bits_round_trip(c: Colour)
    ensures
        bits(c) < 8,
        from_bits(bits(c)) == c,
{
}

/// Every three-bit pattern names a colour with exactly those bits.
pub proof fn lemma_from_bits_round_trip(b: u8)
    requires
        b < 8,
    ensures
        bits(from_bits(b)) == b,
{
}

impl Colour {
    /// The channel bits of this colour.
    pub fn to_u8(self) -> (r: u8)
        ensures
            r == bits(self),
            r < 8,
    {
        match self {
            Colour::Black => 0,
            Colour::Red => 1,
            Colour::Green => 2,
            Colour::Blue => 4,
            Colour::Yellow => 3,
            Colour::Cyan => 6,
            Colour::Magenta => 5,
            Colour::White => 7,
        }
    }

    /// The colour with the given channel bits, if `b` names one.
    pub fn from_u8(b: u8) -> (r: Option<Colour>)
        ensures
            b < 8 ==> r == Some(from_bits(b)),
            b >= 8 ==> r is None,
    {
        match b {
            0 => Some(Colour::Black),
            1 => Some(Colour::Red),
            2 => Some(Colour::Green),
            3 => Some(Colour::Yellow),
            4 => Some(Colour::Blue),
            5 => Some(Colour::Magenta),
            6 => Some(Colour::Cyan),
            7 => Some(Colour::White),
            _ => None,
        }
    }
}

impl std::ops::BitAnd for Colour {
    type Output = Colour;

    fn bitand(self, rhs: Colour) -> (r: Colour)
        ensures
            r == spec_and(self, rhs),
    {
        let a = self.to_u8();
        let b = rhs.to_u8();
        assert(a & b < 8) by (bit_vector)
            requires
                a < 8,
        ;
        match Colour::from_u8(a & b) {
            Some(c) => c,
            None => Colour::Black,
        }
    }
}

impl vstd::std_specs::ops::BitAndSpecImpl for Colour {
    open spec fn obeys_bitand_spec() -> bool {
        true
    }

    open spec fn bitand_req(self, rhs: Colour) -> bool {
        true
    }

    open spec fn bitand_spec(self, rhs: Colour) -> Colour {
        spec_and(self, rhs)
    }
}


impl std::ops::BitOr for Colour {
    type Output = Colour;

    fn bitor(self, rhs: Colour) -> (r: Colour)
        ensures
            r == spec_or(self, rhs),
    {
        let a = self.to_u8();
        let b = rhs.to_u8();
        assert(a | b < 8) by (bit_vector)
            requires
                a < 8,
                b < 8,
        ;
        match Colour::from_u8(a | b) {
            Some(c) => c,
            None => Colour::Black,
        }
    }
}

impl vstd::std_specs::ops::BitOrSpecImpl for Colour {
    open spec fn obeys_bitor_spec() -> bool {
        true
    }

    open spec fn bitor_req(self, rhs: Colour) -> bool {
        true
    }

    open spec fn bitor_spec(self, rhs: Colour) -> Colour {
        spec_or(self, rhs)
    }
}

impl std::ops::BitXor for Colour {
    type Output = Colour;

    fn bitxor(self, rhs: Colour) -> (r: Colour)
        ensures
            r == spec_xor(self, rhs),
    {
        let a = self.to_u8();
        let b = rhs.to_u8();
        assert(a ^ b < 8) by (bit_vector)
            requires
                a < 8,
                b < 8,
        ;
        match Colour::from_u8(a ^ b) {
            Some(c) => c,
            None => Colour::Black,
        }
    }
}

impl vstd::std_specs::ops::BitXorSpecImpl for Colour {
    open spec fn obeys_bitxor_spec() -> bool {
        true
    }

    open spec fn bitxor_req(self, rhs: Colour) -> bool {
        true
    }

    open spec fn bitxor_spec(self, rhs: Colour) -> Colour {
        spec_xor(self, rhs)
    }
}

impl std::ops::Not for Colour {
    type Output = Colour;

    fn not(self) -> (r: Colour)
        ensures
            r == spec_not(self),
    {
        let a = self.to_u8();
        assert(!a & 7 < 8) by (bit_vector);
        match Colour::from_u8(!a & 7) {
            Some(c) => c,
            None => Colour::Black,
        }
    }
}

impl vstd::std_specs::ops::NotSpecImpl for Colour {
    open spec fn obeys_not_spec() -> bool {
        true
    }

    open spec fn not_req(self) -> bool {
        true
    }

    open spec fn not_spec(self) -> Colour {
        spec_not(self)
    }
}

/// The colours form a Boolean algebra under `&`, `|` and `!`: both binary
/// operations are commutative, associative and idempotent, `White` is the
/// unit of `&` and `Black` the unit of `|`, each absorbs the other, and
/// negation is an involution that exchanges them (De Morgan).
pub proof fn lemma_colour_boolean_algebra(a: Colour, b: Colour, c: Colour)
    ensures
        spec_and(a, b) == spec_and(b, a),
        spec_or(a, b) == spec_or(b, a),
        spec_and(spec_and(a, b), c) == spec_and(a, spec_and(b, c)),
        spec_or(spec_or(a, b), c) == spec_or(a, spec_or(b, c)),
        spec_and(a, a) == a,
        spec_or(a, a) == a,
        spec_and(a, Colour::White) == a,
        spec_or(a, Colour::Black) == a,
        spec_and(a, Colour::Black) == Colour::Black,
        spec_or(a, Colour::White) == Colour::White,
        spec_and(a, spec_or(a, b)) == a,
        spec_or(a, spec_and(a, b)) == a,
        spec_not(spec_not(a)) == a,
        spec_not(spec_and(a, b)) == spec_or(spec_not(a), spec_not(b)),
        spec_not(spec_or(a, b)) == spec_and(spec_not(a), spec_not(b)),
        spec_and(a, spec_not(a)) == Colour::Black,
        spec_or(a, spec_not(a)) == Colour::White,
{
    let (x, y, z) = (bits(a), bits(b), bits(c));
    assert(x < 8 && y < 8 && z < 8);
    assert(x & y == y & x && x | y == y | x) by (bit_vector);
    assert((x & y) & z == x & (y & z) && (x | y) | z == x | (y | z)) by (bit_vector);
    assert(x & y < 8 && y & z < 8 && x | y < 8 && y | z < 8) by (bit_vector)
        requires
            x < 8,
            y < 8,
            z < 8,
    ;
    assert(x & x == x && x | x == x && x & 7 == x && x | 0 == x && x & 0 == 0 && x | 7 == 7)
        by (bit_vector)
        requires
            x < 8,
    ;
    assert(x & (x | y) == x && x | (x & y) == x) by (bit_vector);
    assert(!x & 7 < 8 && !y & 7 < 8 && !(!x & 7) & 7 == x) by (bit_vector)
        requires
            x < 8,
    ;
    assert(!(x & y) & 7 == (!x & 7) | (!y & 7) && !(x | y) & 7 == (!x & 7) & (!y & 7))
        by (bit_vector);
    assert(x & (!x & 7) == 0 && x | (!x & 7) == 7) by (bit_vector)
        requires
            x < 8,
    ;
    lemma_from_bits_round_trip(x & y);
    lemma_from_bits_round_trip(y & z);
    lemma_from_bits_round_trip(x | y);
    lemma_from_bits_round_trip(y | z);
    lemma_from_bits_round_trip(!x & 7);
    lemma_from_bits_round_trip(!y & 7);
    assert(!(x & y) & 7 < 8 && !(x | y) & 7 < 8) by (bit_vector);
    lemma_from_bits_round_trip(!(x & y) & 7);
    lemma_from_bits_round_trip(!(x | y) & 7);
    lemma_bits_round_trip(a);
}

/// Exclusive or is a group operation with `Black` as unit in which every
/// colour is its own inverse, and `!a` is `a ^ White`.
pub proof fn lemma_colour_xor(a: Colour, b: Colour)
    ensures
        spec_xor(a, b) == spec_xor(b, a),
        spec_xor(a, Colour::Black) == a,
        spec_xor(a, a) == Colour::Black,
        spec_xor(spec_xor(a, b), b) == a,
        spec_not(a) == spec_xor(a, Colour::White),
        spec_xor(a, b) == spec_and(spec_or(a, b), spec_not(spec_and(a, b))),
{
    let (x, y) = (bits(a), bits(b));
    assert(x < 8 && y < 8);
    assert(x ^ y == y ^ x && x ^ x == 0) by (bit_vector);
    assert(x ^ y < 8 && x ^ 0 == x && (x ^ y) ^ y == x && !x & 7 == x ^ 7) by (bit_vector)
        requires
            x < 8,
            y < 8,
    ;
    assert(x ^ y == (x | y) & (!(x & y) & 7)) by (bit_vector)
        requires
            x < 8,
            y < 8,
    ;
    assert(x & y < 8 && x | y < 8 && !(x & y) & 7 < 8) by (bit_vector)
        requires
            x < 8,
            y < 8,
    ;
    lemma_from_bits_round_trip(x ^ y);
    lemma_from_bits_round_trip(x & y);
    lemma_from_bits_round_trip(x | y);
    lemma_from_bits_round_trip(!(x & y) & 7);
    lemma_bits_round_trip(a);
}

/// A colour holds a channel exactly when masking the colour with the
/// channel gives back the channel.
pub open spec fn has_channel(c: Colour, channel: Colour) -> bool {
    bits(c) & bits(channel) == bits(channel)
}

/// `c & channel == channel` holds exactly when every channel bit of
/// `channel` is set in `c`.
pub proof fn lemma_and_selects_channel(c: Colour, channel: Colour)
    ensures
        (spec_and(c, channel) == channel) == has_channel(c, channel),
{
    let (x, y) = (bits(c), bits(channel));
    assert(x < 8 && y < 8);
    assert(x & y < 8) by (bit_vector)
        requires
            y < 8,
    ;
    lemma_from_bits_round_trip(x & y);
    lemma_bits_round_trip(channel);
}

} // verus!
