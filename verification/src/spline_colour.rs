//! The colour assigned to a spline by edge colouring: three channel bits
//! with red as the highest bit and blue as the lowest.

use vstd::prelude::*;

verus! {

/// The colour of a spline; every bit pattern of three bits names a colour.
#[derive(Copy, Clone, Debug)]
pub struct SplineColour {
    inner: u8,
}

/// The named spline colours.
#[derive(Debug, Copy, Clone, PartialEq, Eq, Structural)]
pub enum Colour {
    Red,
    Yellow,
    Green,
    Cyan,
    Blue,
    Magenta,
    White,
    Black,
}

/// The channel bits of a named colour (red `0b100`, green `0b010`, blue `0b001`).
pub open spec fn colour_bits(c: Colour) -> u8 {
    match c {
        Colour::Red => 0b100,
        Colour::Yellow => 0b110,
        Colour::Green => 0b010,
        Colour::Cyan => 0b011,
        Colour::Blue => 0b001,
        Colour::Magenta => 0b101,
        Colour::White => 0b111,
        Colour::Black => 0b000,
    }
}

/// The colour of a spline in a fully smooth contour.
pub fn white() -> (r: SplineColour)
    ensures
        r.bits() == colour_bits(Colour::White),
{
    SplineColour { inner: 0b111 }
}

/// The colour of the first spline of a contour with corners.
pub fn magenta() -> (r: SplineColour)
    ensures
        r.bits() == colour_bits(Colour::Magenta),
{
    SplineColour { inner: 0b101 }
}

/// The colour of the second spline of a contour with corners.
pub fn yellow() -> (r: SplineColour)
    ensures
        r.bits() == colour_bits(Colour::Yellow),
{
    SplineColour { inner: 0b110 }
}

impl SplineColour {
    #[verifier::type_invariant]
    spec fn inv(self) -> bool {
        self.inner < 8
    }

    /// The channel bits of this colour.
    pub closed spec fn bits(self) -> u8 {
        self.inner
    }

    pub fn from_colour(colour: Colour) -> (r: Self)
        ensures
            r.bits() == colour_bits(colour),
    {
        match colour {
            Colour::Red => Self { inner: 0b100 },
            Colour::Yellow => Self { inner: 0b110 },
            Colour::Green => Self { inner: 0b010 },
            Colour::Cyan => Self { inner: 0b011 },
            Colour::Blue => Self { inner: 0b001 },
            Colour::Magenta => Self { inner: 0b101 },
            Colour::White => Self { inner: 0b111 },
            Colour::Black => Self { inner: 0b000 },
        }
    }

    pub fn colour(&self) -> (r: Colour)
        ensures
            colour_bits(r) == self.bits(),
    {
        proof {
            use_type_invariant(self);
        }
        match self.inner {
            0b100 => Colour::Red,
            0b110 => Colour::Yellow,
            0b010 => Colour::Green,
            0b011 => Colour::Cyan,
            0b001 => Colour::Blue,
            0b101 => Colour::Magenta,
            0b111 => Colour::White,
            _ => Colour::Black,
        }
    }

    /// Exclusive or of the channel bits, in place.
    pub fn bitxor_assign(&mut self, rhs: Self)
        ensures
            final(self).bits() == old(self).bits() ^ rhs.bits(),
    {
        proof {
            use_type_invariant(&*self);
            use_type_invariant(&rhs);
        }
        let a = self.inner;
        let b = rhs.inner;
        assert(a ^ b < 8) by (bit_vector)
            requires
                a < 8,
                b < 8,
        ;
        self.inner = a ^ b;
    }
}

impl std::ops::BitXorAssign for SplineColour {
    #[inline]
    fn bitxor_assign(&mut self, rhs: Self)
        ensures
            final(self).bits() == old(self).bits() ^ rhs.bits(),
    {
        SplineColour::bitxor_assign(self, rhs)
    }
}

/// Distinct colours have distinct channel bits, and every three-bit pattern
/// names a colour; so `colour` undoes `from_colour` and `from_colour` undoes
/// `colour`.
pub proof fn lemma_colour_bits_bijective(a: Colour, b: Colour, x: u8)
    ensures
        colour_bits(a) == colour_bits(b) ==> a == b,
        colour_bits(a) < 8,
        x < 8 ==> exists|n: Colour| colour_bits(n) == x,
{
    if x == 0 {
        assert(colour_bits(Colour::Black) == x);
    } else if x == 1 {
        assert(colour_bits(Colour::Blue) == x);
    } else if x == 2 {
        assert(colour_bits(Colour::Green) == x);
    } else if x == 3 {
        assert(colour_bits(Colour::Cyan) == x);
    } else if x == 4 {
        assert(colour_bits(Colour::Red) == x);
    } else if x == 5 {
        assert(colour_bits(Colour::Magenta) == x);
    } else if x == 6 {
        assert(colour_bits(Colour::Yellow) == x);
    } else if x == 7 {
        assert(colour_bits(Colour::White) == x);
    }
}

} // verus!
