//! The set of colour channels a spline contributes to, as three bits.

use vstd::prelude::*;

verus! {

/// Colour channels as a bit set: red is `0b100`, green `0b010`, blue `0b001`.
#[derive(Debug, Copy, Clone, PartialEq, Eq, Structural)]
pub struct Channels {
    inner: u8,
}

impl Channels {
    /// The raw channel bits.
    pub closed spec fn bits(self) -> u8 {
        self.inner
    }

    /// Whether any channel is set.
    #[inline]
    pub fn as_bool(&self) -> (r: bool)
        ensures
            r == (self.bits() != 0),
    {
        self.inner != 0
    }
}

impl From<u8> for Channels {
    fn from(value: u8) -> (r: Self)
        ensures
            r.bits() == value,
    {
        Self { inner: value }
    }
}

impl vstd::std_specs::convert::FromSpecImpl<u8> for Channels {
    open spec fn obeys_from_spec() -> bool {
        true
    }

    open spec fn from_spec(v: u8) -> Channels {
        channels_from_bits(v)
    }
}

/// The channel set whose bits are `v`.
pub closed spec fn channels_from_bits(v: u8) -> Channels {
    Channels { inner: v }
}

/// The channel set built from bits `v` holds exactly those bits.
pub proof fn lemma_channels_from_bits(v: u8)
    ensures
        channels_from_bits(v).bits() == v,
{
}

impl std::ops::BitAnd for Channels {
    type Output = Self;

    fn bitand(self, rhs: Self) -> (r: Self)
        ensures
            r.bits() == self.bits() & rhs.bits(),
    {
        Self { inner: self.inner & rhs.inner }
    }
}

impl vstd::std_specs::ops::BitAndSpecImpl for Channels {
    open spec fn obeys_bitand_spec() -> bool {
        true
    }

    open spec fn bitand_req(self, rhs: Channels) -> bool {
        true
    }

    open spec fn bitand_spec(self, rhs: Channels) -> Channels {
        channels_from_bits(self.bits() & rhs.bits())
    }
}

/// Two channel sets are equal exactly when their bits are equal.
pub proof fn lemma_channels_eq(a: Channels, b: Channels)
    ensures
        (a == b) == (a.bits() == b.bits()),
{
}

} // verus!
