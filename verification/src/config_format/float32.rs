use vstd::prelude::*;

verus! {

/// The bit at which the sign of a binary32 value is stored.
pub const SIGN_BIT: u32 = 0x8000_0000;

/// The magnitude bits of positive infinity: every magnitude above it is a NaN.
pub const INFINITY_MAGNITUDE: u32 = 0x7f80_0000;

/// An IEEE 754 binary32 number, held by its bit pattern.
///
/// The library never does arithmetic on such a number: it stores it, hands it
/// back bit for bit, and compares it. Comparison follows IEEE 754: a NaN is
/// neither below, above nor equal to anything, both zeros are equal, and any
/// other two numbers are ordered by their value, which for this encoding is the
/// order of [`Float32::order_key`]. `==` on the other hand compares the bit
/// patterns: it tells the two zeros apart, and finds a NaN equal to itself.
#[derive(Clone, Copy, Debug, PartialEq, Eq, Structural)]
pub struct Float32(pub u32);

impl Float32 {
    /// The exponent and fraction bits, read as a number.
    pub open spec fn magnitude(self) -> int {
        (self.0 % SIGN_BIT) as int
    }

    /// Whether the sign bit is set.
    pub open spec fn is_negative(self) -> bool {
        self.0 >= SIGN_BIT
    }

    pub open spec fn spec_is_nan(self) -> bool {
        self.magnitude() > INFINITY_MAGNITUDE
    }

    /// An integer that orders the numbers that are not NaN as their values do.
    /// Both zeros have the key 0.
    pub open spec fn order_key(self) -> int {
        if self.is_negative() {
            -self.magnitude()
        } else {
            self.magnitude()
        }
    }

    pub open spec fn spec_lt(self, other: Float32) -> bool {
        !self.spec_is_nan() && !other.spec_is_nan() && self.order_key() < other.order_key()
    }

    pub open spec fn spec_le(self, other: Float32) -> bool {
        !self.spec_is_nan() && !other.spec_is_nan() && self.order_key() <= other.order_key()
    }

    pub open spec fn spec_gt(self, other: Float32) -> bool {
        other.spec_lt(self)
    }

    pub open spec fn spec_ge(self, other: Float32) -> bool {
        other.spec_le(self)
    }

    /// The number with the given bit pattern.
    pub fn from_bits(bits: u32) -> (value: Float32)
        ensures
            value == Float32(bits),
    {
        Float32(bits)
    }

    /// The bit pattern of this number.
    pub fn to_bits(self) -> (bits: u32)
        ensures
            bits == self.0,
    {
        self.0
    }

    /// Whether this bit pattern encodes a NaN.
    #[verifier::when_used_as_spec(spec_is_nan)]
    pub fn is_nan(self) -> (nan: bool)
        ensures
            nan == self.spec_is_nan(),
    {
        self.0 % SIGN_BIT > INFINITY_MAGNITUDE
    }

    fn key(self) -> (key: i64)
        ensures
            key == self.order_key(),
    {
        let magnitude: u32 = self.0 % SIGN_BIT;
        if self.0 >= SIGN_BIT {
            0 - (magnitude as i64)
        } else {
            magnitude as i64
        }
    }

    /// `self < other`, as IEEE 754 compares.
    #[verifier::when_used_as_spec(spec_lt)]
    pub fn lt(self, other: Float32) -> (below: bool)
        ensures
            below == self.spec_lt(other),
    {
        !self.is_nan() && !other.is_nan() && self.key() < other.key()
    }

    /// `self <= other`, as IEEE 754 compares.
    #[verifier::when_used_as_spec(spec_le)]
    pub fn le(self, other: Float32) -> (at_most: bool)
        ensures
            at_most == self.spec_le(other),
    {
        !self.is_nan() && !other.is_nan() && self.key() <= other.key()
    }

    /// `self > other`, as IEEE 754 compares.
    #[verifier::when_used_as_spec(spec_gt)]
    pub fn gt(self, other: Float32) -> (above: bool)
        ensures
            above == self.spec_gt(other),
    {
        other.lt(self)
    }

    /// `self >= other`, as IEEE 754 compares.
    #[verifier::when_used_as_spec(spec_ge)]
    pub fn ge(self, other: Float32) -> (at_least: bool)
        ensures
            at_least == self.spec_ge(other),
    {
        other.le(self)
    }
}

/// Any two numbers that are not NaN are comparable, and `<=` on them is
/// transitive and antisymmetric up to the sign of zero.
pub proof fn lemma_total_order(a: Float32, b: Float32, c: Float32)
    requires
        !a.spec_is_nan(),
        !b.spec_is_nan(),
        !c.spec_is_nan(),
    ensures
        a.spec_le(b) || b.spec_le(a),
        a.spec_le(b) && b.spec_le(c) ==> a.spec_le(c),
        a.spec_le(b) && b.spec_le(a) ==> a.order_key() == b.order_key(),
        a.spec_lt(b) <==> !b.spec_le(a),
{
}

/// A NaN compares false with everything, itself included.
pub proof fn lemma_nan_unordered(a: Float32, b: Float32)
    requires
        a.spec_is_nan() || b.spec_is_nan(),
    ensures
        !a.spec_lt(b),
        !a.spec_le(b),
        !a.spec_gt(b),
        !a.spec_ge(b),
{
}

} // verus!
