use crate::text::{decimal, push_decimal};
use vstd::prelude::*;
use vstd::string::StringExecFns;

verus! {

/// The types whose values a histogram can count: numbers with a least and a
/// greatest finite value. A type may hold values that are no finite numbers
/// (infinities) and values that cannot be compared at all (not-a-number).
pub trait HistogramSupport: Copy + Sized {
    /// True for the values that can be compared with others.
    spec fn comparable(self) -> bool;

    /// Where a comparable value lies on the number line. Two comparable
    /// values are told apart and ordered by this alone.
    spec fn position(self) -> int;

    /// True for the values that a histogram can count and use as edges.
    spec fn finite(self) -> bool;

    /// The least finite value.
    spec fn least() -> Self;

    /// The greatest finite value.
    spec fn greatest() -> Self;

    /// What the value prints when it is formatted for debugging.
    spec fn debug_text(self) -> Seq<char>;

    /// Finite values can be compared, and they lie between the least and
    /// the greatest, which are finite and apart. Nothing else lies where
    /// the least lies, and nothing else where the greatest lies.
    proof fn lemma_bounds(x: Self)
        ensures
            Self::least().finite(),
            Self::greatest().finite(),
            Self::least().position() < Self::greatest().position(),
            x.finite() ==> x.comparable(),
            x.finite() ==> Self::least().position() <= x.position() <= Self::greatest().position(),
            x.finite() && x.position() == Self::least().position() ==> x == Self::least(),
            x.finite() && x.position() == Self::greatest().position() ==> x == Self::greatest(),
    ;

    /// True if the value is finite.
    fn is_finite(&self) -> (b: bool)
        ensures
            b == self.finite(),
    ;

    /// The least finite value.
    fn min_value() -> (m: Self)
        ensures
            m == Self::least(),
    ;

    /// The greatest finite value.
    fn max_value() -> (m: Self)
        ensures
            m == Self::greatest(),
    ;

    /// True if `self` lies before `other`. It is false where one of them
    /// cannot be compared.
    fn less_than(&self, other: &Self) -> (b: bool)
        ensures
            b == (self.comparable() && other.comparable() && self.position() < other.position()),
    ;

    /// True if `self` and `other` lie at the same place. It is false where
    /// one of them cannot be compared.
    fn equal_to(&self, other: &Self) -> (b: bool)
        ensures
            b == (self.comparable() && other.comparable() && self.position()
                == other.position()),
    ;

    /// The value as it prints when it is formatted for debugging.
    fn debug_string(&self) -> (text: String)
        ensures
            text@ == self.debug_text(),
    ;
}

/// `a < b`: both can be compared and `a` lies before `b`.
pub open spec fn less<T: HistogramSupport>(a: T, b: T) -> bool {
    a.comparable() && b.comparable() && a.position() < b.position()
}

/// `a == b`: both can be compared and lie at the same place.
pub open spec fn same<T: HistogramSupport>(a: T, b: T) -> bool {
    a.comparable() && b.comparable() && a.position() == b.position()
}

/// `a <= b`.
pub open spec fn at_most<T: HistogramSupport>(a: T, b: T) -> bool {
    a.comparable() && b.comparable() && a.position() <= b.position()
}

/// The size of a signed number.
pub open spec fn magnitude(v: int) -> nat {
    if v < 0 {
        (-v) as nat
    } else {
        v as nat
    }
}

/// A signed number in decimal digits, with a minus sign in front where it is
/// negative.
pub open spec fn signed_decimal(v: int) -> Seq<char> {
    if v < 0 {
        seq!['-'] + decimal(magnitude(v))
    } else {
        decimal(magnitude(v))
    }
}

/// `num_traits::Bounded::min_value` for `i64`: the least value of the type.
#[verifier::external_body]
fn least_int() -> (m: i64)
    ensures
        m == i64::MIN,
{
    num_traits::Bounded::min_value()
}

/// `num_traits::Bounded::max_value` for `i64`: the greatest value of the
/// type.
#[verifier::external_body]
fn greatest_int() -> (m: i64)
    ensures
        m == i64::MAX,
{
    num_traits::Bounded::max_value()
}

impl HistogramSupport for i64 {
    open spec fn comparable(self) -> bool {
        true
    }

    open spec fn position(self) -> int {
        self as int
    }

    open spec fn finite(self) -> bool {
        true
    }

    open spec fn least() -> Self {
        i64::MIN
    }

    open spec fn greatest() -> Self {
        i64::MAX
    }

    open spec fn debug_text(self) -> Seq<char> {
        signed_decimal(self as int)
    }

    proof fn lemma_bounds(x: Self) {
    }

    fn is_finite(&self) -> (b: bool) {
        true
    }

    fn min_value() -> (m: Self) {
        least_int()
    }

    fn max_value() -> (m: Self) {
        greatest_int()
    }

    fn less_than(&self, other: &Self) -> (b: bool) {
        *self < *other
    }

    fn equal_to(&self, other: &Self) -> (b: bool) {
        *self == *other
    }

    fn debug_string(&self) -> (text: String) {
        let mut text = String::new();
        let size: u64 = if *self < 0 {
            text.append("-");
            proof {
                reveal_strlit("-");
            }
            if *self == i64::MIN {
                0x8000_0000_0000_0000u64
            } else {
                (-*self) as u64
            }
        } else {
            *self as u64
        };
        push_decimal(&mut text, size);
        text
    }
}

/// The bit at the top of a 64-bit floating-point number: its sign.
pub const SIGN_BIT: u64 = 0x8000_0000_0000_0000;

/// The bits of positive infinity. A number whose bits without the sign are
/// these is infinite; one whose bits without the sign are greater is no
/// number.
pub const INFINITY_BITS: u64 = 0x7ff0_0000_0000_0000;

/// The bits of the greatest finite 64-bit floating-point number.
pub const GREATEST_BITS: u64 = 0x7fef_ffff_ffff_ffff;

/// The bits of the least finite 64-bit floating-point number.
pub const LEAST_BITS: u64 = 0xffef_ffff_ffff_ffff;

/// A 64-bit floating-point number of IEEE 754, held by its bits.
/// `less_than` and `equal_to` compare it as such numbers are compared: the
/// two zeros are the same, the infinities lie beyond all finite numbers,
/// and what is no number compares with nothing. `==` compares the bits.
#[derive(Debug, Clone, Copy, PartialEq, Eq, Structural)]
pub struct Float64(pub u64);

impl Float64 {
    /// The number with the given bits.
    pub fn from_bits(bits: u64) -> (x: Self)
        ensures
            x == Float64(bits),
    {
        Float64(bits)
    }

    /// The bits of the number.
    pub fn to_bits(self) -> (bits: u64)
        ensures
            bits == self.0,
    {
        self.0
    }

    /// The bits of the number without its sign.
    pub open spec fn size_bits(self) -> u64 {
        if self.0 >= SIGN_BIT {
            (self.0 - SIGN_BIT) as u64
        } else {
            self.0
        }
    }

    /// True if the sign is set.
    pub open spec fn negative(self) -> bool {
        self.0 >= SIGN_BIT
    }

    /// True if the bits stand for no number.
    pub open spec fn is_nan(self) -> bool {
        self.size_bits() > INFINITY_BITS
    }

    fn size(self) -> (bits: u64)
        ensures
            bits == self.size_bits(),
    {
        if self.0 >= SIGN_BIT {
            self.0 - SIGN_BIT
        } else {
            self.0
        }
    }

    fn place(self) -> (p: i128)
        ensures
            p == self.position(),
    {
        if self.0 >= SIGN_BIT {
            -(self.size() as i128)
        } else {
            self.size() as i128
        }
    }
}

impl HistogramSupport for Float64 {
    open spec fn comparable(self) -> bool {
        !self.is_nan()
    }

    open spec fn position(self) -> int {
        if self.negative() {
            -(self.size_bits() as int)
        } else {
            self.size_bits() as int
        }
    }

    open spec fn finite(self) -> bool {
        self.size_bits() < INFINITY_BITS
    }

    open spec fn least() -> Self {
        Float64(LEAST_BITS)
    }

    open spec fn greatest() -> Self {
        Float64(GREATEST_BITS)
    }

    open spec fn debug_text(self) -> Seq<char> {
        "Float64("@ + decimal(self.0 as nat) + ")"@
    }

    proof fn lemma_bounds(x: Self) {
    }

    fn is_finite(&self) -> (b: bool) {
        self.size() < INFINITY_BITS
    }

    fn min_value() -> (m: Self) {
        Float64(LEAST_BITS)
    }

    fn max_value() -> (m: Self) {
        Float64(GREATEST_BITS)
    }

    fn less_than(&self, other: &Self) -> (b: bool) {
        self.size() <= INFINITY_BITS && other.size() <= INFINITY_BITS && self.place()
            < other.place()
    }

    fn equal_to(&self, other: &Self) -> (b: bool) {
        self.size() <= INFINITY_BITS && other.size() <= INFINITY_BITS && self.place()
            == other.place()
    }

    fn debug_string(&self) -> (text: String) {
        let mut text = String::from_str("Float64(");
        push_decimal(&mut text, self.0);
        text.append(")");
        text
    }
}

} // verus!
