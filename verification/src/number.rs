//! Numbers of the language: IEEE 754 binary64 values, held by their bit
//! pattern. Ordering, equality and negation are decided here on the bits;
//! arithmetic, reading a numeral and writing a number are left to the host.
use vstd::prelude::*;

verus! {

/// The bit of the sign.
pub const SIGN_BIT: u64 = 0x8000_0000_0000_0000;

/// The magnitude of positive infinity; every greater magnitude is a NaN.
pub const INFINITY_BITS: u64 = 0x7FF0_0000_0000_0000;

/// A binary64 value, by its bit pattern.
#[derive(Clone, Copy, Debug)]
pub struct Number {
    pub bits: u64,
}

impl Number {
    /// Whether the sign bit is set.
    pub open spec fn negative(self) -> bool {
        self.bits >= SIGN_BIT
    }

    /// The bits without the sign.
    pub open spec fn magnitude(self) -> nat {
        if self.negative() {
            (self.bits - SIGN_BIT) as nat
        } else {
            self.bits as nat
        }
    }

    /// Whether the value is a NaN.
    pub open spec fn nan(self) -> bool {
        self.magnitude() > INFINITY_BITS
    }

    /// The place of a value that is no NaN on the number line: both zeros
    /// stand at 0, and a value stands left of another exactly if it is less.
    pub open spec fn rank(self) -> int {
        if self.negative() {
            -(self.magnitude() as int)
        } else {
            self.magnitude() as int
        }
    }

    /// Equality of binary64: a NaN equals nothing, the two zeros are equal.
    pub open spec fn same(self, other: Number) -> bool {
        !self.nan() && !other.nan() && self.rank() == other.rank()
    }

    /// The order of binary64: false whenever a NaN takes part.
    pub open spec fn below(self, other: Number) -> bool {
        !self.nan() && !other.nan() && self.rank() < other.rank()
    }

    /// The value with the opposite sign.
    pub open spec fn negated(self) -> Number {
        if self.negative() {
            Number { bits: (self.bits - SIGN_BIT) as u64 }
        } else {
            Number { bits: (self.bits + SIGN_BIT) as u64 }
        }
    }

    pub fn from_bits(bits: u64) -> (n: Number)
        ensures
            n.bits == bits,
    {
        Number { bits }
    }

    pub fn to_bits(&self) -> (bits: u64)
        ensures
            bits == self.bits,
    {
        self.bits
    }

    fn split(&self) -> (parts: (bool, u64))
        ensures
            parts.0 == self.negative(),
            parts.1 == self.magnitude(),
    {
        if self.bits >= SIGN_BIT {
            (true, self.bits - SIGN_BIT)
        } else {
            (false, self.bits)
        }
    }

    pub fn is_nan(&self) -> (r: bool)
        ensures
            r == self.nan(),
    {
        self.split().1 > INFINITY_BITS
    }

    pub fn equals(&self, other: &Number) -> (r: bool)
        ensures
            r == self.same(*other),
    {
        let (sa, ma) = self.split();
        let (sb, mb) = other.split();
        if ma > INFINITY_BITS || mb > INFINITY_BITS {
            false
        } else if ma == 0 && mb == 0 {
            true
        } else {
            sa == sb && ma == mb
        }
    }

    pub fn less(&self, other: &Number) -> (r: bool)
        ensures
            r == self.below(*other),
    {
        let (sa, ma) = self.split();
        let (sb, mb) = other.split();
        if ma > INFINITY_BITS || mb > INFINITY_BITS {
            false
        } else if sa && sb {
            ma > mb
        } else if sa {
            ma > 0 || mb > 0
        } else if sb {
            false
        } else {
            ma < mb
        }
    }

    pub fn greater(&self, other: &Number) -> (r: bool)
        ensures
            r == other.below(*self),
    {
        other.less(self)
    }

    pub fn less_equal(&self, other: &Number) -> (r: bool)
        ensures
            r == (self.below(*other) || self.same(*other)),
    {
        self.less(other) || self.equals(other)
    }

    pub fn greater_equal(&self, other: &Number) -> (r: bool)
        ensures
            r == (other.below(*self) || self.same(*other)),
    {
        other.less(self) || self.equals(other)
    }

    pub fn negate(&self) -> (n: Number)
        ensures
            n == self.negated(),
    {
        if self.bits >= SIGN_BIT {
            Number { bits: self.bits - SIGN_BIT }
        } else {
            Number { bits: self.bits + SIGN_BIT }
        }
    }
}

/// Negation changes the sign and nothing else, so doing it twice gives the
/// value back.
pub proof fn negation_is_an_involution(n: Number)
    ensures
        n.negated().negated() == n,
        n.negated().magnitude() == n.magnitude(),
        n.negated().negative() == !n.negative(),
{
}

} // verus!

verus! {

/// What an evaluator asks of the host: the work on binary64 numbers that is
/// not done here. The host answers with the resulting number.
#[derive(Debug)]
pub enum NumberRequest {
    /// The value of a numeral: digits, optionally a point and more digits.
    Parse(String),
    Add(Number, Number),
    Subtract(Number, Number),
    Multiply(Number, Number),
    Divide(Number, Number),
    /// The seconds since the Unix epoch.
    Clock,
}

pub enum NumberRequestView {
    Parse(Seq<char>),
    Add(Number, Number),
    Subtract(Number, Number),
    Multiply(Number, Number),
    Divide(Number, Number),
    Clock,
}

impl View for NumberRequest {
    type V = NumberRequestView;

    open spec fn view(&self) -> NumberRequestView {
        match self {
            NumberRequest::Parse(digits) => NumberRequestView::Parse(digits@),
            NumberRequest::Add(a, b) => NumberRequestView::Add(*a, *b),
            NumberRequest::Subtract(a, b) => NumberRequestView::Subtract(*a, *b),
            NumberRequest::Multiply(a, b) => NumberRequestView::Multiply(*a, *b),
            NumberRequest::Divide(a, b) => NumberRequestView::Divide(*a, *b),
            NumberRequest::Clock => NumberRequestView::Clock,
        }
    }
}

impl Clone for NumberRequest {
    fn clone(&self) -> (copy: NumberRequest)
        ensures
            copy@ == self@,
    {
        match self {
            NumberRequest::Parse(digits) => NumberRequest::Parse(digits.clone()),
            NumberRequest::Add(a, b) => NumberRequest::Add(*a, *b),
            NumberRequest::Subtract(a, b) => NumberRequest::Subtract(*a, *b),
            NumberRequest::Multiply(a, b) => NumberRequest::Multiply(*a, *b),
            NumberRequest::Divide(a, b) => NumberRequest::Divide(*a, *b),
            NumberRequest::Clock => NumberRequest::Clock,
        }
    }
}

} // verus!
