//! Points in time and durations of a medium, in seconds.
//!
//! A value is held as the bits of its IEEE 754 binary64 representation, which
//! is what the arithmetic outside this crate works on. The order of two such
//! numbers, and whether one is finite, can be read off the bits.
use vstd::prelude::*;

verus! {

const SIGN: u64 = 0x8000_0000_0000_0000;

const INFINITE: u64 = 0x7ff0_0000_0000_0000;

/// A number of seconds, as the bits of a binary64 number.
#[derive(Debug, Clone, Copy, PartialEq, Eq, Structural)]
pub struct Seconds {
    pub bits: u64,
}

impl Seconds {
    /// The bits without the sign.
    pub open spec fn magnitude(self) -> int {
        if self.bits >= 0x8000_0000_0000_0000 {
            self.bits - 0x8000_0000_0000_0000
        } else {
            self.bits as int
        }
    }

    pub open spec fn is_number(self) -> bool {
        self.magnitude() <= 0x7ff0_0000_0000_0000
    }

    pub open spec fn is_finite_number(self) -> bool {
        self.magnitude() < 0x7ff0_0000_0000_0000
    }

    /// An integer that orders numbers as their values do.
    pub open spec fn rank(self) -> int {
        if self.bits >= 0x8000_0000_0000_0000 {
            -self.magnitude()
        } else {
            self.magnitude()
        }
    }

    /// `self < other`; false where one of the two is not a number.
    pub open spec fn before(self, other: Seconds) -> bool {
        self.is_number() && other.is_number() && self.rank() < other.rank()
    }

    /// `self <= other`; false where one of the two is not a number.
    pub open spec fn not_after(self, other: Seconds) -> bool {
        self.is_number() && other.is_number() && self.rank() <= other.rank()
    }

    /// `self > 0`.
    pub open spec fn positive(self) -> bool {
        Seconds { bits: 0 }.before(self)
    }

    /// The smaller of two times; the other one where one is not a number.
    pub open spec fn earlier(self, other: Seconds) -> Seconds {
        if !self.is_number() {
            other
        } else if other.before(self) {
            other
        } else {
            self
        }
    }

    fn sized(&self) -> (r: u64)
        ensures
            r as int == self.magnitude(),
    {
        if self.bits >= SIGN {
            self.bits - SIGN
        } else {
            self.bits
        }
    }

    /// Zero seconds.
    pub fn zero() -> (r: Seconds)
        ensures
            r.bits == 0,
    {
        Seconds { bits: 0 }
    }

    /// Whether this is a finite number.
    pub fn is_finite(&self) -> (r: bool)
        ensures
            r == self.is_finite_number(),
    {
        self.sized() < INFINITE
    }

    /// Whether this comes before `other`.
    pub fn less_than(&self, other: Seconds) -> (r: bool)
        ensures
            r == self.before(other),
    {
        let a = self.sized();
        let b = other.sized();
        if a > INFINITE || b > INFINITE {
            return false;
        }
        if self.bits >= SIGN {
            if other.bits >= SIGN {
                a > b
            } else {
                a > 0 || b > 0
            }
        } else if other.bits >= SIGN {
            false
        } else {
            a < b
        }
    }

    /// Whether this comes before `other` or at the same time.
    pub fn at_most(&self, other: Seconds) -> (r: bool)
        ensures
            r == self.not_after(other),
    {
        self.sized() <= INFINITE && other.sized() <= INFINITE && !other.less_than(*self)
    }

    /// Whether this is greater than zero.
    pub fn is_positive(&self) -> (r: bool)
        ensures
            r == self.positive(),
    {
        Seconds::zero().less_than(*self)
    }

    /// Whether this is less than zero.
    pub fn is_negative(&self) -> (r: bool)
        ensures
            r == self.before(Seconds { bits: 0 }),
    {
        self.less_than(Seconds::zero())
    }

    /// The smaller of two times; the other one where one is not a number.
    pub fn min(self, other: Seconds) -> (r: Seconds)
        ensures
            r == self.earlier(other),
    {
        if self.sized() > INFINITE {
            other
        } else if other.less_than(self) {
            other
        } else {
            self
        }
    }
}

/// A time together with its decimal notation to three places.
#[derive(Debug)]
pub struct Mark {
    pub at: Seconds,
    pub shown: String,
}

/// The address of a stream that starts at `at`, shown as `shown`: a start of
/// zero is not mentioned.
pub open spec fn started(base: Seq<char>, at: Seconds, shown: Seq<char>) -> Seq<char> {
    if at.positive() {
        base + "?start="@ + shown
    } else {
        base
    }
}

/// The address of a stream that starts at `start`.
pub fn start_url(base: &str, start: &Mark) -> (r: String)
    ensures
        r@ == started(base@, start.at, start.shown@),
{
    let mut url = base.to_owned();
    if start.at.is_positive() {
        url.append("?start=");
        url.append(start.shown.as_str());
    }
    url
}

/// Of three numbers, the order of two neighbours carries over, and of any two
/// numbers one is not after the other.
pub proof fn order_is_total(a: Seconds, b: Seconds, c: Seconds)
    requires
        a.is_number(),
        b.is_number(),
        c.is_number(),
    ensures
        a.not_after(b) || b.not_after(a),
        a.not_after(b) && b.not_after(c) ==> a.not_after(c),
        a.before(b) == !b.not_after(a),
{
}

/// The earlier of two times is one of them, and not after either.
pub proof fn earlier_is_the_first(a: Seconds, b: Seconds)
    requires
        a.is_number(),
        b.is_number(),
    ensures
        a.earlier(b) == a || a.earlier(b) == b,
        a.earlier(b).not_after(a),
        a.earlier(b).not_after(b),
{
}

/// Times are ordered as numbers are: a negative one comes before zero, zero is
/// not positive, and what is not a number comes before nothing.
pub proof fn signs_are_told_apart(a: Seconds)
    ensures
        a.is_number() && a.bits > 0x8000_0000_0000_0000 ==> a.before(Seconds { bits: 0 })
            && !a.positive(),
        a.is_number() && 0 < a.bits < 0x8000_0000_0000_0000 ==> a.positive(),
        !(Seconds { bits: 0 }).positive(),
        !(Seconds { bits: 0x8000_0000_0000_0000 }).positive(),
        !a.is_number() ==> !a.positive() && !a.before(Seconds { bits: 0 }) && !a.not_after(a),
{
}

/// The address of a stream names its start exactly where that is not the
/// beginning.
pub proof fn starts_are_named(base: Seq<char>, at: Seconds, shown: Seq<char>)
    ensures
        at.positive() ==> started(base, at, shown) == base + "?start="@ + shown,
        !at.positive() ==> started(base, at, shown) == base,
{
}

} // verus!
