use vstd::prelude::*;

verus! {

/// Real-number arithmetic supplied by the host.
///
/// The interpreted language's `REAL` values are IEEE-754 double-precision
/// numbers.  Verus cannot hold floating point, so the library carries every
/// real value as its 64-bit bit pattern and leaves the arithmetic itself to
/// an implementation of this trait, written outside the verified library
/// (typically with `f64::from_bits` and `f64::to_bits`).  The library's
/// contracts pin every evaluation result except real bit patterns, which is
/// made precise by the abstraction [`Val`].
pub trait RealOps {
    /// The double nearest to the decimal literal `s` (digits, `.`, digits).
    fn real_from_literal(&self, s: &str) -> u64;

    /// The double nearest to the integer `i`.
    fn real_from_int(&self, i: i64) -> u64;

    /// The double sum of the doubles encoded by `a` and `b`.
    fn real_add(&self, a: u64, b: u64) -> u64;

    /// The double difference of the doubles encoded by `a` and `b`.
    fn real_sub(&self, a: u64, b: u64) -> u64;

    /// The double product of the doubles encoded by `a` and `b`.
    fn real_mul(&self, a: u64, b: u64) -> u64;

    /// The double quotient of the doubles encoded by `a` and `b`.
    fn real_div(&self, a: u64, b: u64) -> u64;
}

/// A tagged runtime value of the interpreted language.
#[derive(Debug)]
pub enum Literal {
    /// Text: program and identifier names, and the result of `+` on text.
    Text(String),
    /// A 64-bit integer.
    Int(i64),
    /// The bit pattern of an IEEE-754 double; see [`RealOps`].
    Float(u64),
    /// A boolean.
    Bool(bool),
}

/// A [`Literal`] as the specifications see it: text as its character
/// sequence, integers and booleans exactly, and a real number only by its
/// tag, since its bit pattern comes from the host and is not modelled.
#[verifier::ext_equal]
pub ghost enum Val {
    Text(Seq<char>),
    Int(i64),
    Real,
    Bool(bool),
}

impl Literal {
    /// The abstraction of this value; see [`Val`].
    pub open spec fn abs(self) -> Val {
        match self {
            Literal::Text(s) => Val::Text(s@),
            Literal::Int(i) => Val::Int(i),
            Literal::Float(_) => Val::Real,
            Literal::Bool(b) => Val::Bool(b),
        }
    }

    pub fn from_str(text: String) -> (r: Literal)
        ensures
            r == Literal::Text(text),
    {
        Literal::Text(text)
    }

    pub fn from_int(num: i64) -> (r: Literal)
        ensures
            r == Literal::Int(num),
    {
        Literal::Int(num)
    }

    /// Wraps the bit pattern of a double; see [`RealOps`].
    pub fn from_float(bits: u64) -> (r: Literal)
        ensures
            r == Literal::Float(bits),
    {
        Literal::Float(bits)
    }

    pub fn from_bool(boolean: bool) -> (r: Literal)
        ensures
            r == Literal::Bool(boolean),
    {
        Literal::Bool(boolean)
    }

    pub fn to_str(&self) -> (r: Option<&str>)
        ensures
            match *self {
                Literal::Text(ref s) => r is Some && r->0@ == s@,
                _ => r is None,
            },
    {
        match self {
            Literal::Text(s) => Some(s.as_str()),
            _ => None,
        }
    }

    pub fn to_int(&self) -> (r: Option<i64>)
        ensures
            r == match *self {
                Literal::Int(i) => Some(i),
                _ => None::<i64>,
            },
    {
        match self {
            Literal::Int(i) => Some(*i),
            _ => None,
        }
    }

    /// Whether this value is the integer zero, the one divisor the
    /// evaluator rejects.
    pub fn is_int_zero(&self) -> (r: bool)
        ensures
            r == (self.abs() == Val::Int(0i64)),
    {
        match self {
            Literal::Int(i) => *i == 0,
            _ => false,
        }
    }

    /// The bit pattern of this value as a double: a real's own bits, or an
    /// integer promoted by the host; text and booleans have none.
    pub fn to_float<R: RealOps>(&self, host: &R) -> (r: Option<u64>)
        ensures
            r is Some <==> (*self is Float || *self is Int),
            match *self {
                Literal::Float(bits) => r == Some(bits),
                _ => true,
            },
    {
        match self {
            Literal::Float(bits) => Some(*bits),
            Literal::Int(i) => Some(host.real_from_int(*i)),
            _ => None,
        }
    }
}

impl Clone for Literal {
    fn clone(&self) -> (r: Self)
        ensures
            r == *self,
    {
        match self {
            Literal::Text(s) => Literal::Text(s.clone()),
            Literal::Int(i) => Literal::Int(*i),
            Literal::Float(bits) => Literal::Float(*bits),
            Literal::Bool(b) => Literal::Bool(*b),
        }
    }
}

impl PartialEq for Literal {
    fn eq(&self, other: &Literal) -> (r: bool)
    {
        match (self, other) {
            (Literal::Text(a), Literal::Text(b)) => *a == *b,
            (Literal::Int(a), Literal::Int(b)) => *a == *b,
            (Literal::Float(a), Literal::Float(b)) => *a == *b,
            (Literal::Bool(a), Literal::Bool(b)) => *a == *b,
            _ => false,
        }
    }
}

impl vstd::std_specs::cmp::PartialEqSpecImpl for Literal {
    open spec fn obeys_eq_spec() -> bool {
        true
    }

    open spec fn eq_spec(&self, other: &Literal) -> bool {
        match (*self, *other) {
            (Literal::Text(a), Literal::Text(b)) => a@ == b@,
            (Literal::Int(a), Literal::Int(b)) => a == b,
            (Literal::Float(a), Literal::Float(b)) => a == b,
            (Literal::Bool(a), Literal::Bool(b)) => a == b,
            _ => false,
        }
    }
}

/// What `+` yields on a pair of abstract values: text concatenates, integers
/// add with two's-complement wrapping, any numeric mix with a real is a
/// real, and every other combination is undefined.
pub open spec fn spec_add(a: Val, b: Val) -> Option<Val> {
    match (a, b) {
        (Val::Text(x), Val::Text(y)) => Some(Val::Text(x + y)),
        (Val::Int(x), Val::Int(y)) => Some(Val::Int(vstd::wrapping::i64_specs::wrapping_add(x, y))),
        (Val::Int(_), Val::Real) => Some(Val::Real),
        (Val::Real, Val::Int(_)) => Some(Val::Real),
        (Val::Real, Val::Real) => Some(Val::Real),
        _ => None,
    }
}

/// What `-` yields: numeric combinations only, wrapping on integers,
/// promotion to real on any mix with a real.
pub open spec fn spec_sub(a: Val, b: Val) -> Option<Val> {
    match (a, b) {
        (Val::Int(x), Val::Int(y)) => Some(Val::Int(vstd::wrapping::i64_specs::wrapping_sub(x, y))),
        (Val::Int(_), Val::Real) => Some(Val::Real),
        (Val::Real, Val::Int(_)) => Some(Val::Real),
        (Val::Real, Val::Real) => Some(Val::Real),
        _ => None,
    }
}

/// What `*` yields: numeric combinations only, wrapping on integers,
/// promotion to real on any mix with a real.
pub open spec fn spec_mul(a: Val, b: Val) -> Option<Val> {
    match (a, b) {
        (Val::Int(x), Val::Int(y)) => Some(Val::Int(vstd::wrapping::i64_specs::wrapping_mul(x, y))),
        (Val::Int(_), Val::Real) => Some(Val::Real),
        (Val::Real, Val::Int(_)) => Some(Val::Real),
        (Val::Real, Val::Real) => Some(Val::Real),
        _ => None,
    }
}

/// What `/` yields: true division, a real result for every numeric
/// combination, undefined otherwise.
pub open spec fn spec_div(a: Val, b: Val) -> Option<Val> {
    match (a, b) {
        (Val::Int(_), Val::Int(_)) => Some(Val::Real),
        (Val::Int(_), Val::Real) => Some(Val::Real),
        (Val::Real, Val::Int(_)) => Some(Val::Real),
        (Val::Real, Val::Real) => Some(Val::Real),
        _ => None,
    }
}

/// What `%` yields: integers only, Rust's truncated remainder, undefined
/// for a zero divisor or for `i64::MIN % -1`.
pub open spec fn spec_rem(a: Val, b: Val) -> Option<Val> {
    match (a, b) {
        (Val::Int(x), Val::Int(y)) => match x.checked_rem(y) {
            Some(z) => Some(Val::Int(z)),
            None => None,
        },
        _ => None,
    }
}

/// The abstraction of an optional value, `None` kept as `None`.
pub open spec fn abs_opt(r: Option<Literal>) -> Option<Val> {
    match r {
        Some(v) => Some(v.abs()),
        None => None,
    }
}

impl Literal {
    /// `+` on runtime values: [`spec_add`] decides which combinations are
    /// defined and what they yield, up to real bit patterns.
    pub fn add<R: RealOps>(&self, rhs: &Literal, host: &R) -> (r: Option<Literal>)
        ensures
            abs_opt(r) == spec_add(self.abs(), rhs.abs()),
    {
        match (self, rhs) {
            (Literal::Text(x), Literal::Text(y)) => {
                Some(Literal::Text(x.clone().concat(y.as_str())))
            },
            (Literal::Int(x), Literal::Int(y)) => Some(Literal::Int(x.wrapping_add(*y))),
            (Literal::Int(x), Literal::Float(y)) => {
                Some(Literal::Float(host.real_add(host.real_from_int(*x), *y)))
            },
            (Literal::Float(x), Literal::Int(y)) => {
                Some(Literal::Float(host.real_add(*x, host.real_from_int(*y))))
            },
            (Literal::Float(x), Literal::Float(y)) => Some(Literal::Float(host.real_add(*x, *y))),
            _ => None,
        }
    }

    /// `-` on runtime values; see [`spec_sub`].
    pub fn sub<R: RealOps>(&self, rhs: &Literal, host: &R) -> (r: Option<Literal>)
        ensures
            abs_opt(r) == spec_sub(self.abs(), rhs.abs()),
    {
        match (self, rhs) {
            (Literal::Int(x), Literal::Int(y)) => Some(Literal::Int(x.wrapping_sub(*y))),
            (Literal::Int(x), Literal::Float(y)) => {
                Some(Literal::Float(host.real_sub(host.real_from_int(*x), *y)))
            },
            (Literal::Float(x), Literal::Int(y)) => {
                Some(Literal::Float(host.real_sub(*x, host.real_from_int(*y))))
            },
            (Literal::Float(x), Literal::Float(y)) => Some(Literal::Float(host.real_sub(*x, *y))),
            _ => None,
        }
    }

    /// `*` on runtime values; see [`spec_mul`].
    pub fn mul<R: RealOps>(&self, rhs: &Literal, host: &R) -> (r: Option<Literal>)
        ensures
            abs_opt(r) == spec_mul(self.abs(), rhs.abs()),
    {
        match (self, rhs) {
            (Literal::Int(x), Literal::Int(y)) => Some(Literal::Int(x.wrapping_mul(*y))),
            (Literal::Int(x), Literal::Float(y)) => {
                Some(Literal::Float(host.real_mul(host.real_from_int(*x), *y)))
            },
            (Literal::Float(x), Literal::Int(y)) => {
                Some(Literal::Float(host.real_mul(*x, host.real_from_int(*y))))
            },
            (Literal::Float(x), Literal::Float(y)) => Some(Literal::Float(host.real_mul(*x, *y))),
            _ => None,
        }
    }

    /// `/` on runtime values: true division, always a real; see [`spec_div`].
    /// The caller guards against an integer zero divisor; a host double
    /// division by zero follows IEEE-754 and cannot fail.
    pub fn div<R: RealOps>(&self, rhs: &Literal, host: &R) -> (r: Option<Literal>)
        ensures
            abs_opt(r) == spec_div(self.abs(), rhs.abs()),
    {
        match (self, rhs) {
            (Literal::Int(x), Literal::Int(y)) => {
                Some(Literal::Float(host.real_div(host.real_from_int(*x), host.real_from_int(*y))))
            },
            (Literal::Int(x), Literal::Float(y)) => {
                Some(Literal::Float(host.real_div(host.real_from_int(*x), *y)))
            },
            (Literal::Float(x), Literal::Int(y)) => {
                Some(Literal::Float(host.real_div(*x, host.real_from_int(*y))))
            },
            (Literal::Float(x), Literal::Float(y)) => Some(Literal::Float(host.real_div(*x, *y))),
            _ => None,
        }
    }

    /// `%` on runtime values: integers only; see [`spec_rem`].
    pub fn rem(&self, rhs: &Literal) -> (r: Option<Literal>)
        ensures
            abs_opt(r) == spec_rem(self.abs(), rhs.abs()),
    {
        match (self, rhs) {
            (Literal::Int(x), Literal::Int(y)) => match x.checked_rem(*y) {
                Some(z) => Some(Literal::Int(z)),
                None => None,
            },
            _ => None,
        }
    }
}

} // verus!
