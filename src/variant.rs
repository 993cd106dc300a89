use vstd::prelude::*;
use crate::error::VmError;

verus! {

/// Sign bit of an IEEE-754 binary64 value.
pub const FLOAT_SIGN: u64 = 0x8000_0000_0000_0000;

/// Every bit of an IEEE-754 binary64 value except the sign.
pub const FLOAT_MAGNITUDE: u64 = 0x7fff_ffff_ffff_ffff;

/// Exponent field of an IEEE-754 binary64 value.
pub const FLOAT_EXPONENT: u64 = 0x7ff0_0000_0000_0000;

/// Fraction field of an IEEE-754 binary64 value.
pub const FLOAT_FRACTION: u64 = 0x000f_ffff_ffff_ffff;

/// The dynamically typed value that the machine manipulates.
///
/// `Float` holds the IEEE-754 binary64 bit pattern of the number. `Array` and
/// `Dictionary` hold a handle to an object of the machine's heap: copying the
/// variant copies the handle, so every copy aliases the same object.
#[derive(Debug, Clone, PartialEq)]
pub enum Variant {
    Null,
    Integer(i64),
    Float(u64),
    String(String),
    Boolean(bool),
    SymbolReference(String),
    Array(usize),
    Dictionary(usize),
    Index(usize),
}

/// The binary arithmetic operators.
#[derive(Debug, Clone, Copy, PartialEq, Eq)]
pub enum ArithOp {
    Add,
    Sub,
    Mul,
    Div,
    Mod,
    Pow,
}

/// The ordering comparisons.
#[derive(Debug, Clone, Copy, PartialEq, Eq)]
pub enum Comparison {
    Less,
    LessEqual,
    Greater,
    GreaterEqual,
}

pub open spec fn float_is_nan(bits: u64) -> bool {
    bits & FLOAT_EXPONENT == FLOAT_EXPONENT && bits & FLOAT_FRACTION != 0
}

pub open spec fn float_is_zero(bits: u64) -> bool {
    bits & FLOAT_MAGNITUDE == 0
}

/// The position of a non-NaN float on the number line, as a signed magnitude:
/// two non-NaN floats compare as their keys do, and both zeros have key 0.
pub open spec fn float_key(bits: u64) -> int {
    if bits & FLOAT_SIGN != 0 {
        -((bits & FLOAT_MAGNITUDE) as int)
    } else {
        (bits & FLOAT_MAGNITUDE) as int
    }
}

/// Falsy values: `Null`, `false`, integer zero, either float zero and the empty string.
pub open spec fn is_falsy(v: Variant) -> bool {
    match v {
        Variant::Null => true,
        Variant::Boolean(b) => !b,
        Variant::Integer(i) => i == 0,
        Variant::Float(f) => float_is_zero(f),
        Variant::String(s) => s@.len() == 0,
        _ => false,
    }
}

pub open spec fn is_aggregate(v: Variant) -> bool {
    v is Array || v is Dictionary
}

/// Equality of two values neither of which is an aggregate.
pub open spec fn scalar_equal(a: Variant, b: Variant) -> bool {
    match (a, b) {
        (Variant::Null, Variant::Null) => true,
        (Variant::Integer(x), Variant::Integer(y)) => x == y,
        (Variant::Float(x), Variant::Float(y)) => !float_is_nan(x) && !float_is_nan(y) && float_key(x)
            == float_key(y),
        (Variant::String(x), Variant::String(y)) => x@ == y@,
        (Variant::Boolean(x), Variant::Boolean(y)) => x == y,
        (Variant::SymbolReference(x), Variant::SymbolReference(y)) => x@ == y@,
        (Variant::Index(x), Variant::Index(y)) => x == y,
        _ => false,
    }
}

/// The keys by which two values are ordered, when they are: two integers, or
/// two floats neither of which is NaN.
pub open spec fn order_keys(a: Variant, b: Variant) -> Option<(int, int)> {
    match (a, b) {
        (Variant::Integer(x), Variant::Integer(y)) => Some((x as int, y as int)),
        (Variant::Float(x), Variant::Float(y)) => if float_is_nan(x) || float_is_nan(y) {
            None
        } else {
            Some((float_key(x), float_key(y)))
        },
        _ => None,
    }
}

pub open spec fn compare_keys(c: Comparison, x: int, y: int) -> bool {
    match c {
        Comparison::Less => x < y,
        Comparison::LessEqual => x <= y,
        Comparison::Greater => x > y,
        Comparison::GreaterEqual => x >= y,
    }
}

/// `base` raised to `exp`, in unbounded integers.
pub open spec fn int_pow(base: int, exp: nat) -> int
    decreases exp,
{
    if exp == 0 {
        1
    } else {
        base * int_pow(base, (exp - 1) as nat)
    }
}

pub open spec fn fits_i64(x: int) -> bool {
    i64::MIN <= x <= i64::MAX
}

/// The exponent that an integer `Pow` uses: the right operand, which must not
/// be negative, taken as an unsigned 32-bit number.
pub open spec fn pow_exponent(e: i64) -> nat {
    (e as int % 0x1_0000_0000) as nat
}

/// Integer arithmetic: `None` when the operation is undefined (division by zero,
/// a negative exponent) or its result does not fit in 64 bits. Division and
/// remainder truncate toward zero.
pub open spec fn int_arith(op: ArithOp, a: i64, b: i64) -> Option<i64> {
    match op {
        ArithOp::Add => if fits_i64(a + b) { Some((a + b) as i64) } else { None },
        ArithOp::Sub => if fits_i64(a - b) { Some((a - b) as i64) } else { None },
        ArithOp::Mul => if fits_i64(a * b) { Some((a * b) as i64) } else { None },
        ArithOp::Div => a.checked_div(b),
        ArithOp::Mod => a.checked_rem(b),
        ArithOp::Pow => if b < 0 || !fits_i64(int_pow(a as int, pow_exponent(b))) {
            None
        } else {
            Some(int_pow(a as int, pow_exponent(b)) as i64)
        },
    }
}

/// `Negate`: integers and floats change sign, booleans invert.
pub open spec fn negated(v: Variant) -> Result<Variant, VmError> {
    match v {
        Variant::Integer(x) => if x == i64::MIN {
            Err(VmError::Overflow)
        } else {
            Ok(Variant::Integer((-x) as i64))
        },
        Variant::Float(f) => Ok(Variant::Float(f ^ FLOAT_SIGN)),
        Variant::Boolean(b) => Ok(Variant::Boolean(!b)),
        _ => Err(VmError::BadOperands),
    }
}

/// `Not`: whether a value that is no aggregate is falsy.
pub open spec fn logical_not(v: Variant) -> Result<Variant, VmError> {
    if is_aggregate(v) {
        Err(VmError::TypeError)
    } else {
        Ok(Variant::Boolean(is_falsy(v)))
    }
}

pub fn float_is_nan_exec(bits: u64) -> (r: bool)
    ensures
        r == float_is_nan(bits),
{
    bits & FLOAT_EXPONENT == FLOAT_EXPONENT && bits & FLOAT_FRACTION != 0
}

pub fn float_is_zero_exec(bits: u64) -> (r: bool)
    ensures
        r == float_is_zero(bits),
{
    bits & FLOAT_MAGNITUDE == 0
}

/// The key of `float_key`, which fits in an `i64` since the magnitude is below 2^63.
pub fn float_key_exec(bits: u64) -> (r: i64)
    ensures
        r as int == float_key(bits),
{
    let magnitude = bits & FLOAT_MAGNITUDE;
    assert(magnitude <= FLOAT_MAGNITUDE) by (bit_vector)
        requires
            magnitude == bits & FLOAT_MAGNITUDE,
    ;
    if bits & FLOAT_SIGN != 0 {
        -(magnitude as i64)
    } else {
        magnitude as i64
    }
}

impl Variant {
    /// A copy of the value; aggregates are copied by handle.
    pub fn duplicate(&self) -> (r: Variant)
        ensures
            r == *self,
    {
        match self {
            Variant::Null => Variant::Null,
            Variant::Integer(i) => Variant::Integer(*i),
            Variant::Float(f) => Variant::Float(*f),
            Variant::String(s) => Variant::String(s.clone()),
            Variant::Boolean(b) => Variant::Boolean(*b),
            Variant::SymbolReference(s) => Variant::SymbolReference(s.clone()),
            Variant::Array(h) => Variant::Array(*h),
            Variant::Dictionary(h) => Variant::Dictionary(*h),
            Variant::Index(i) => Variant::Index(*i),
        }
    }

    /// Whether the value counts as false where a truth value is read from it.
    pub fn is_false(&self) -> (r: bool)
        ensures
            r == is_falsy(*self),
    {
        match self {
            Variant::Null => true,
            Variant::Boolean(b) => !*b,
            Variant::Integer(i) => *i == 0,
            Variant::Float(f) => float_is_zero_exec(*f),
            Variant::String(s) => s.as_str().is_empty(),
            _ => false,
        }
    }

    /// The value with its sign changed, or a boolean inverted.
    pub fn negate(&self) -> (r: Result<Variant, VmError>)
        ensures
            r == negated(*self),
    {
        match self {
            Variant::Integer(x) => {
                if *x == i64::MIN {
                    Err(VmError::Overflow)
                } else {
                    Ok(Variant::Integer(-*x))
                }
            },
            Variant::Float(f) => Ok(Variant::Float(*f ^ FLOAT_SIGN)),
            Variant::Boolean(b) => Ok(Variant::Boolean(!*b)),
            _ => Err(VmError::BadOperands),
        }
    }

    /// Whether the value is falsy, as a boolean value.
    pub fn not(&self) -> (r: Result<Variant, VmError>)
        ensures
            r == logical_not(*self),
    {
        if self.is_aggregate() {
            Err(VmError::TypeError)
        } else {
            Ok(Variant::Boolean(self.is_false()))
        }
    }

    pub fn is_aggregate(&self) -> (r: bool)
        ensures
            r == is_aggregate(*self),
    {
        match self {
            Variant::Array(_) | Variant::Dictionary(_) => true,
            _ => false,
        }
    }

    /// Equality of two values neither of which is an aggregate.
    pub fn scalar_equals(&self, other: &Variant) -> (r: bool)
        ensures
            r == scalar_equal(*self, *other),
    {
        match (self, other) {
            (Variant::Null, Variant::Null) => true,
            (Variant::Integer(x), Variant::Integer(y)) => *x == *y,
            (Variant::Float(x), Variant::Float(y)) => !float_is_nan_exec(*x) && !float_is_nan_exec(
                *y,
            ) && float_key_exec(*x) == float_key_exec(*y),
            (Variant::String(x), Variant::String(y)) => x.eq(y),
            (Variant::Boolean(x), Variant::Boolean(y)) => *x == *y,
            (Variant::SymbolReference(x), Variant::SymbolReference(y)) => x.eq(y),
            (Variant::Index(x), Variant::Index(y)) => *x == *y,
            _ => false,
        }
    }

    /// Orders two integers or two non-NaN floats; `None` for any other pair.
    pub fn compare(&self, other: &Variant, c: Comparison) -> (r: Option<bool>)
        ensures
            r == (match order_keys(*self, *other) {
                Some(k) => Some(compare_keys(c, k.0, k.1)),
                None => None,
            }),
    {
        let keys: Option<(i64, i64)> = match (self, other) {
            (Variant::Integer(x), Variant::Integer(y)) => Some((*x, *y)),
            (Variant::Float(x), Variant::Float(y)) => {
                if float_is_nan_exec(*x) || float_is_nan_exec(*y) {
                    None
                } else {
                    Some((float_key_exec(*x), float_key_exec(*y)))
                }
            },
            _ => None,
        };
        match keys {
            Some((x, y)) => Some(
                match c {
                    Comparison::Less => x < y,
                    Comparison::LessEqual => x <= y,
                    Comparison::Greater => x > y,
                    Comparison::GreaterEqual => x >= y,
                },
            ),
            None => None,
        }
    }
}

proof fn lemma_pow_at_least_one(base: int, n: nat)
    requires
        base >= 2 || base <= -2,
    ensures
        abs_int(int_pow(base, n)) >= 1,
    decreases n,
{
    if n > 0 {
        lemma_pow_at_least_one(base, (n - 1) as nat);
        let p = int_pow(base, (n - 1) as nat);
        assert(abs_int(base * p) >= 1) by (nonlinear_arith)
            requires
                base >= 2 || base <= -2,
                abs_int(p) >= 1,
        ;
    }
}

proof fn lemma_pow_magnitude_grows(base: int, k: nat, n: nat)
    requires
        base >= 2 || base <= -2,
        k <= n,
    ensures
        abs_int(int_pow(base, k)) <= abs_int(int_pow(base, n)),
        k < n ==> 2 * abs_int(int_pow(base, k)) <= abs_int(int_pow(base, n)),
    decreases n,
{
    if k < n {
        lemma_pow_magnitude_grows(base, k, (n - 1) as nat);
        lemma_pow_at_least_one(base, (n - 1) as nat);
        let p = int_pow(base, (n - 1) as nat);
        assert(abs_int(base * p) >= 2 * abs_int(p)) by (nonlinear_arith)
            requires
                base >= 2 || base <= -2,
        ;
    }
}

pub open spec fn abs_int(x: int) -> int {
    if x < 0 {
        -x
    } else {
        x
    }
}

proof fn lemma_pow_small_base(base: int, n: nat)
    requires
        -1 <= base <= 1,
    ensures
        -1 <= int_pow(base, n) <= 1,
    decreases n,
{
    if n > 0 {
        lemma_pow_small_base(base, (n - 1) as nat);
        let p = int_pow(base, (n - 1) as nat);
        assert(-1 <= base * p <= 1) by (nonlinear_arith)
            requires
                -1 <= base <= 1,
                -1 <= p <= 1,
        ;
    }
}

/// Integer power with the result checked against the 64-bit range.
fn checked_pow(base: i64, exp: u32) -> (r: Option<i64>)
    ensures
        r == (if fits_i64(int_pow(base as int, exp as nat)) {
            Some(int_pow(base as int, exp as nat) as i64)
        } else {
            None
        }),
{
    let mut acc: i64 = 1;
    let mut i: u32 = 0;
    while i < exp
        invariant
            i <= exp,
            acc as int == int_pow(base as int, i as nat),
        decreases exp - i,
    {
        proof {
            if -1 <= base <= 1 {
                lemma_pow_small_base(base as int, exp as nat);
            }
        }
        match acc.checked_mul(base) {
            Some(next) => {
                acc = next;
                i = i + 1;
            },
            None => {
                proof {
                    if -1 <= base <= 1 {
                        lemma_pow_small_base(base as int, i as nat);
                        assert(-1 <= acc * base <= 1) by (nonlinear_arith)
                            requires
                                -1 <= base <= 1,
                                -1 <= acc <= 1,
                        ;
                    }
                    assert(int_pow(base as int, (i + 1) as nat) == base * acc);
                    lemma_pow_magnitude_grows(base as int, (i + 1) as nat, exp as nat);
                }
                return None;
            },
        }
    }
    Some(acc)
}

/// Integer arithmetic of `int_arith`, on machine integers.
pub fn int_arith_exec(op: ArithOp, a: i64, b: i64) -> (r: Option<i64>)
    ensures
        r == int_arith(op, a, b),
{
    match op {
        ArithOp::Add => a.checked_add(b),
        ArithOp::Sub => a.checked_sub(b),
        ArithOp::Mul => a.checked_mul(b),
        ArithOp::Div => a.checked_div(b),
        ArithOp::Mod => a.checked_rem(b),
        ArithOp::Pow => {
            if b < 0 {
                None
            } else {
                let e: u32 = (b as u64 % 0x1_0000_0000u64) as u32;
                assert(e as nat == pow_exponent(b));
                checked_pow(a, e)
            }
        },
    }
}

} // verus!
