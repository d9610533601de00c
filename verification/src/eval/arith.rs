//! The binary numeric operators: mixed operands promote to doubles, and an
//! integer result that overflows is recomputed as a double instead of
//! wrapping or failing.

use vstd::prelude::*;

use vstd::string::StringSliceAdditionalSpecFns;

use crate::errors::Errors;
use crate::errors::ErrV;
use crate::eval::Eval;
use crate::eval::Value;
use crate::eval::ValueV;
use crate::eval::rerr;
use crate::fp::SIGN_MASK;
use crate::fp::float_add;
use crate::fp::float_div;
use crate::fp::float_mul;
use crate::fp::float_of_int;
use crate::fp::float_pow;
use crate::fp::float_rem;
use crate::fp::float_sub;
use crate::fp::fp_add;
use crate::fp::fp_div;
use crate::fp::fp_mul;
use crate::fp::fp_of_int;
use crate::fp::fp_pow;
use crate::fp::fp_rem;
use crate::fp::fp_sub;
use crate::lexer::Pos;
use crate::lexer::to_vec_of;

verus! {

pub open spec fn fits_i128(x: int) -> bool {
    i128::MIN <= x <= i128::MAX
}

/// Addition: exact on integers while the sum fits, else the double sum of
/// the converted operands; concatenation on text.
pub open spec fn spec_plus(a: ValueV, b: ValueV) -> Result<ValueV, Seq<u8>> {
    match (a, b) {
        (ValueV::Int(x), ValueV::Int(y)) => if fits_i128(x + y) {
            Ok(ValueV::Int(x + y))
        } else {
            Ok(ValueV::Float(fp_add(fp_of_int(x as i128), fp_of_int(y as i128))))
        },
        (ValueV::Int(x), ValueV::Float(f)) => Ok(ValueV::Float(fp_add(fp_of_int(x as i128), f))),
        (ValueV::Float(f), ValueV::Int(y)) => Ok(ValueV::Float(fp_add(f, fp_of_int(y as i128)))),
        (ValueV::Float(f), ValueV::Float(g)) => Ok(ValueV::Float(fp_add(f, g))),
        (ValueV::Text(s), ValueV::Text(t)) => Ok(ValueV::Text(s + t)),
        _ => Err(("CAN'T ADD DIS: plus").spec_bytes()),
    }
}

/// Subtraction, with the same integer-overflow fallback.
pub open spec fn spec_minus(a: ValueV, b: ValueV) -> Result<ValueV, Seq<u8>> {
    match (a, b) {
        (ValueV::Int(x), ValueV::Int(y)) => if fits_i128(x - y) {
            Ok(ValueV::Int(x - y))
        } else {
            Ok(ValueV::Float(fp_sub(fp_of_int(x as i128), fp_of_int(y as i128))))
        },
        (ValueV::Int(x), ValueV::Float(f)) => Ok(ValueV::Float(fp_sub(fp_of_int(x as i128), f))),
        (ValueV::Float(f), ValueV::Int(y)) => Ok(ValueV::Float(fp_sub(f, fp_of_int(y as i128)))),
        (ValueV::Float(f), ValueV::Float(g)) => Ok(ValueV::Float(fp_sub(f, g))),
        _ => Err(("CAN'T SUBTRACT DIS: minus").spec_bytes()),
    }
}

/// Multiplication, with the same integer-overflow fallback.
pub open spec fn spec_times(a: ValueV, b: ValueV) -> Result<ValueV, Seq<u8>> {
    match (a, b) {
        (ValueV::Int(x), ValueV::Int(y)) => if fits_i128(x * y) {
            Ok(ValueV::Int(x * y))
        } else {
            Ok(ValueV::Float(fp_mul(fp_of_int(x as i128), fp_of_int(y as i128))))
        },
        (ValueV::Int(x), ValueV::Float(f)) => Ok(ValueV::Float(fp_mul(fp_of_int(x as i128), f))),
        (ValueV::Float(f), ValueV::Int(y)) => Ok(ValueV::Float(fp_mul(f, fp_of_int(y as i128)))),
        (ValueV::Float(f), ValueV::Float(g)) => Ok(ValueV::Float(fp_mul(f, g))),
        _ => Err(("CAN'T MULTIPLY DIS: times").spec_bytes()),
    }
}

/// Truncating division, as the machine's signed division behaves.
pub open spec fn tdiv(x: int, d: int) -> int {
    if x == 0 {
        0
    } else if x > 0 && d > 0 {
        x / d
    } else if x < 0 && d < 0 {
        (x * -1) / (d * -1)
    } else if x < 0 {
        ((x * -1) / d) * -1
    } else {
        (x / (d * -1)) * -1
    }
}

/// Truncating remainder, as the machine's signed remainder behaves.
pub open spec fn tmod(x: int, d: int) -> int {
    if x == 0 {
        0
    } else if x > 0 && d > 0 {
        x % d
    } else if x < 0 && d < 0 {
        ((x * -1) % (d * -1)) * -1
    } else if x < 0 {
        ((x * -1) % d) * -1
    } else {
        x % (d * -1)
    }
}

/// Division: integer division truncates; division by integer zero is an
/// error; the one overflowing quotient is recomputed as a double.
pub open spec fn spec_over(a: ValueV, b: ValueV) -> Result<ValueV, Seq<u8>> {
    match (a, b) {
        (ValueV::Int(x), ValueV::Int(y)) => if y == 0 {
            Err(("CAN'T DIVIDE BY ZERO: over").spec_bytes())
        } else if fits_i128(tdiv(x, y)) {
            Ok(ValueV::Int(tdiv(x, y)))
        } else {
            Ok(ValueV::Float(fp_div(fp_of_int(x as i128), fp_of_int(y as i128))))
        },
        (ValueV::Int(x), ValueV::Float(f)) => Ok(ValueV::Float(fp_div(fp_of_int(x as i128), f))),
        (ValueV::Float(f), ValueV::Int(y)) => Ok(ValueV::Float(fp_div(f, fp_of_int(y as i128)))),
        (ValueV::Float(f), ValueV::Float(g)) => Ok(ValueV::Float(fp_div(f, g))),
        _ => Err(("CAN'T DIVIDE DIS: over").spec_bytes()),
    }
}

/// Remainder, truncating like the division it belongs to.
pub open spec fn spec_mod(a: ValueV, b: ValueV) -> Result<ValueV, Seq<u8>> {
    match (a, b) {
        (ValueV::Int(x), ValueV::Int(y)) => if y == 0 {
            Err(("CAN'T MODOLO BY ZERO: mod").spec_bytes())
        } else if x == i128::MIN && y == -1 {
            Ok(ValueV::Float(fp_rem(fp_of_int(x as i128), fp_of_int(y as i128))))
        } else {
            Ok(ValueV::Int(tmod(x, y)))
        },
        (ValueV::Int(x), ValueV::Float(f)) => Ok(ValueV::Float(fp_rem(fp_of_int(x as i128), f))),
        (ValueV::Float(f), ValueV::Int(y)) => Ok(ValueV::Float(fp_rem(f, fp_of_int(y as i128)))),
        (ValueV::Float(f), ValueV::Float(g)) => Ok(ValueV::Float(fp_rem(f, g))),
        _ => Err(("CAN'T MODOLO DIS: mod").spec_bytes()),
    }
}

/// The checked exponentiation loop over exact multiplications, square and
/// multiply, failing exactly where a product leaves the integer range.
pub open spec fn cp_loop(acc: int, base: int, exp: nat) -> Option<int>
    decreases exp,
{
    if exp % 2 == 1 {
        if !fits_i128(acc * base) {
            None
        } else if exp == 1 {
            Some(acc * base)
        } else if !fits_i128(base * base) {
            None
        } else {
            cp_loop(acc * base, base * base, exp / 2)
        }
    } else {
        if exp == 0 {
            Some(acc)
        } else if !fits_i128(base * base) {
            None
        } else {
            cp_loop(acc, base * base, exp / 2)
        }
    }
}

/// Integer exponentiation with a non-negative exponent, `None` where a step
/// overflows.
pub open spec fn spec_int_pow(a: int, exp: nat) -> Option<int> {
    if exp == 0 {
        Some(1)
    } else {
        cp_loop(1, a, exp)
    }
}

/// Raising to a power: exact on integers while every step fits, else
/// recomputed on doubles; a finite fractional exponent is an error.
pub open spec fn spec_pow(a: ValueV, b: ValueV) -> Result<ValueV, Seq<u8>> {
    match (a, b) {
        (ValueV::Int(x), ValueV::Int(y)) => {
            if 0 <= y <= u32::MAX {
                match spec_int_pow(x, y as nat) {
                    Some(v) => Ok(ValueV::Int(v)),
                    None => pow_float(fp_of_int(x as i128), fp_of_int(y as i128)),
                }
            } else {
                pow_float(fp_of_int(x as i128), fp_of_int(y as i128))
            }
        },
        (ValueV::Int(x), ValueV::Float(f)) => pow_float(fp_of_int(x as i128), f),
        (ValueV::Float(f), ValueV::Int(y)) => pow_float(f, fp_of_int(y as i128)),
        (ValueV::Float(f), ValueV::Float(g)) => pow_float(f, g),
        _ => Err(("CAN'T RAISE TO POWER OF DIS: pow").spec_bytes()),
    }
}

pub open spec fn pow_float(a: u64, b: u64) -> Result<ValueV, Seq<u8>> {
    match fp_pow(a, b) {
        Some(r) => Ok(ValueV::Float(r)),
        None => Err(("CAN'T RAISE TO FRACTIONAL POWER: pow").spec_bytes()),
    }
}

/// Negation: integers and doubles only; the one overflowing negation is
/// recomputed as a double, and a double flips its sign bit exactly.
pub open spec fn spec_neg(a: ValueV) -> Result<ValueV, Seq<u8>> {
    match a {
        ValueV::Int(x) => if x == i128::MIN {
            Ok(ValueV::Float(fp_of_int(x as i128) ^ SIGN_MASK))
        } else {
            Ok(ValueV::Int(-x))
        },
        ValueV::Float(f) => Ok(ValueV::Float(f ^ SIGN_MASK)),
        _ => Err(("CAN'T NEGATE DIS: neg").spec_bytes()),
    }
}

fn int_checked_pow(a: i128, b: u32) -> (r: Option<i128>)
    ensures
        match r {
            Some(v) => spec_int_pow(a as int, b as nat) == Some(v as int),
            None => spec_int_pow(a as int, b as nat) is None,
        },
{
    if b == 0 {
        return Some(1);
    }
    let mut acc: i128 = 1;
    let mut base: i128 = a;
    let mut exp: u32 = b;
    loop
        invariant
            exp >= 1,
            spec_int_pow(a as int, b as nat) == cp_loop(acc as int, base as int, exp as nat),
        decreases exp,
    {
        if exp % 2 == 1 {
            let m = acc.checked_mul(base);
            match m {
                None => {
                    return None;
                },
                Some(acc2) => {
                    if exp == 1 {
                        return Some(acc2);
                    }
                    acc = acc2;
                },
            }
        }
        let s = base.checked_mul(base);
        match s {
            None => {
                return None;
            },
            Some(base2) => {
                base = base2;
            },
        }
        exp = exp / 2;
    }
}

impl Eval {
    pub fn plus(&self, a: &Value, b: &Value, location: Pos) -> (r: Result<Value, Errors>)
        requires
            self.wf(),
        ensures
            ({
                let s = spec_plus(a.v(), b.v());
                match r {
                    Ok(v) => s == Ok::<ValueV, Seq<u8>>(v.v()),
                    Err(e) => s is Err && e@ == rerr(
                        s->Err_0,
                        location.0 as int,
                        location.1 as int,
                        self.srcv(),
                    ),
                }
            }),
    {
        match (a, b) {
            (Value::Int(x), Value::Int(y)) => match x.checked_add(*y) {
                Some(v) => Ok(Value::Int(v)),
                None => Ok(Value::Float(float_add(float_of_int(*x), float_of_int(*y)))),
            },
            (Value::Int(x), Value::Float(f)) => Ok(Value::Float(float_add(float_of_int(*x), *f))),
            (Value::Float(f), Value::Int(y)) => Ok(Value::Float(float_add(*f, float_of_int(*y)))),
            (Value::Float(f), Value::Float(g)) => Ok(Value::Float(float_add(*f, *g))),
            (Value::Text(s), Value::Text(t)) => {
                let mut joined = to_vec_of(s.as_slice());
                let mut tail = to_vec_of(t.as_slice());
                joined.append(&mut tail);
                Ok(Value::Text(joined))
            },
            _ => Err(self.runtime_error(to_vec_of(("CAN'T ADD DIS: plus").as_bytes()), location)),
        }
    }

    pub fn minus(&self, a: &Value, b: &Value, location: Pos) -> (r: Result<Value, Errors>)
        requires
            self.wf(),
        ensures
            ({
                let s = spec_minus(a.v(), b.v());
                match r {
                    Ok(v) => s == Ok::<ValueV, Seq<u8>>(v.v()),
                    Err(e) => s is Err && e@ == rerr(
                        s->Err_0,
                        location.0 as int,
                        location.1 as int,
                        self.srcv(),
                    ),
                }
            }),
    {
        match (a, b) {
            (Value::Int(x), Value::Int(y)) => match x.checked_sub(*y) {
                Some(v) => Ok(Value::Int(v)),
                None => Ok(Value::Float(float_sub(float_of_int(*x), float_of_int(*y)))),
            },
            (Value::Int(x), Value::Float(f)) => Ok(Value::Float(float_sub(float_of_int(*x), *f))),
            (Value::Float(f), Value::Int(y)) => Ok(Value::Float(float_sub(*f, float_of_int(*y)))),
            (Value::Float(f), Value::Float(g)) => Ok(Value::Float(float_sub(*f, *g))),
            _ => Err(
                self.runtime_error(to_vec_of(("CAN'T SUBTRACT DIS: minus").as_bytes()), location),
            ),
        }
    }

    pub fn times(&self, a: &Value, b: &Value, location: Pos) -> (r: Result<Value, Errors>)
        requires
            self.wf(),
        ensures
            ({
                let s = spec_times(a.v(), b.v());
                match r {
                    Ok(v) => s == Ok::<ValueV, Seq<u8>>(v.v()),
                    Err(e) => s is Err && e@ == rerr(
                        s->Err_0,
                        location.0 as int,
                        location.1 as int,
                        self.srcv(),
                    ),
                }
            }),
    {
        match (a, b) {
            (Value::Int(x), Value::Int(y)) => match x.checked_mul(*y) {
                Some(v) => Ok(Value::Int(v)),
                None => Ok(Value::Float(float_mul(float_of_int(*x), float_of_int(*y)))),
            },
            (Value::Int(x), Value::Float(f)) => Ok(Value::Float(float_mul(float_of_int(*x), *f))),
            (Value::Float(f), Value::Int(y)) => Ok(Value::Float(float_mul(*f, float_of_int(*y)))),
            (Value::Float(f), Value::Float(g)) => Ok(Value::Float(float_mul(*f, *g))),
            _ => Err(
                self.runtime_error(to_vec_of(("CAN'T MULTIPLY DIS: times").as_bytes()), location),
            ),
        }
    }

    pub fn over(&self, a: &Value, b: &Value, location: Pos) -> (r: Result<Value, Errors>)
        requires
            self.wf(),
        ensures
            ({
                let s = spec_over(a.v(), b.v());
                match r {
                    Ok(v) => s == Ok::<ValueV, Seq<u8>>(v.v()),
                    Err(e) => s is Err && e@ == rerr(
                        s->Err_0,
                        location.0 as int,
                        location.1 as int,
                        self.srcv(),
                    ),
                }
            }),
    {
        match (a, b) {
            (Value::Int(x), Value::Int(y)) => {
                if *y == 0 {
                    Err(
                        self.runtime_error(
                            to_vec_of(("CAN'T DIVIDE BY ZERO: over").as_bytes()),
                            location,
                        ),
                    )
                } else {
                    match x.checked_div(*y) {
                        Some(v) => Ok(Value::Int(v)),
                        None => Ok(Value::Float(float_div(float_of_int(*x), float_of_int(*y)))),
                    }
                }
            },
            (Value::Int(x), Value::Float(f)) => Ok(Value::Float(float_div(float_of_int(*x), *f))),
            (Value::Float(f), Value::Int(y)) => Ok(Value::Float(float_div(*f, float_of_int(*y)))),
            (Value::Float(f), Value::Float(g)) => Ok(Value::Float(float_div(*f, *g))),
            _ => Err(
                self.runtime_error(to_vec_of(("CAN'T DIVIDE DIS: over").as_bytes()), location),
            ),
        }
    }

    pub fn modolo(&self, a: &Value, b: &Value, location: Pos) -> (r: Result<Value, Errors>)
        requires
            self.wf(),
        ensures
            ({
                let s = spec_mod(a.v(), b.v());
                match r {
                    Ok(v) => s == Ok::<ValueV, Seq<u8>>(v.v()),
                    Err(e) => s is Err && e@ == rerr(
                        s->Err_0,
                        location.0 as int,
                        location.1 as int,
                        self.srcv(),
                    ),
                }
            }),
    {
        match (a, b) {
            (Value::Int(x), Value::Int(y)) => {
                if *y == 0 {
                    Err(
                        self.runtime_error(
                            to_vec_of(("CAN'T MODOLO BY ZERO: mod").as_bytes()),
                            location,
                        ),
                    )
                } else if *x == i128::MIN && *y == -1 {
                    Ok(Value::Float(float_rem(float_of_int(*x), float_of_int(*y))))
                } else {
                    match x.checked_rem(*y) {
                        Some(v) => Ok(Value::Int(v)),
                        None => Ok(Value::Int(0)),
                    }
                }
            },
            (Value::Int(x), Value::Float(f)) => Ok(Value::Float(float_rem(float_of_int(*x), *f))),
            (Value::Float(f), Value::Int(y)) => Ok(Value::Float(float_rem(*f, float_of_int(*y)))),
            (Value::Float(f), Value::Float(g)) => Ok(Value::Float(float_rem(*f, *g))),
            _ => Err(
                self.runtime_error(to_vec_of(("CAN'T MODOLO DIS: mod").as_bytes()), location),
            ),
        }
    }

    pub fn pow(&self, a: &Value, b: &Value, location: Pos) -> (r: Result<Value, Errors>)
        requires
            self.wf(),
        ensures
            ({
                let s = spec_pow(a.v(), b.v());
                match r {
                    Ok(v) => s == Ok::<ValueV, Seq<u8>>(v.v()),
                    Err(e) => s is Err && e@ == rerr(
                        s->Err_0,
                        location.0 as int,
                        location.1 as int,
                        self.srcv(),
                    ),
                }
            }),
    {
        match (a, b) {
            (Value::Int(x), Value::Int(y)) => {
                if 0 <= *y && *y <= u32::MAX as i128 {
                    match int_checked_pow(*x, *y as u32) {
                        Some(v) => Ok(Value::Int(v)),
                        None => self.pow_float_exec(
                            float_of_int(*x),
                            float_of_int(*y),
                            location,
                        ),
                    }
                } else {
                    self.pow_float_exec(float_of_int(*x), float_of_int(*y), location)
                }
            },
            (Value::Int(x), Value::Float(f)) => self.pow_float_exec(
                float_of_int(*x),
                *f,
                location,
            ),
            (Value::Float(f), Value::Int(y)) => self.pow_float_exec(
                *f,
                float_of_int(*y),
                location,
            ),
            (Value::Float(f), Value::Float(g)) => self.pow_float_exec(*f, *g, location),
            _ => Err(
                self.runtime_error(
                    to_vec_of(("CAN'T RAISE TO POWER OF DIS: pow").as_bytes()),
                    location,
                ),
            ),
        }
    }

    fn pow_float_exec(&self, a: u64, b: u64, location: Pos) -> (r: Result<Value, Errors>)
        requires
            self.wf(),
        ensures
            ({
                let s = pow_float(a, b);
                match r {
                    Ok(v) => s == Ok::<ValueV, Seq<u8>>(v.v()),
                    Err(e) => s is Err && e@ == rerr(
                        s->Err_0,
                        location.0 as int,
                        location.1 as int,
                        self.srcv(),
                    ),
                }
            }),
    {
        match float_pow(a, b) {
            Some(bits) => Ok(Value::Float(bits)),
            None => Err(
                self.runtime_error(
                    to_vec_of(("CAN'T RAISE TO FRACTIONAL POWER: pow").as_bytes()),
                    location,
                ),
            ),
        }
    }

    pub fn neg(&self, a: &Value, location: Pos) -> (r: Result<Value, Errors>)
        requires
            self.wf(),
        ensures
            ({
                let s = spec_neg(a.v());
                match r {
                    Ok(v) => s == Ok::<ValueV, Seq<u8>>(v.v()),
                    Err(e) => s is Err && e@ == rerr(
                        s->Err_0,
                        location.0 as int,
                        location.1 as int,
                        self.srcv(),
                    ),
                }
            }),
    {
        match a {
            Value::Int(x) => {
                if *x == i128::MIN {
                    Ok(Value::Float(float_of_int(*x) ^ SIGN_MASK))
                } else {
                    Ok(Value::Int(-*x))
                }
            },
            Value::Float(f) => Ok(Value::Float(*f ^ SIGN_MASK)),
            _ => Err(
                self.runtime_error(to_vec_of(("CAN'T NEGATE DIS: neg").as_bytes()), location),
            ),
        }
    }
}

} // verus!
