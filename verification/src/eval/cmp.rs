//! Equality, ordering and the boolean connectives.

use vstd::prelude::*;

use vstd::string::StringSliceAdditionalSpecFns;

use crate::errors::Errors;
use crate::eval::Eval;
use crate::eval::Value;
use crate::eval::ValueV;
use crate::eval::conv::spec_choice;
use crate::eval::rerr;
use crate::fp::float_eq;
use crate::fp::float_le;
use crate::fp::float_lt;
use crate::fp::float_of_int;
use crate::fp::fp_eq;
use crate::fp::fp_le;
use crate::fp::fp_lt;
use crate::fp::fp_of_int;
use crate::lexer::Pos;
use crate::lexer::to_vec_of;
use crate::text::bytes_eq;
use crate::text::bytes_lt;
use crate::text::bytes_lt_exec;

verus! {

/// Total equality: cross-kind numeric pairs compare by value, any other
/// mismatched pair is simply unequal.
pub open spec fn spec_is(a: ValueV, b: ValueV) -> bool {
    match (a, b) {
        (ValueV::Int(x), ValueV::Int(y)) => x == y,
        (ValueV::Int(x), ValueV::Float(g)) => fp_eq(fp_of_int(x as i128), g),
        (ValueV::Float(f), ValueV::Int(y)) => fp_eq(f, fp_of_int(y as i128)),
        (ValueV::Float(f), ValueV::Float(g)) => fp_eq(f, g),
        (ValueV::Text(s), ValueV::Text(t)) => s == t,
        (ValueV::Choice(x), ValueV::Choice(y)) => x == y,
        _ => false,
    }
}

/// Strictly below: numbers by value, text lexically; anything else is an
/// error.
pub open spec fn spec_below(a: ValueV, b: ValueV) -> Result<ValueV, Seq<u8>> {
    match (a, b) {
        (ValueV::Int(x), ValueV::Int(y)) => Ok(ValueV::Choice(x < y)),
        (ValueV::Int(x), ValueV::Float(g)) => Ok(ValueV::Choice(fp_lt(fp_of_int(x as i128), g))),
        (ValueV::Float(f), ValueV::Int(y)) => Ok(ValueV::Choice(fp_lt(f, fp_of_int(y as i128)))),
        (ValueV::Float(f), ValueV::Float(g)) => Ok(ValueV::Choice(fp_lt(f, g))),
        (ValueV::Text(s), ValueV::Text(t)) => Ok(ValueV::Choice(bytes_lt(s, t))),
        _ => Err(("CANNOT COMPARE VALUES: below").spec_bytes()),
    }
}

/// Strictly above.
pub open spec fn spec_above(a: ValueV, b: ValueV) -> Result<ValueV, Seq<u8>> {
    match (a, b) {
        (ValueV::Int(x), ValueV::Int(y)) => Ok(ValueV::Choice(x > y)),
        (ValueV::Int(x), ValueV::Float(g)) => Ok(ValueV::Choice(fp_lt(g, fp_of_int(x as i128)))),
        (ValueV::Float(f), ValueV::Int(y)) => Ok(ValueV::Choice(fp_lt(fp_of_int(y as i128), f))),
        (ValueV::Float(f), ValueV::Float(g)) => Ok(ValueV::Choice(fp_lt(g, f))),
        (ValueV::Text(s), ValueV::Text(t)) => Ok(ValueV::Choice(bytes_lt(t, s))),
        _ => Err(("CAN'T COMPARE VALUES: above").spec_bytes()),
    }
}

/// Below or equal.
pub open spec fn spec_atmost(a: ValueV, b: ValueV) -> Result<ValueV, Seq<u8>> {
    match (a, b) {
        (ValueV::Int(x), ValueV::Int(y)) => Ok(ValueV::Choice(x <= y)),
        (ValueV::Int(x), ValueV::Float(g)) => Ok(ValueV::Choice(fp_le(fp_of_int(x as i128), g))),
        (ValueV::Float(f), ValueV::Int(y)) => Ok(ValueV::Choice(fp_le(f, fp_of_int(y as i128)))),
        (ValueV::Float(f), ValueV::Float(g)) => Ok(ValueV::Choice(fp_le(f, g))),
        (ValueV::Text(s), ValueV::Text(t)) => Ok(ValueV::Choice(!bytes_lt(t, s))),
        _ => Err(("CAN'T COMPARE VALUES: atmost").spec_bytes()),
    }
}

/// Above or equal.
pub open spec fn spec_atleast(a: ValueV, b: ValueV) -> Result<ValueV, Seq<u8>> {
    match (a, b) {
        (ValueV::Int(x), ValueV::Int(y)) => Ok(ValueV::Choice(x >= y)),
        (ValueV::Int(x), ValueV::Float(g)) => Ok(ValueV::Choice(fp_le(g, fp_of_int(x as i128)))),
        (ValueV::Float(f), ValueV::Int(y)) => Ok(ValueV::Choice(fp_le(fp_of_int(y as i128), f))),
        (ValueV::Float(f), ValueV::Float(g)) => Ok(ValueV::Choice(fp_le(g, f))),
        (ValueV::Text(s), ValueV::Text(t)) => Ok(ValueV::Choice(!bytes_lt(s, t))),
        _ => Err(("CAN'T COMPARE VALUES: atleast").spec_bytes()),
    }
}

impl Eval {
    /// Total equality, never an error.
    pub fn is(&self, a: &Value, b: &Value) -> (r: Value)
        ensures
            r.v() == ValueV::Choice(spec_is(a.v(), b.v())),
    {
        Value::Choice(
            match (a, b) {
                (Value::Int(x), Value::Int(y)) => *x == *y,
                (Value::Int(x), Value::Float(g)) => float_eq(float_of_int(*x), *g),
                (Value::Float(f), Value::Int(y)) => float_eq(*f, float_of_int(*y)),
                (Value::Float(f), Value::Float(g)) => float_eq(*f, *g),
                (Value::Text(s), Value::Text(t)) => bytes_eq(s.as_slice(), t.as_slice()),
                (Value::Choice(x), Value::Choice(y)) => *x == *y,
                _ => false,
            },
        )
    }

    /// Total inequality.
    pub fn isnt(&self, a: &Value, b: &Value) -> (r: Value)
        ensures
            r.v() == ValueV::Choice(!spec_is(a.v(), b.v())),
    {
        let e = self.is(a, b);
        self.not(&e)
    }

    /// Logical negation over the boolean coercion.
    pub fn not(&self, a: &Value) -> (r: Value)
        ensures
            r.v() == ValueV::Choice(!spec_choice(a.v())),
    {
        match self.choice(a) {
            Value::Choice(b) => Value::Choice(!b),
            _ => Value::Choice(false),
        }
    }

    /// Logical and over the boolean coercion.
    pub fn and(&self, a: &Value, b: &Value) -> (r: Value)
        ensures
            r.v() == ValueV::Choice(spec_choice(a.v()) && spec_choice(b.v())),
    {
        match (self.choice(a), self.choice(b)) {
            (Value::Choice(x), Value::Choice(y)) => Value::Choice(x && y),
            _ => Value::Choice(false),
        }
    }

    /// Logical or over the boolean coercion.
    pub fn or(&self, a: &Value, b: &Value) -> (r: Value)
        ensures
            r.v() == ValueV::Choice(spec_choice(a.v()) || spec_choice(b.v())),
    {
        match (self.choice(a), self.choice(b)) {
            (Value::Choice(x), Value::Choice(y)) => Value::Choice(x || y),
            _ => Value::Choice(false),
        }
    }

    pub fn below(&self, a: &Value, b: &Value, location: Pos) -> (r: Result<Value, Errors>)
        requires
            self.wf(),
        ensures
            ({
                let s = spec_below(a.v(), b.v());
                match r {
                    Ok(v) => s == Ok::<ValueV, Seq<u8>>(v.v()),
                    Err(e) => s is Err && e@ == rerr(
                        s->Err_0,
                        location.0 as int,
                        location.1 as int,
                        self.srcv(),
                    ),
                }
            }),
    {
        match (a, b) {
            (Value::Int(x), Value::Int(y)) => Ok(Value::Choice(*x < *y)),
            (Value::Int(x), Value::Float(g)) => Ok(Value::Choice(float_lt(float_of_int(*x), *g))),
            (Value::Float(f), Value::Int(y)) => Ok(Value::Choice(float_lt(*f, float_of_int(*y)))),
            (Value::Float(f), Value::Float(g)) => Ok(Value::Choice(float_lt(*f, *g))),
            (Value::Text(s), Value::Text(t)) => Ok(
                Value::Choice(bytes_lt_exec(s.as_slice(), t.as_slice())),
            ),
            _ => Err(
                self.runtime_error(
                    to_vec_of(("CANNOT COMPARE VALUES: below").as_bytes()),
                    location,
                ),
            ),
        }
    }

    pub fn above(&self, a: &Value, b: &Value, location: Pos) -> (r: Result<Value, Errors>)
        requires
            self.wf(),
        ensures
            ({
                let s = spec_above(a.v(), b.v());
                match r {
                    Ok(v) => s == Ok::<ValueV, Seq<u8>>(v.v()),
                    Err(e) => s is Err && e@ == rerr(
                        s->Err_0,
                        location.0 as int,
                        location.1 as int,
                        self.srcv(),
                    ),
                }
            }),
    {
        match (a, b) {
            (Value::Int(x), Value::Int(y)) => Ok(Value::Choice(*x > *y)),
            (Value::Int(x), Value::Float(g)) => Ok(Value::Choice(float_lt(*g, float_of_int(*x)))),
            (Value::Float(f), Value::Int(y)) => Ok(Value::Choice(float_lt(float_of_int(*y), *f))),
            (Value::Float(f), Value::Float(g)) => Ok(Value::Choice(float_lt(*g, *f))),
            (Value::Text(s), Value::Text(t)) => Ok(
                Value::Choice(bytes_lt_exec(t.as_slice(), s.as_slice())),
            ),
            _ => Err(
                self.runtime_error(
                    to_vec_of(("CAN'T COMPARE VALUES: above").as_bytes()),
                    location,
                ),
            ),
        }
    }

    pub fn atmost(&self, a: &Value, b: &Value, location: Pos) -> (r: Result<Value, Errors>)
        requires
            self.wf(),
        ensures
            ({
                let s = spec_atmost(a.v(), b.v());
                match r {
                    Ok(v) => s == Ok::<ValueV, Seq<u8>>(v.v()),
                    Err(e) => s is Err && e@ == rerr(
                        s->Err_0,
                        location.0 as int,
                        location.1 as int,
                        self.srcv(),
                    ),
                }
            }),
    {
        match (a, b) {
            (Value::Int(x), Value::Int(y)) => Ok(Value::Choice(*x <= *y)),
            (Value::Int(x), Value::Float(g)) => Ok(Value::Choice(float_le(float_of_int(*x), *g))),
            (Value::Float(f), Value::Int(y)) => Ok(Value::Choice(float_le(*f, float_of_int(*y)))),
            (Value::Float(f), Value::Float(g)) => Ok(Value::Choice(float_le(*f, *g))),
            (Value::Text(s), Value::Text(t)) => Ok(
                Value::Choice(!bytes_lt_exec(t.as_slice(), s.as_slice())),
            ),
            _ => Err(
                self.runtime_error(
                    to_vec_of(("CAN'T COMPARE VALUES: atmost").as_bytes()),
                    location,
                ),
            ),
        }
    }

    pub fn atleast(&self, a: &Value, b: &Value, location: Pos) -> (r: Result<Value, Errors>)
        requires
            self.wf(),
        ensures
            ({
                let s = spec_atleast(a.v(), b.v());
                match r {
                    Ok(v) => s == Ok::<ValueV, Seq<u8>>(v.v()),
                    Err(e) => s is Err && e@ == rerr(
                        s->Err_0,
                        location.0 as int,
                        location.1 as int,
                        self.srcv(),
                    ),
                }
            }),
    {
        match (a, b) {
            (Value::Int(x), Value::Int(y)) => Ok(Value::Choice(*x >= *y)),
            (Value::Int(x), Value::Float(g)) => Ok(Value::Choice(float_le(*g, float_of_int(*x)))),
            (Value::Float(f), Value::Int(y)) => Ok(Value::Choice(float_le(float_of_int(*y), *f))),
            (Value::Float(f), Value::Float(g)) => Ok(Value::Choice(float_le(*g, *f))),
            (Value::Text(s), Value::Text(t)) => Ok(
                Value::Choice(!bytes_lt_exec(s.as_slice(), t.as_slice())),
            ),
            _ => Err(
                self.runtime_error(
                    to_vec_of(("CAN'T COMPARE VALUES: atleast").as_bytes()),
                    location,
                ),
            ),
        }
    }
}

} // verus!
