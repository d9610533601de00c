//! The three total coercions: to-boolean, to-number and to-text.

use vstd::prelude::*;

use vstd::string::StringSliceAdditionalSpecFns;

use crate::errors::ErrV;
use crate::errors::Errors;
use crate::eval::Eval;
use crate::eval::Value;
use crate::eval::ValueV;
use crate::eval::rerr;
use crate::fp::float_of_text;
use crate::fp::float_text;
use crate::fp::float_text_spec;
use crate::fp::fp_eq;
use crate::fp::parse_float_text;
use crate::lexer::Pos;
use crate::lexer::ReaderV;
use crate::lexer::reader_wf;
use crate::lexer::to_vec_of;
use crate::text::all_digits;
use crate::text::bytes_eq;
use crate::text::digits_val;
use crate::text::int_text;
use crate::text::is_digit;
use crate::text::parse_digits_mag;
use crate::text::render_i128;

verus! {

/// Attaches a position to an operation's bare failure message.
pub open spec fn lift(r: Result<ValueV, Seq<u8>>, line: int, col: int, src: ReaderV) -> Result<
    ValueV,
    ErrV,
> {
    match r {
        Ok(v) => Ok(v),
        Err(m) => Err(rerr(m, line, col, src)),
    }
}

/// to-boolean: total over every kind. Numbers are true when nonzero, text
/// when non-empty, absence never.
pub open spec fn spec_choice(a: ValueV) -> bool {
    match a {
        ValueV::Choice(b) => b,
        ValueV::Int(x) => x != 0,
        ValueV::Float(f) => !fp_eq(f, 0),
        ValueV::Text(s) => s.len() != 0,
        ValueV::Nothing => false,
    }
}

/// The integer a piece of text names under the standard library's integer
/// grammar: an optional sign and digits, within the runtime's integer
/// range.
pub open spec fn spec_parse_int_text(s: Seq<u8>) -> Option<int> {
    let neg = s.len() > 0 && s[0] == 45;
    let o: int = if s.len() > 0 && (s[0] == 43 || s[0] == 45) {
        1
    } else {
        0
    };
    let ds = s.skip(o);
    if ds.len() == 0 || !all_digits(ds) {
        None
    } else {
        let v: int = if neg {
            -(digits_val(ds) as int)
        } else {
            digits_val(ds) as int
        };
        if i128::MIN <= v <= i128::MAX {
            Some(v)
        } else {
            None
        }
    }
}

/// to-number: booleans map true to 0 and false to 1, numbers pass through,
/// text is read as an integer and then as a double, absence is 0; never an
/// error.
pub open spec fn spec_num(a: ValueV) -> ValueV {
    match a {
        ValueV::Choice(b) => ValueV::Int(
            if b {
                0
            } else {
                1
            },
        ),
        ValueV::Int(x) => ValueV::Int(x),
        ValueV::Float(f) => ValueV::Float(f),
        ValueV::Text(s) => match spec_parse_int_text(s) {
            Some(v) => ValueV::Int(v),
            None => match crate::fp::float_of_text(s) {
                Some(bits) => ValueV::Float(bits),
                None => ValueV::Nothing,
            },
        },
        ValueV::Nothing => ValueV::Int(0),
    }
}

/// to-text: canonical decimal forms for numbers, the fixed yes/no words for
/// booleans, a fixed word for absence, text passes through.
pub open spec fn spec_text(a: ValueV) -> Seq<u8> {
    match a {
        ValueV::Int(x) => int_text(x),
        ValueV::Float(f) => float_text_spec(f),
        ValueV::Text(s) => s,
        ValueV::Choice(b) => if b {
            ("yes").spec_bytes()
        } else {
            ("no").spec_bytes()
        },
        ValueV::Nothing => ("nothing").spec_bytes(),
    }
}

/// Reads an integer out of text exactly where the standard library's
/// integer parsing would.
#[verifier::loop_isolation(false)]
pub fn parse_int_text(s: &[u8]) -> (r: Option<i128>)
    ensures
        match r {
            Some(v) => spec_parse_int_text(s@) == Some(v as int),
            None => spec_parse_int_text(s@) is None,
        },
{
    let n = s.len();
    let neg = n > 0 && s[0] == 45;
    let o: usize = if n > 0 && (s[0] == 43 || s[0] == 45) {
        1
    } else {
        0
    };
    if o >= n {
        proof {
            assert(s@.skip(o as int).len() == 0);
        }
        return None;
    }
    let ds = vstd::slice::slice_subrange(s, o, n);
    proof {
        assert(ds@ =~= s@.skip(o as int));
    }
    let mut i: usize = 0;
    while i < ds.len()
        invariant
            i <= ds@.len(),
            forall|k: int| 0 <= k < i ==> is_digit(#[trigger] ds@[k]),
        decreases ds@.len() - i,
    {
        if !crate::text::is_digit_byte(ds[i]) {
            proof {
                assert(!is_digit(ds@[i as int]));
                assert(!all_digits(ds@));
            }
            return None;
        }
        i += 1;
    }
    proof {
        assert(all_digits(ds@));
    }
    match parse_digits_mag(ds) {
        None => None,
        Some(m) => {
            if neg {
                if m > 0x8000_0000_0000_0000_0000_0000_0000_0000u128 {
                    None
                } else if m == 0x8000_0000_0000_0000_0000_0000_0000_0000u128 {
                    Some(i128::MIN)
                } else {
                    Some(-(m as i128))
                }
            } else {
                if m > 0x7fff_ffff_ffff_ffff_ffff_ffff_ffff_ffffu128 {
                    None
                } else {
                    Some(m as i128)
                }
            }
        },
    }
}

impl Eval {
    /// to-boolean, total: never an error for any of the five kinds.
    pub fn choice(&self, a: &Value) -> (r: Value)
        ensures
            r.v() == ValueV::Choice(spec_choice(a.v())),
    {
        Value::Choice(
            match a {
                Value::Choice(b) => *b,
                Value::Int(x) => *x != 0,
                Value::Float(f) => !crate::fp::float_eq(*f, 0),
                Value::Text(s) => s.len() != 0,
                Value::Nothing => false,
            },
        )
    }

    /// to-number, total: text that names no number becomes absence, never
    /// an error.
    pub fn num(&self, a: &Value, _location: Pos) -> (r: Value)
        ensures
            r.v() == spec_num(a.v()),
    {
        match a {
            Value::Choice(b) => Value::Int(
                if *b {
                    0
                } else {
                    1
                },
            ),
            Value::Int(x) => Value::Int(*x),
            Value::Float(f) => Value::Float(*f),
            Value::Text(s) => {
                match parse_int_text(s.as_slice()) {
                    Some(v) => Value::Int(v),
                    None => match parse_float_text(s.as_slice()) {
                        Some(bits) => Value::Float(bits),
                        None => Value::Nothing,
                    },
                }
            },
            Value::Nothing => Value::Int(0),
        }
    }

    /// to-text, total.
    pub fn text(&self, a: &Value) -> (r: Value)
        ensures
            r.v() == ValueV::Text(spec_text(a.v())),
    {
        Value::Text(
            match a {
                Value::Int(x) => render_i128(*x),
                Value::Float(f) => float_text(*f),
                Value::Text(s) => to_vec_of(s.as_slice()),
                Value::Choice(b) => if *b {
                    to_vec_of(("yes").as_bytes())
                } else {
                    to_vec_of(("no").as_bytes())
                },
                Value::Nothing => to_vec_of(("nothing").as_bytes()),
            },
        )
    }
}

} // verus!
