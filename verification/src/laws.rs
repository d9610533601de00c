//! The pipeline end to end, and the laws the library states of itself.

use vstd::prelude::*;

use crate::errors::ErrV;
use crate::errors::Errors;
use crate::eval::Eval;
use crate::eval::StV;
use crate::eval::Value;
use crate::eval::ValueV;
use crate::eval::arith::fits_i128;
use crate::eval::arith::spec_minus;
use crate::eval::arith::spec_plus;
use crate::eval::arith::spec_times;
use crate::eval::conv::spec_choice;
use crate::eval::conv::spec_num;
use crate::eval::spec_run_prog;
use crate::fp::fp_add;
use crate::fp::fp_mul;
use crate::fp::fp_of_int;
use crate::fp::fp_sub;
use crate::lexer::LexSt;
use crate::lexer::Lexer;
use crate::lexer::Reader;
use crate::lexer::ReaderV;
use crate::lexer::nl_positions;
use crate::lexer::spec_lex;
use crate::lexer::spec_lex_final;
use crate::lexer::to_vec_of;
use crate::parser::Parser;
use crate::parser::spec_parse;

verus! {

/// The source view a full scan of `source` leaves behind.
pub open spec fn post_lex_view(source: Seq<u8>) -> ReaderV {
    let fin = spec_lex_final(source, LexSt { pt: 0, line: 1, col: 1 });
    ReaderV {
        input: source,
        newlines: nl_positions(source.take(fin.pt)),
        pt: fin.pt,
        line: fin.line,
        col: fin.col,
    }
}

/// The whole pipeline as mathematics: what running a source over the given
/// console input lines writes, and how the run ends.
pub open spec fn spec_run_source(source: Seq<u8>, inputs: Seq<Seq<u8>>) -> (
    Seq<u8>,
    Result<ValueV, ErrV>,
) {
    match spec_lex(source) {
        Err(e) => (Seq::empty(), Err(e)),
        Ok(ts) => {
            let rv = post_lex_view(source);
            match spec_parse(ts, rv) {
                Err(e) => (Seq::empty(), Err(e)),
                Ok(prog) => {
                    let er = spec_run_prog(
                        prog,
                        0,
                        StV { env: Map::empty(), in_pos: 0, out: Seq::empty() },
                        inputs,
                        rv,
                        ValueV::Nothing,
                    );
                    (er.st.out, er.res)
                },
            }
        },
    }
}

/// Lexes, parses and runs a source against the given console input lines:
/// the bytes the run writes, and the final value or the first error.
pub fn run_source(source: Vec<u8>, inputs: Vec<Vec<u8>>) -> (r: (Vec<u8>, Result<Value, Errors>))
    requires
        source@.len() + 2 <= usize::MAX,
    ensures
        ({
            let (out, res) = spec_run_source(source@, inputs@.map_values(|v: Vec<u8>| v@));
            r.0@ == out && (match r.1 {
                Ok(v) => res == Ok::<ValueV, ErrV>(v.v()),
                Err(e) => res == Err::<ValueV, ErrV>(e@),
            })
        }),
{
    let ghost src0 = source@;
    let reader = Reader::new(source);
    let mut lexer = Lexer::new(reader);
    let tokens = match lexer.lex() {
        Ok(t) => t,
        Err(e) => {
            return (Vec::new(), Err(e));
        },
    };
    let reader2 = lexer.into_reader();
    proof {
        assert(reader2@ == post_lex_view(src0));
    }
    let mut parser = Parser::new(tokens, reader2);
    let prog = match parser.parse() {
        Ok(p) => p,
        Err(e) => {
            return (Vec::new(), Err(e));
        },
    };
    let reader3 = parser.into_reader();
    let mut ev = Eval::new(reader3, inputs);
    let res = ev.run_prog(&prog);
    let out = to_vec_of(ev.output().as_slice());
    (out, res)
}

/// Addition, subtraction and multiplication of two integers are exact
/// whenever the mathematical result fits the integer representation, and
/// otherwise equal the double-precision result of the same operation on
/// the converted operands.
pub proof fn lemma_int_arith_exact(x: int, y: int)
    requires
        fits_i128(x),
        fits_i128(y),
    ensures
        fits_i128(x + y) ==> spec_plus(ValueV::Int(x), ValueV::Int(y)) == Ok::<ValueV, Seq<u8>>(
            ValueV::Int(x + y),
        ),
        !fits_i128(x + y) ==> spec_plus(ValueV::Int(x), ValueV::Int(y)) == Ok::<ValueV, Seq<u8>>(
            ValueV::Float(fp_add(fp_of_int(x as i128), fp_of_int(y as i128))),
        ),
        fits_i128(x - y) ==> spec_minus(ValueV::Int(x), ValueV::Int(y)) == Ok::<ValueV, Seq<u8>>(
            ValueV::Int(x - y),
        ),
        !fits_i128(x - y) ==> spec_minus(ValueV::Int(x), ValueV::Int(y)) == Ok::<ValueV, Seq<u8>>(
            ValueV::Float(fp_sub(fp_of_int(x as i128), fp_of_int(y as i128))),
        ),
        fits_i128(x * y) ==> spec_times(ValueV::Int(x), ValueV::Int(y)) == Ok::<ValueV, Seq<u8>>(
            ValueV::Int(x * y),
        ),
        !fits_i128(x * y) ==> spec_times(ValueV::Int(x), ValueV::Int(y)) == Ok::<ValueV, Seq<u8>>(
            ValueV::Float(fp_mul(fp_of_int(x as i128), fp_of_int(y as i128))),
        ),
{
}

/// to-boolean never errors: it is a total function, defined on each of the
/// five value kinds.
pub proof fn lemma_to_boolean_total(v: ValueV)
    ensures
        ({
            match v {
                ValueV::Int(x) => spec_choice(v) == (x != 0),
                ValueV::Float(f) => spec_choice(v) == !crate::fp::fp_eq(f, 0),
                ValueV::Text(s) => spec_choice(v) == (s.len() != 0),
                ValueV::Choice(b) => spec_choice(v) == b,
                ValueV::Nothing => spec_choice(v) == false,
            }
        }),
{
}

/// to-number of to-boolean: a value that coerces true numbers as 0, one
/// that coerces false numbers as 1 — exactly the inverted mapping.
pub proof fn lemma_num_of_choice(v: ValueV)
    ensures
        spec_choice(v) ==> spec_num(ValueV::Choice(spec_choice(v))) == ValueV::Int(0),
        !spec_choice(v) ==> spec_num(ValueV::Choice(spec_choice(v))) == ValueV::Int(1),
{
}

/// Re-running identical source with identical input lines from fresh state
/// produces byte-identical output and the same ending: the whole pipeline
/// is one mathematical function of source and input.
pub proof fn lemma_run_deterministic(
    source: Seq<u8>,
    inputs: Seq<Seq<u8>>,
    a: (Seq<u8>, Result<ValueV, ErrV>),
    b: (Seq<u8>, Result<ValueV, ErrV>),
)
    requires
        a == spec_run_source(source, inputs),
        b == spec_run_source(source, inputs),
    ensures
        a == b,
{
}

} // verus!
