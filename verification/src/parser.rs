//! The parser: consumes the token sequence through a cursor with lookahead
//! and produces one statement per source line by recursive descent with
//! explicit operator-precedence levels.

use vstd::prelude::*;

use vstd::string::StringSliceAdditionalSpecFns;

use crate::ast::Expr;
use crate::ast::ExprV;
use crate::ast::Literal;
use crate::ast::LitV;
use crate::ast::Operator;
use crate::ast::Stmt;
use crate::ast::StmtV;
use crate::ast::prog_view;
use crate::errors::ErrV;
use crate::errors::Errors;
use crate::fp::fp_of_decimal;
use crate::fp::float_of_decimal;
use crate::lexer::Pos;
use crate::lexer::Reader;
use crate::lexer::ReaderV;
use crate::lexer::get_line_spec;
use crate::lexer::reader_wf;
use crate::lexer::to_vec_of;
use crate::lexer::tokens_view;
use crate::text::INT_LIT_BOUND;
use crate::text::bytes_eq;
use crate::token::TokV;
use crate::token::Token;
use crate::token::TokenType;
use crate::token::TokenV;

verus! {

/// What parsing an expression leaves behind: the cursor and the tree or the
/// first syntax error.
pub struct PRes {
    pub i: int,
    pub res: Result<ExprV, ErrV>,
}

/// The same for one statement.
pub struct SRes {
    pub i: int,
    pub res: Result<StmtV, ErrV>,
}

/// The same for a whole program.
pub struct GRes {
    pub i: int,
    pub res: Result<Seq<StmtV>, ErrV>,
}

/// The token at `i`, or the end marker.
pub open spec fn tok_at(ts: Seq<TokenV>, i: int) -> TokenV {
    if 0 <= i < ts.len() {
        ts[i]
    } else {
        TokenV { t: TokV::K(TokenType::Eof), line: 0, col: 0 }
    }
}

/// A syntax error at a token, quoting the token's line.
pub open spec fn perr(msg: Seq<u8>, t: TokenV, src: ReaderV) -> ErrV {
    ErrV::Syntax { msg, line: t.line, col: t.col, text: get_line_spec(src, t.line) }
}

/// The token sequence ends with the end marker and holds it nowhere else.
pub open spec fn tokens_wf(ts: Seq<TokenV>) -> bool {
    &&& ts.len() >= 1
    &&& ts.last().t == TokV::K(TokenType::Eof)
    &&& forall|k: int| 0 <= k < ts.len() - 1 ==> !((#[trigger] ts[k]).t == TokV::K(TokenType::Eof))
}

#[verifier::opaque]
pub open spec fn spec_parse_or(ts: Seq<TokenV>, i: int, src: ReaderV) -> PRes
    decreases ts.len() - i, 39int,
{
    let a = spec_parse_and(ts, i, src);
    match a.res {
        Err(e) => a,
        Ok(x) => if i < a.i <= ts.len() {
            spec_or_loop(ts, a.i, x, src)
        } else {
            a
        },
    }
}

#[verifier::opaque]
pub open spec fn spec_or_loop(ts: Seq<TokenV>, i: int, acc: ExprV, src: ReaderV) -> PRes
    decreases ts.len() - i, 39int,
{
    let t = tok_at(ts, i);
    if t.t == TokV::K(TokenType::Or) {
        let b = spec_parse_and(ts, i + 1, src);
        match b.res {
            Err(e) => b,
            Ok(y) => {
                let op = Operator::Or;
                let acc2 = ExprV::Binary(op, Box::new(acc), Box::new(y), t.line, t.col);
                if i + 1 < b.i <= ts.len() {
                    spec_or_loop(ts, b.i, acc2, src)
                } else {
                    PRes { i: b.i, res: Ok(acc2) }
                }
            },
        }
    } else {
        PRes { i, res: Ok(acc) }
    }
}

#[verifier::opaque]
pub open spec fn spec_parse_and(ts: Seq<TokenV>, i: int, src: ReaderV) -> PRes
    decreases ts.len() - i, 37int,
{
    let a = spec_parse_not(ts, i, src);
    match a.res {
        Err(e) => a,
        Ok(x) => if i < a.i <= ts.len() {
            spec_and_loop(ts, a.i, x, src)
        } else {
            a
        },
    }
}

#[verifier::opaque]
pub open spec fn spec_and_loop(ts: Seq<TokenV>, i: int, acc: ExprV, src: ReaderV) -> PRes
    decreases ts.len() - i, 37int,
{
    let t = tok_at(ts, i);
    if t.t == TokV::K(TokenType::And) {
        let b = spec_parse_not(ts, i + 1, src);
        match b.res {
            Err(e) => b,
            Ok(y) => {
                let op = Operator::And;
                let acc2 = ExprV::Binary(op, Box::new(acc), Box::new(y), t.line, t.col);
                if i + 1 < b.i <= ts.len() {
                    spec_and_loop(ts, b.i, acc2, src)
                } else {
                    PRes { i: b.i, res: Ok(acc2) }
                }
            },
        }
    } else {
        PRes { i, res: Ok(acc) }
    }
}

#[verifier::opaque]
pub open spec fn spec_parse_is(ts: Seq<TokenV>, i: int, src: ReaderV) -> PRes
    decreases ts.len() - i, 33int,
{
    let a = spec_parse_cmp(ts, i, src);
    match a.res {
        Err(e) => a,
        Ok(x) => if i < a.i <= ts.len() {
            spec_is_loop(ts, a.i, x, src)
        } else {
            a
        },
    }
}

#[verifier::opaque]
pub open spec fn spec_is_loop(ts: Seq<TokenV>, i: int, acc: ExprV, src: ReaderV) -> PRes
    decreases ts.len() - i, 33int,
{
    let t = tok_at(ts, i);
    if t.t == TokV::K(TokenType::Is) || t.t == TokV::K(TokenType::Isnt) {
        let b = spec_parse_cmp(ts, i + 1, src);
        match b.res {
            Err(e) => b,
            Ok(y) => {
                let op = if t.t == TokV::K(TokenType::Is) {
                    Operator::Is
                } else {
                    Operator::Isnt
                };
                let acc2 = ExprV::Binary(op, Box::new(acc), Box::new(y), t.line, t.col);
                if i + 1 < b.i <= ts.len() {
                    spec_is_loop(ts, b.i, acc2, src)
                } else {
                    PRes { i: b.i, res: Ok(acc2) }
                }
            },
        }
    } else {
        PRes { i, res: Ok(acc) }
    }
}

#[verifier::opaque]
pub open spec fn spec_parse_cmp(ts: Seq<TokenV>, i: int, src: ReaderV) -> PRes
    decreases ts.len() - i, 31int,
{
    let a = spec_parse_arith(ts, i, src);
    match a.res {
        Err(e) => a,
        Ok(x) => if i < a.i <= ts.len() {
            spec_cmp_loop(ts, a.i, x, src)
        } else {
            a
        },
    }
}

#[verifier::opaque]
pub open spec fn spec_cmp_loop(ts: Seq<TokenV>, i: int, acc: ExprV, src: ReaderV) -> PRes
    decreases ts.len() - i, 31int,
{
    let t = tok_at(ts, i);
    if t.t == TokV::K(TokenType::Below) || t.t == TokV::K(TokenType::Above) || t.t == TokV::K(TokenType::AtMost) || t.t == TokV::K(TokenType::AtLeast) {
        let b = spec_parse_arith(ts, i + 1, src);
        match b.res {
            Err(e) => b,
            Ok(y) => {
                let op = if t.t == TokV::K(TokenType::Below) {
                    Operator::Below
                } else if t.t == TokV::K(TokenType::Above) {
                    Operator::Above
                } else if t.t == TokV::K(TokenType::AtMost) {
                    Operator::AtMost
                } else {
                    Operator::AtLeast
                };
                let acc2 = ExprV::Binary(op, Box::new(acc), Box::new(y), t.line, t.col);
                if i + 1 < b.i <= ts.len() {
                    spec_cmp_loop(ts, b.i, acc2, src)
                } else {
                    PRes { i: b.i, res: Ok(acc2) }
                }
            },
        }
    } else {
        PRes { i, res: Ok(acc) }
    }
}

#[verifier::opaque]
pub open spec fn spec_parse_arith(ts: Seq<TokenV>, i: int, src: ReaderV) -> PRes
    decreases ts.len() - i, 29int,
{
    let a = spec_parse_term(ts, i, src);
    match a.res {
        Err(e) => a,
        Ok(x) => if i < a.i <= ts.len() {
            spec_arith_loop(ts, a.i, x, src)
        } else {
            a
        },
    }
}

#[verifier::opaque]
pub open spec fn spec_arith_loop(ts: Seq<TokenV>, i: int, acc: ExprV, src: ReaderV) -> PRes
    decreases ts.len() - i, 29int,
{
    let t = tok_at(ts, i);
    if t.t == TokV::K(TokenType::Plus) || t.t == TokV::K(TokenType::Minus) {
        let b = spec_parse_term(ts, i + 1, src);
        match b.res {
            Err(e) => b,
            Ok(y) => {
                let op = if t.t == TokV::K(TokenType::Plus) {
                    Operator::Plus
                } else {
                    Operator::Minus
                };
                let acc2 = ExprV::Binary(op, Box::new(acc), Box::new(y), t.line, t.col);
                if i + 1 < b.i <= ts.len() {
                    spec_arith_loop(ts, b.i, acc2, src)
                } else {
                    PRes { i: b.i, res: Ok(acc2) }
                }
            },
        }
    } else {
        PRes { i, res: Ok(acc) }
    }
}

#[verifier::opaque]
pub open spec fn spec_parse_term(ts: Seq<TokenV>, i: int, src: ReaderV) -> PRes
    decreases ts.len() - i, 27int,
{
    let a = spec_parse_exp(ts, i, src);
    match a.res {
        Err(e) => a,
        Ok(x) => if i < a.i <= ts.len() {
            spec_term_loop(ts, a.i, x, src)
        } else {
            a
        },
    }
}

#[verifier::opaque]
pub open spec fn spec_term_loop(ts: Seq<TokenV>, i: int, acc: ExprV, src: ReaderV) -> PRes
    decreases ts.len() - i, 27int,
{
    let t = tok_at(ts, i);
    if t.t == TokV::K(TokenType::Times) || t.t == TokV::K(TokenType::Over) || t.t == TokV::K(TokenType::Mod) {
        let b = spec_parse_exp(ts, i + 1, src);
        match b.res {
            Err(e) => b,
            Ok(y) => {
                let op = if t.t == TokV::K(TokenType::Times) {
                    Operator::Times
                } else if t.t == TokV::K(TokenType::Over) {
                    Operator::Over
                } else {
                    Operator::Mod
                };
                let acc2 = ExprV::Binary(op, Box::new(acc), Box::new(y), t.line, t.col);
                if i + 1 < b.i <= ts.len() {
                    spec_term_loop(ts, b.i, acc2, src)
                } else {
                    PRes { i: b.i, res: Ok(acc2) }
                }
            },
        }
    } else {
        PRes { i, res: Ok(acc) }
    }
}

#[verifier::opaque]
pub open spec fn spec_parse_not(ts: Seq<TokenV>, i: int, src: ReaderV) -> PRes
    decreases ts.len() - i, 35int,
{
    let t = tok_at(ts, i);
    if t.t == TokV::K(TokenType::Not) {
        if 0 <= i < ts.len() {
            let a = spec_parse_is(ts, i + 1, src);
            match a.res {
                Err(e) => a,
                Ok(x) => {
                    let op = Operator::Not;
                    PRes { i: a.i, res: Ok(ExprV::Unary(op, Box::new(x), t.line, t.col)) }
                },
            }
        } else {
            PRes { i, res: Err(perr(("NEED VALUE").spec_bytes(), t, src)) }
        }
    } else {
        spec_parse_is(ts, i, src)
    }
}

#[verifier::opaque]
pub open spec fn spec_parse_conv(ts: Seq<TokenV>, i: int, src: ReaderV) -> PRes
    decreases ts.len() - i, 23int,
{
    let t = tok_at(ts, i);
    if t.t == TokV::K(TokenType::Num) || t.t == TokV::K(TokenType::Text) || t.t == TokV::K(TokenType::Choice) {
        if 0 <= i < ts.len() {
            let a = spec_parse_neg(ts, i + 1, src);
            match a.res {
                Err(e) => a,
                Ok(x) => {
                    let op = if t.t == TokV::K(TokenType::Num) {
                Operator::Num
            } else if t.t == TokV::K(TokenType::Text) {
                Operator::Text
            } else {
                Operator::Choice
            };
                    PRes { i: a.i, res: Ok(ExprV::Unary(op, Box::new(x), t.line, t.col)) }
                },
            }
        } else {
            PRes { i, res: Err(perr(("NEED VALUE").spec_bytes(), t, src)) }
        }
    } else {
        spec_parse_neg(ts, i, src)
    }
}

#[verifier::opaque]
pub open spec fn spec_parse_neg(ts: Seq<TokenV>, i: int, src: ReaderV) -> PRes
    decreases ts.len() - i, 21int,
{
    let t = tok_at(ts, i);
    if t.t == TokV::K(TokenType::Neg) {
        if 0 <= i < ts.len() {
            let a = spec_parse_decimal(ts, i + 1, src);
            match a.res {
                Err(e) => a,
                Ok(x) => {
                    let op = Operator::Neg;
                    PRes { i: a.i, res: Ok(ExprV::Unary(op, Box::new(x), t.line, t.col)) }
                },
            }
        } else {
            PRes { i, res: Err(perr(("NEED VALUE").spec_bytes(), t, src)) }
        }
    } else {
        spec_parse_decimal(ts, i, src)
    }
}

#[verifier::opaque]
pub open spec fn spec_parse_expr(ts: Seq<TokenV>, i: int, src: ReaderV) -> PRes
    decreases ts.len() - i, 41int,
{
    spec_parse_or(ts, i, src)
}

#[verifier::opaque]
pub open spec fn spec_parse_exp(ts: Seq<TokenV>, i: int, src: ReaderV) -> PRes
    decreases ts.len() - i, 25int,
{
    let a = spec_parse_conv(ts, i, src);
    match a.res {
        Err(e) => a,
        Ok(x) => {
            let t = tok_at(ts, a.i);
            if t.t == TokV::K(TokenType::ToThe) && i < a.i && a.i + 1 <= ts.len() {
                let b = spec_parse_conv(ts, a.i + 1, src);
                match b.res {
                    Err(e) => b,
                    Ok(y) => PRes {
                        i: b.i,
                        res: Ok(
                            ExprV::Binary(
                                Operator::ToThe,
                                Box::new(x),
                                Box::new(y),
                                t.line,
                                t.col,
                            ),
                        ),
                    },
                }
            } else {
                a
            }
        },
    }
}

#[verifier::opaque]
pub open spec fn spec_parse_decimal(ts: Seq<TokenV>, i: int, src: ReaderV) -> PRes
    decreases ts.len() - i, 19int,
{
    let a = spec_parse_atom(ts, i, src);
    match a.res {
        Err(e) => a,
        Ok(x) => {
            let t = tok_at(ts, a.i);
            if t.t == TokV::K(TokenType::Dot) && i < a.i && a.i + 1 <= ts.len() {
                let b = spec_parse_atom(ts, a.i + 1, src);
                match b.res {
                    Err(e) => b,
                    Ok(y) => match (x, y) {
                        (
                            ExprV::Literal(LitV::Integer(va), l1, c1),
                            ExprV::Literal(LitV::Integer(vb), l2, c2),
                        ) => if va < INT_LIT_BOUND && vb < INT_LIT_BOUND {
                            PRes {
                                i: b.i,
                                res: Ok(
                                    ExprV::Literal(
                                        LitV::Decimal(fp_of_decimal(va, vb)),
                                        t.line,
                                        t.col,
                                    ),
                                ),
                            }
                        } else {
                            PRes { i: b.i, res: Err(perr(("INVALID DECIMAL").spec_bytes(), t, src)) }
                        },
                        _ => PRes {
                            i: b.i,
                            res: Err(perr(("INVALID DECIMAL").spec_bytes(), t, src)),
                        },
                    },
                }
            } else {
                a
            }
        },
    }
}

#[verifier::opaque]
pub open spec fn spec_parse_atom(ts: Seq<TokenV>, i: int, src: ReaderV) -> PRes
    decreases ts.len() - i, 17int,
{
    let t = tok_at(ts, i);
    match t.t {
        TokV::Id(n) => PRes { i: i + 1, res: Ok(ExprV::Id(n, t.line, t.col)) },
        TokV::Num(v) => PRes {
            i: i + 1,
            res: Ok(ExprV::Literal(LitV::Integer(v), t.line, t.col)),
        },
        TokV::Str(s) => PRes { i: i + 1, res: Ok(ExprV::Literal(LitV::Text(s), t.line, t.col)) },
        TokV::K(k) => if k is Read {
            PRes { i: i + 1, res: Ok(ExprV::Nullary(Operator::Read, t.line, t.col)) }
        } else if k is Yes {
            PRes { i: i + 1, res: Ok(ExprV::Literal(LitV::Choice(true), t.line, t.col)) }
        } else if k is No {
            PRes { i: i + 1, res: Ok(ExprV::Literal(LitV::Choice(false), t.line, t.col)) }
        } else if k is Open && 0 <= i < ts.len() {
            spec_parse_paren(ts, i, src)
        } else {
            PRes { i, res: Err(perr(("NEED VALUE").spec_bytes(), t, src)) }
        },
    }
}

#[verifier::opaque]
pub open spec fn spec_parse_paren(ts: Seq<TokenV>, i: int, src: ReaderV) -> PRes
    decreases ts.len() - i, 15int,
{
    if 0 <= i < ts.len() {
        let a = spec_parse_expr(ts, i + 1, src);
        match a.res {
            Err(e) => a,
            Ok(x) => {
                let t = tok_at(ts, a.i);
                if t.t == TokV::K(TokenType::Close) {
                    PRes { i: a.i + 1, res: Ok(x) }
                } else {
                    PRes { i: a.i, res: Err(perr(("NEED CLOSE").spec_bytes(), t, src)) }
                }
            },
        }
    } else {
        PRes { i, res: Err(perr(("NEED VALUE").spec_bytes(), tok_at(ts, i), src)) }
    }
}

#[verifier::opaque]
pub open spec fn spec_parse_run(ts: Seq<TokenV>, i: int, src: ReaderV) -> SRes
    decreases ts.len() - i, 44int,
{
    let t = tok_at(ts, i);
    if t.t == TokV::Id(("at").spec_bytes()) && 0 <= i < ts.len() {
        let a = spec_parse_expr(ts, i + 1, src);
        match a.res {
            Err(e) => SRes { i: a.i, res: Err(e) },
            Ok(x) => SRes { i: a.i, res: Ok(StmtV::RunAt(x, t.line)) },
        }
    } else {
        let a = spec_parse_expr(ts, i, src);
        match a.res {
            Err(e) => SRes { i: a.i, res: Err(e) },
            Ok(x) => {
                let t2 = tok_at(ts, a.i);
                if !(i < a.i && a.i + 1 <= ts.len()) {
                    SRes { i: a.i, res: Err(perr(("NEED VALUE").spec_bytes(), t2, src)) }
                } else if t2.t == TokV::K(TokenType::To) {
                    let b = spec_parse_expr(ts, a.i + 1, src);
                    match b.res {
                        Err(e) => SRes { i: b.i, res: Err(e) },
                        Ok(y) => SRes { i: b.i, res: Ok(StmtV::RunFrom(x, y, t2.line)) },
                    }
                } else {
                    let b = spec_parse_expr(ts, a.i + 1, src);
                    match b.res {
                        Err(e) => SRes { i: b.i, res: Err(e) },
                        Ok(y) => SRes { i: b.i, res: Ok(StmtV::RunAt(y, t2.line)) },
                    }
                }
            },
        }
    }
}

#[verifier::opaque]
pub open spec fn spec_parse_asgn(ts: Seq<TokenV>, i: int, src: ReaderV) -> SRes
    decreases ts.len() - i, 43int,
{
    let loc = tok_at(ts, i);
    let a = spec_parse_expr(ts, i, src);
    match a.res {
        Err(e) => SRes { i: a.i, res: Err(e) },
        Ok(x) => {
            let t2 = tok_at(ts, a.i);
            if t2.t == TokV::K(TokenType::Be) {
                if !(i < a.i && a.i + 1 <= ts.len()) {
                    SRes { i: a.i, res: Err(perr(("NEED VALUE").spec_bytes(), t2, src)) }
                } else if x is Id {
                    let b = spec_parse_expr(ts, a.i + 1, src);
                    match b.res {
                        Err(e) => SRes { i: b.i, res: Err(e) },
                        Ok(y) => SRes { i: b.i, res: Ok(StmtV::Asgn(x, y, loc.line)) },
                    }
                } else {
                    SRes {
                        i: a.i,
                        res: Err(perr(("WHERE IDENTIFIER").spec_bytes(), loc, src)),
                    }
                }
            } else {
                SRes { i: a.i, res: Ok(StmtV::Expr(x)) }
            }
        },
    }
}

#[verifier::opaque]
pub open spec fn spec_parse_stmt(ts: Seq<TokenV>, i: int, src: ReaderV) -> SRes
    decreases ts.len() - i, 46int,
{
    let t = tok_at(ts, i);
    if t.t == TokV::K(TokenType::Run) && 0 <= i < ts.len() {
        spec_parse_run(ts, i + 1, src)
    } else if t.t == TokV::K(TokenType::Write) && 0 <= i < ts.len() {
        let a = spec_parse_expr(ts, i + 1, src);
        match a.res {
            Err(e) => SRes { i: a.i, res: Err(e) },
            Ok(x) => SRes { i: a.i, res: Ok(StmtV::Write(x, t.line)) },
        }
    } else if t.t == TokV::K(TokenType::End) {
        SRes { i: i + 1, res: Ok(StmtV::End) }
    } else {
        spec_parse_asgn(ts, i, src)
    }
}

#[verifier::opaque]
pub open spec fn spec_parse_switch(ts: Seq<TokenV>, i: int, src: ReaderV) -> SRes
    decreases ts.len() - i, 48int,
{
    let s = spec_parse_stmt(ts, i, src);
    match s.res {
        Err(e) => s,
        Ok(sv) => {
            let t = tok_at(ts, s.i);
            if t.t == TokV::K(TokenType::If) && i < s.i && s.i + 1 <= ts.len() {
                let c = spec_parse_expr(ts, s.i + 1, src);
                match c.res {
                    Err(e) => SRes { i: c.i, res: Err(e) },
                    Ok(cv) => SRes {
                        i: c.i,
                        res: Ok(StmtV::Switch(Box::new(sv), cv, t.line)),
                    },
                }
            } else {
                s
            }
        },
    }
}

#[verifier::opaque]
pub open spec fn spec_parse_prog(ts: Seq<TokenV>, i: int, src: ReaderV) -> GRes
    decreases ts.len() - i, 50int,
{
    let t = tok_at(ts, i);
    if t.t == TokV::K(TokenType::Eof) {
        GRes { i, res: Ok(Seq::empty()) }
    } else if t.t == TokV::K(TokenType::Lf) {
        if 0 <= i < ts.len() {
            let rest = spec_parse_prog(ts, i + 1, src);
            match rest.res {
                Ok(ss) => GRes { i: rest.i, res: Ok(seq![StmtV::Blank] + ss) },
                Err(e) => rest,
            }
        } else {
            GRes { i, res: Ok(Seq::empty()) }
        }
    } else {
        let s = spec_parse_switch(ts, i, src);
        match s.res {
            Err(e) => GRes { i: s.i, res: Err(e) },
            Ok(sv) => {
                let t2 = tok_at(ts, s.i);
                if t2.t == TokV::K(TokenType::Eof) {
                    GRes { i: s.i, res: Ok(seq![sv]) }
                } else if t2.t == TokV::K(TokenType::Lf) {
                    if i < s.i && s.i + 1 <= ts.len() {
                        let rest = spec_parse_prog(ts, s.i + 1, src);
                        match rest.res {
                            Ok(ss) => GRes { i: rest.i, res: Ok(seq![sv] + ss) },
                            Err(e) => rest,
                        }
                    } else {
                        GRes { i: s.i, res: Ok(seq![sv]) }
                    }
                } else {
                    GRes {
                        i: s.i,
                        res: Err(perr(("WHY THIS HERE").spec_bytes(), t2, src)),
                    }
                }
            },
        }
    }
}

/// The statement array a token sequence parses to, or its first syntax
/// error.
pub open spec fn spec_parse(ts: Seq<TokenV>, src: ReaderV) -> Result<Seq<StmtV>, ErrV> {
    spec_parse_prog(ts, 0, src).res
}

proof fn lemma_parse_expr_oob(ts: Seq<TokenV>, i: int, src: ReaderV)
    requires
        i >= ts.len(),
    ensures
        spec_parse_expr(ts, i, src) == (PRes {
            i,
            res: Err(perr(("NEED VALUE").spec_bytes(), tok_at(ts, i), src)),
        }),
{
    reveal(spec_parse_expr);
    reveal(spec_parse_or);
    reveal(spec_parse_and);
    reveal(spec_parse_not);
    reveal(spec_parse_is);
    reveal(spec_parse_cmp);
    reveal(spec_parse_arith);
    reveal(spec_parse_term);
    reveal(spec_parse_exp);
    reveal(spec_parse_conv);
    reveal(spec_parse_neg);
    reveal(spec_parse_decimal);
    reveal(spec_parse_atom);
}

/// The parser: the token array, a cursor into it, and the source view for
/// quoting lines in diagnostics.
pub struct Parser {
    input: Vec<Token>,
    pt: usize,
    reader: Reader,
}

impl Parser {
    /// The tokens, in their mathematical shape.
    pub closed spec fn toks(&self) -> Seq<TokenV> {
        tokens_view(self.input@)
    }

    /// The source view.
    pub closed spec fn srcv(&self) -> ReaderV {
        self.reader@
    }

    /// The cursor.
    pub closed spec fn cursor(&self) -> int {
        self.pt as int
    }

    pub closed spec fn wf(&self) -> bool {
        &&& reader_wf(self.reader@)
        &&& self.input@.len() <= usize::MAX
        &&& tokens_wf(tokens_view(self.input@))
        &&& self.pt < self.input@.len()
    }

    pub fn new(input: Vec<Token>, reader: Reader) -> (r: Self)
        requires
            tokens_wf(tokens_view(input@)),
            reader_wf(reader@),
        ensures
            r.wf(),
            r.toks() == tokens_view(input@),
            r.srcv() == reader@,
            r.cursor() == 0,
    {
        // the length in hand bounds the cursor arithmetic
        let n = input.len();
        Parser { input, pt: 0, reader }
    }

    /// Hands the source view back for the evaluator to quote lines from.
    pub fn into_reader(self) -> (r: Reader)
        ensures
            r@ == self.srcv(),
    {
        self.reader
    }

    fn parse_error(&self, msg: Vec<u8>, location: Pos) -> (r: Errors)
        requires
            reader_wf(self.reader@),
        ensures
            r@ == (ErrV::Syntax {
                msg: msg@,
                line: location.0 as int,
                col: location.1 as int,
                text: get_line_spec(self.srcv(), location.0 as int),
            }),
    {
        let text = self.reader.get_line(location.0);
        Errors::SyntaxError(msg, location, text)
    }

    #[verifier::rlimit(100)]
    #[verifier::spinoff_prover]
    #[verifier::loop_isolation(false)]
    fn parse_or(&mut self) -> (r: Result<Expr, Errors>)
        requires
            old(self).wf(),
        ensures
            final(self).wf(),
            final(self).input == old(self).input,
            final(self).reader == old(self).reader,
            ({
                let pr = spec_parse_or(old(self).toks(), old(self).pt as int, old(self).srcv());
                match r {
                    Ok(e) => pr.res == Ok::<ExprV, ErrV>(e.v()) && final(self).pt == pr.i && old(
                        self,
                    ).pt < final(self).pt,
                    Err(er) => pr.res == Err::<ExprV, ErrV>(er@),
                }
            }),
        decreases self.input@.len() - self.pt, 39int,
    {
        proof {
            reveal(spec_parse_or);
            reveal(spec_or_loop);
        }
        let ghost ts0 = self.toks();
        let ghost p0 = self.pt as int;
        let ghost src = self.srcv();
        let mut ast = match self.parse_and() {
            Ok(x) => x,
            Err(e) => {
                return Err(e);
            },
        };
        loop
            invariant
                self.wf(),
                self.input == old(self).input,
                self.reader == old(self).reader,
                p0 < self.pt as int,
                spec_parse_or(ts0, p0, src) == spec_or_loop(ts0, self.pt as int, ast.v(), src),
            decreases self.input@.len() - self.pt,
        {
            let ghost pti = self.pt as int;
            let ghost acc0 = ast.v();
            let opm: Option<Operator> = match &self.input[self.pt].token_type {
                TokenType::Or => Some(Operator::Or),
                _ => None,
            };
            match opm {
                Some(op) => {
                    let loc = self.input[self.pt].location;
                    self.pt = self.pt + 1;
                    let b = match self.parse_and() {
                        Ok(x) => x,
                        Err(e) => {
                            return Err(e);
                        },
                    };
                    ast = Expr::Binary(op, Box::new(ast), Box::new(b), loc);
                },
                None => {
                    break;
                },
            }
        }
        Ok(ast)
    }

    #[verifier::rlimit(100)]
    #[verifier::spinoff_prover]
    #[verifier::loop_isolation(false)]
    fn parse_and(&mut self) -> (r: Result<Expr, Errors>)
        requires
            old(self).wf(),
        ensures
            final(self).wf(),
            final(self).input == old(self).input,
            final(self).reader == old(self).reader,
            ({
                let pr = spec_parse_and(old(self).toks(), old(self).pt as int, old(self).srcv());
                match r {
                    Ok(e) => pr.res == Ok::<ExprV, ErrV>(e.v()) && final(self).pt == pr.i && old(
                        self,
                    ).pt < final(self).pt,
                    Err(er) => pr.res == Err::<ExprV, ErrV>(er@),
                }
            }),
        decreases self.input@.len() - self.pt, 37int,
    {
        proof {
            reveal(spec_parse_and);
            reveal(spec_and_loop);
        }
        let ghost ts0 = self.toks();
        let ghost p0 = self.pt as int;
        let ghost src = self.srcv();
        let mut ast = match self.parse_not() {
            Ok(x) => x,
            Err(e) => {
                return Err(e);
            },
        };
        loop
            invariant
                self.wf(),
                self.input == old(self).input,
                self.reader == old(self).reader,
                p0 < self.pt as int,
                spec_parse_and(ts0, p0, src) == spec_and_loop(ts0, self.pt as int, ast.v(), src),
            decreases self.input@.len() - self.pt,
        {
            let ghost pti = self.pt as int;
            let ghost acc0 = ast.v();
            let opm: Option<Operator> = match &self.input[self.pt].token_type {
                TokenType::And => Some(Operator::And),
                _ => None,
            };
            match opm {
                Some(op) => {
                    let loc = self.input[self.pt].location;
                    self.pt = self.pt + 1;
                    let b = match self.parse_not() {
                        Ok(x) => x,
                        Err(e) => {
                            return Err(e);
                        },
                    };
                    ast = Expr::Binary(op, Box::new(ast), Box::new(b), loc);
                },
                None => {
                    break;
                },
            }
        }
        Ok(ast)
    }

    #[verifier::rlimit(100)]
    #[verifier::spinoff_prover]
    #[verifier::loop_isolation(false)]
    fn parse_is(&mut self) -> (r: Result<Expr, Errors>)
        requires
            old(self).wf(),
        ensures
            final(self).wf(),
            final(self).input == old(self).input,
            final(self).reader == old(self).reader,
            ({
                let pr = spec_parse_is(old(self).toks(), old(self).pt as int, old(self).srcv());
                match r {
                    Ok(e) => pr.res == Ok::<ExprV, ErrV>(e.v()) && final(self).pt == pr.i && old(
                        self,
                    ).pt < final(self).pt,
                    Err(er) => pr.res == Err::<ExprV, ErrV>(er@),
                }
            }),
        decreases self.input@.len() - self.pt, 33int,
    {
        proof {
            reveal(spec_parse_is);
            reveal(spec_is_loop);
        }
        let ghost ts0 = self.toks();
        let ghost p0 = self.pt as int;
        let ghost src = self.srcv();
        let mut ast = match self.parse_cmp() {
            Ok(x) => x,
            Err(e) => {
                return Err(e);
            },
        };
        loop
            invariant
                self.wf(),
                self.input == old(self).input,
                self.reader == old(self).reader,
                p0 < self.pt as int,
                spec_parse_is(ts0, p0, src) == spec_is_loop(ts0, self.pt as int, ast.v(), src),
            decreases self.input@.len() - self.pt,
        {
            let ghost pti = self.pt as int;
            let ghost acc0 = ast.v();
            let opm: Option<Operator> = match &self.input[self.pt].token_type {
                TokenType::Is => Some(Operator::Is),
                TokenType::Isnt => Some(Operator::Isnt),
                _ => None,
            };
            match opm {
                Some(op) => {
                    let loc = self.input[self.pt].location;
                    self.pt = self.pt + 1;
                    let b = match self.parse_cmp() {
                        Ok(x) => x,
                        Err(e) => {
                            return Err(e);
                        },
                    };
                    ast = Expr::Binary(op, Box::new(ast), Box::new(b), loc);
                },
                None => {
                    break;
                },
            }
        }
        Ok(ast)
    }

    #[verifier::rlimit(100)]
    #[verifier::spinoff_prover]
    #[verifier::loop_isolation(false)]
    fn parse_cmp(&mut self) -> (r: Result<Expr, Errors>)
        requires
            old(self).wf(),
        ensures
            final(self).wf(),
            final(self).input == old(self).input,
            final(self).reader == old(self).reader,
            ({
                let pr = spec_parse_cmp(old(self).toks(), old(self).pt as int, old(self).srcv());
                match r {
                    Ok(e) => pr.res == Ok::<ExprV, ErrV>(e.v()) && final(self).pt == pr.i && old(
                        self,
                    ).pt < final(self).pt,
                    Err(er) => pr.res == Err::<ExprV, ErrV>(er@),
                }
            }),
        decreases self.input@.len() - self.pt, 31int,
    {
        proof {
            reveal(spec_parse_cmp);
            reveal(spec_cmp_loop);
        }
        let ghost ts0 = self.toks();
        let ghost p0 = self.pt as int;
        let ghost src = self.srcv();
        let mut ast = match self.parse_arith() {
            Ok(x) => x,
            Err(e) => {
                return Err(e);
            },
        };
        loop
            invariant
                self.wf(),
                self.input == old(self).input,
                self.reader == old(self).reader,
                p0 < self.pt as int,
                spec_parse_cmp(ts0, p0, src) == spec_cmp_loop(ts0, self.pt as int, ast.v(), src),
            decreases self.input@.len() - self.pt,
        {
            let ghost pti = self.pt as int;
            let ghost acc0 = ast.v();
            let opm: Option<Operator> = match &self.input[self.pt].token_type {
                TokenType::Below => Some(Operator::Below),
                TokenType::Above => Some(Operator::Above),
                TokenType::AtMost => Some(Operator::AtMost),
                TokenType::AtLeast => Some(Operator::AtLeast),
                _ => None,
            };
            match opm {
                Some(op) => {
                    let loc = self.input[self.pt].location;
                    self.pt = self.pt + 1;
                    let b = match self.parse_arith() {
                        Ok(x) => x,
                        Err(e) => {
                            return Err(e);
                        },
                    };
                    ast = Expr::Binary(op, Box::new(ast), Box::new(b), loc);
                },
                None => {
                    break;
                },
            }
        }
        Ok(ast)
    }

    #[verifier::rlimit(100)]
    #[verifier::spinoff_prover]
    #[verifier::loop_isolation(false)]
    fn parse_arith(&mut self) -> (r: Result<Expr, Errors>)
        requires
            old(self).wf(),
        ensures
            final(self).wf(),
            final(self).input == old(self).input,
            final(self).reader == old(self).reader,
            ({
                let pr = spec_parse_arith(old(self).toks(), old(self).pt as int, old(self).srcv());
                match r {
                    Ok(e) => pr.res == Ok::<ExprV, ErrV>(e.v()) && final(self).pt == pr.i && old(
                        self,
                    ).pt < final(self).pt,
                    Err(er) => pr.res == Err::<ExprV, ErrV>(er@),
                }
            }),
        decreases self.input@.len() - self.pt, 29int,
    {
        proof {
            reveal(spec_parse_arith);
            reveal(spec_arith_loop);
        }
        let ghost ts0 = self.toks();
        let ghost p0 = self.pt as int;
        let ghost src = self.srcv();
        let mut ast = match self.parse_term() {
            Ok(x) => x,
            Err(e) => {
                return Err(e);
            },
        };
        loop
            invariant
                self.wf(),
                self.input == old(self).input,
                self.reader == old(self).reader,
                p0 < self.pt as int,
                spec_parse_arith(ts0, p0, src) == spec_arith_loop(ts0, self.pt as int, ast.v(), src),
            decreases self.input@.len() - self.pt,
        {
            let ghost pti = self.pt as int;
            let ghost acc0 = ast.v();
            let opm: Option<Operator> = match &self.input[self.pt].token_type {
                TokenType::Plus => Some(Operator::Plus),
                TokenType::Minus => Some(Operator::Minus),
                _ => None,
            };
            match opm {
                Some(op) => {
                    let loc = self.input[self.pt].location;
                    self.pt = self.pt + 1;
                    let b = match self.parse_term() {
                        Ok(x) => x,
                        Err(e) => {
                            return Err(e);
                        },
                    };
                    ast = Expr::Binary(op, Box::new(ast), Box::new(b), loc);
                },
                None => {
                    break;
                },
            }
        }
        Ok(ast)
    }

    #[verifier::rlimit(100)]
    #[verifier::spinoff_prover]
    #[verifier::loop_isolation(false)]
    fn parse_term(&mut self) -> (r: Result<Expr, Errors>)
        requires
            old(self).wf(),
        ensures
            final(self).wf(),
            final(self).input == old(self).input,
            final(self).reader == old(self).reader,
            ({
                let pr = spec_parse_term(old(self).toks(), old(self).pt as int, old(self).srcv());
                match r {
                    Ok(e) => pr.res == Ok::<ExprV, ErrV>(e.v()) && final(self).pt == pr.i && old(
                        self,
                    ).pt < final(self).pt,
                    Err(er) => pr.res == Err::<ExprV, ErrV>(er@),
                }
            }),
        decreases self.input@.len() - self.pt, 27int,
    {
        proof {
            reveal(spec_parse_term);
            reveal(spec_term_loop);
        }
        let ghost ts0 = self.toks();
        let ghost p0 = self.pt as int;
        let ghost src = self.srcv();
        let mut ast = match self.parse_exp() {
            Ok(x) => x,
            Err(e) => {
                return Err(e);
            },
        };
        loop
            invariant
                self.wf(),
                self.input == old(self).input,
                self.reader == old(self).reader,
                p0 < self.pt as int,
                spec_parse_term(ts0, p0, src) == spec_term_loop(ts0, self.pt as int, ast.v(), src),
            decreases self.input@.len() - self.pt,
        {
            let ghost pti = self.pt as int;
            let ghost acc0 = ast.v();
            let opm: Option<Operator> = match &self.input[self.pt].token_type {
                TokenType::Times => Some(Operator::Times),
                TokenType::Over => Some(Operator::Over),
                TokenType::Mod => Some(Operator::Mod),
                _ => None,
            };
            match opm {
                Some(op) => {
                    let loc = self.input[self.pt].location;
                    self.pt = self.pt + 1;
                    let b = match self.parse_exp() {
                        Ok(x) => x,
                        Err(e) => {
                            return Err(e);
                        },
                    };
                    ast = Expr::Binary(op, Box::new(ast), Box::new(b), loc);
                },
                None => {
                    break;
                },
            }
        }
        Ok(ast)
    }

    #[verifier::rlimit(100)]
    #[verifier::spinoff_prover]
    #[verifier::loop_isolation(false)]
    fn parse_not(&mut self) -> (r: Result<Expr, Errors>)
        requires
            old(self).wf(),
        ensures
            final(self).wf(),
            final(self).input == old(self).input,
            final(self).reader == old(self).reader,
            ({
                let pr = spec_parse_not(old(self).toks(), old(self).pt as int, old(self).srcv());
                match r {
                    Ok(e) => pr.res == Ok::<ExprV, ErrV>(e.v()) && final(self).pt == pr.i && old(
                        self,
                    ).pt < final(self).pt,
                    Err(er) => pr.res == Err::<ExprV, ErrV>(er@),
                }
            }),
        decreases self.input@.len() - self.pt, 35int,
    {
        proof {
            reveal(spec_parse_not);
        }
        let opm: Option<Operator> = match &self.input[self.pt].token_type {
                TokenType::Not => Some(Operator::Not),
            _ => None,
        };
        match opm {
            Some(op) => {
                let loc = self.input[self.pt].location;
                self.pt = self.pt + 1;
                let a = match self.parse_is() {
                    Ok(x) => x,
                    Err(e) => {
                        return Err(e);
                    },
                };
                Ok(Expr::Unary(op, Box::new(a), loc))
            },
            None => self.parse_is(),
        }
    }

    #[verifier::rlimit(100)]
    #[verifier::spinoff_prover]
    #[verifier::loop_isolation(false)]
    fn parse_conv(&mut self) -> (r: Result<Expr, Errors>)
        requires
            old(self).wf(),
        ensures
            final(self).wf(),
            final(self).input == old(self).input,
            final(self).reader == old(self).reader,
            ({
                let pr = spec_parse_conv(old(self).toks(), old(self).pt as int, old(self).srcv());
                match r {
                    Ok(e) => pr.res == Ok::<ExprV, ErrV>(e.v()) && final(self).pt == pr.i && old(
                        self,
                    ).pt < final(self).pt,
                    Err(er) => pr.res == Err::<ExprV, ErrV>(er@),
                }
            }),
        decreases self.input@.len() - self.pt, 23int,
    {
        proof {
            reveal(spec_parse_conv);
        }
        let opm: Option<Operator> = match &self.input[self.pt].token_type {
                TokenType::Num => Some(Operator::Num),
                TokenType::Text => Some(Operator::Text),
                TokenType::Choice => Some(Operator::Choice),
            _ => None,
        };
        match opm {
            Some(op) => {
                let loc = self.input[self.pt].location;
                self.pt = self.pt + 1;
                let a = match self.parse_neg() {
                    Ok(x) => x,
                    Err(e) => {
                        return Err(e);
                    },
                };
                Ok(Expr::Unary(op, Box::new(a), loc))
            },
            None => self.parse_neg(),
        }
    }

    #[verifier::rlimit(100)]
    #[verifier::spinoff_prover]
    #[verifier::loop_isolation(false)]
    fn parse_neg(&mut self) -> (r: Result<Expr, Errors>)
        requires
            old(self).wf(),
        ensures
            final(self).wf(),
            final(self).input == old(self).input,
            final(self).reader == old(self).reader,
            ({
                let pr = spec_parse_neg(old(self).toks(), old(self).pt as int, old(self).srcv());
                match r {
                    Ok(e) => pr.res == Ok::<ExprV, ErrV>(e.v()) && final(self).pt == pr.i && old(
                        self,
                    ).pt < final(self).pt,
                    Err(er) => pr.res == Err::<ExprV, ErrV>(er@),
                }
            }),
        decreases self.input@.len() - self.pt, 21int,
    {
        proof {
            reveal(spec_parse_neg);
        }
        let opm: Option<Operator> = match &self.input[self.pt].token_type {
                TokenType::Neg => Some(Operator::Neg),
            _ => None,
        };
        match opm {
            Some(op) => {
                let loc = self.input[self.pt].location;
                self.pt = self.pt + 1;
                let a = match self.parse_decimal() {
                    Ok(x) => x,
                    Err(e) => {
                        return Err(e);
                    },
                };
                Ok(Expr::Unary(op, Box::new(a), loc))
            },
            None => self.parse_decimal(),
        }
    }

    #[verifier::rlimit(100)]
    #[verifier::spinoff_prover]
    #[verifier::loop_isolation(false)]
    fn parse_expr(&mut self) -> (r: Result<Expr, Errors>)
        requires
            old(self).wf(),
        ensures
            final(self).wf(),
            final(self).input == old(self).input,
            final(self).reader == old(self).reader,
            ({
                let pr = spec_parse_expr(old(self).toks(), old(self).pt as int, old(self).srcv());
                match r {
                    Ok(e) => pr.res == Ok::<ExprV, ErrV>(e.v()) && final(self).pt == pr.i && old(
                        self,
                    ).pt < final(self).pt,
                    Err(er) => pr.res == Err::<ExprV, ErrV>(er@),
                }
            }),
        decreases self.input@.len() - self.pt, 41int,
    {
        proof {
            reveal(spec_parse_expr);
        }
        self.parse_or()
    }

    #[verifier::rlimit(100)]
    #[verifier::spinoff_prover]
    #[verifier::loop_isolation(false)]
    fn parse_exp(&mut self) -> (r: Result<Expr, Errors>)
        requires
            old(self).wf(),
        ensures
            final(self).wf(),
            final(self).input == old(self).input,
            final(self).reader == old(self).reader,
            ({
                let pr = spec_parse_exp(old(self).toks(), old(self).pt as int, old(self).srcv());
                match r {
                    Ok(e) => pr.res == Ok::<ExprV, ErrV>(e.v()) && final(self).pt == pr.i && old(
                        self,
                    ).pt < final(self).pt,
                    Err(er) => pr.res == Err::<ExprV, ErrV>(er@),
                }
            }),
        decreases self.input@.len() - self.pt, 25int,
    {
        proof {
            reveal(spec_parse_exp);
        }
        let left = match self.parse_conv() {
            Ok(x) => x,
            Err(e) => {
                return Err(e);
            },
        };
        if matches!(&self.input[self.pt].token_type, TokenType::ToThe) {
            let loc = self.input[self.pt].location;
            self.pt = self.pt + 1;
            let right = match self.parse_conv() {
                Ok(x) => x,
                Err(e) => {
                    return Err(e);
                },
            };
            Ok(Expr::Binary(Operator::ToThe, Box::new(left), Box::new(right), loc))
        } else {
            Ok(left)
        }
    }

    #[verifier::rlimit(100)]
    #[verifier::spinoff_prover]
    #[verifier::loop_isolation(false)]
    fn parse_decimal(&mut self) -> (r: Result<Expr, Errors>)
        requires
            old(self).wf(),
        ensures
            final(self).wf(),
            final(self).input == old(self).input,
            final(self).reader == old(self).reader,
            ({
                let pr = spec_parse_decimal(old(self).toks(), old(self).pt as int, old(self).srcv());
                match r {
                    Ok(e) => pr.res == Ok::<ExprV, ErrV>(e.v()) && final(self).pt == pr.i && old(
                        self,
                    ).pt < final(self).pt,
                    Err(er) => pr.res == Err::<ExprV, ErrV>(er@),
                }
            }),
        decreases self.input@.len() - self.pt, 19int,
    {
        proof {
            reveal(spec_parse_decimal);
        }
        let left = match self.parse_atom() {
            Ok(x) => x,
            Err(e) => {
                return Err(e);
            },
        };
        if matches!(&self.input[self.pt].token_type, TokenType::Dot) {
            let loc = self.input[self.pt].location;
            self.pt = self.pt + 1;
            let right = match self.parse_atom() {
                Ok(x) => x,
                Err(e) => {
                    return Err(e);
                },
            };
            match (left, right) {
                (Expr::Literal(Literal::Integer(va), _), Expr::Literal(Literal::Integer(vb), _)) => {
                    if va < INT_LIT_BOUND && vb < INT_LIT_BOUND {
                        Ok(Expr::Literal(Literal::Decimal(float_of_decimal(va, vb)), loc))
                    } else {
                        Err(self.parse_error(to_vec_of(("INVALID DECIMAL").as_bytes()), loc))
                    }
                },
                _ => Err(self.parse_error(to_vec_of(("INVALID DECIMAL").as_bytes()), loc)),
            }
        } else {
            Ok(left)
        }
    }

    #[verifier::rlimit(100)]
    #[verifier::spinoff_prover]
    #[verifier::loop_isolation(false)]
    fn parse_atom(&mut self) -> (r: Result<Expr, Errors>)
        requires
            old(self).wf(),
        ensures
            final(self).wf(),
            final(self).input == old(self).input,
            final(self).reader == old(self).reader,
            ({
                let pr = spec_parse_atom(old(self).toks(), old(self).pt as int, old(self).srcv());
                match r {
                    Ok(e) => pr.res == Ok::<ExprV, ErrV>(e.v()) && final(self).pt == pr.i && old(
                        self,
                    ).pt < final(self).pt,
                    Err(er) => pr.res == Err::<ExprV, ErrV>(er@),
                }
            }),
        decreases self.input@.len() - self.pt, 17int,
    {
        proof {
            reveal(spec_parse_atom);
        }
        let loc = self.input[self.pt].location;
        let act: u8 = match &self.input[self.pt].token_type {
            TokenType::Read => 1,
            TokenType::Id(_) => 2,
            TokenType::Number(_) => 3,
            TokenType::Str(_) => 4,
            TokenType::Yes => 5,
            TokenType::No => 6,
            TokenType::Open => 7,
            _ => 0,
        };
        if act == 1 {
            self.pt = self.pt + 1;
            Ok(Expr::Nullary(Operator::Read, loc))
        } else if act == 2 {
            let name: Vec<u8> = match &self.input[self.pt].token_type {
                TokenType::Id(n) => to_vec_of(n.as_slice()),
                _ => Vec::new(),
            };
            self.pt = self.pt + 1;
            Ok(Expr::Id(name, loc))
        } else if act == 3 {
            let v: u128 = match &self.input[self.pt].token_type {
                TokenType::Number(n) => *n,
                _ => 0,
            };
            self.pt = self.pt + 1;
            Ok(Expr::Literal(Literal::Integer(v), loc))
        } else if act == 4 {
            let sv: Vec<u8> = match &self.input[self.pt].token_type {
                TokenType::Str(n) => to_vec_of(n.as_slice()),
                _ => Vec::new(),
            };
            self.pt = self.pt + 1;
            Ok(Expr::Literal(Literal::Text(sv), loc))
        } else if act == 5 {
            self.pt = self.pt + 1;
            Ok(Expr::Literal(Literal::Choice(true), loc))
        } else if act == 6 {
            self.pt = self.pt + 1;
            Ok(Expr::Literal(Literal::Choice(false), loc))
        } else if act == 7 {
            self.parse_paren()
        } else {
            Err(self.parse_error(to_vec_of(("NEED VALUE").as_bytes()), loc))
        }
    }

    #[verifier::rlimit(100)]
    #[verifier::spinoff_prover]
    #[verifier::loop_isolation(false)]
    fn parse_paren(&mut self) -> (r: Result<Expr, Errors>)
        requires
            old(self).wf(),
            tok_at(old(self).toks(), old(self).pt as int).t == TokV::K(TokenType::Open),
        ensures
            final(self).wf(),
            final(self).input == old(self).input,
            final(self).reader == old(self).reader,
            ({
                let pr = spec_parse_paren(old(self).toks(), old(self).pt as int, old(self).srcv());
                match r {
                    Ok(e) => pr.res == Ok::<ExprV, ErrV>(e.v()) && final(self).pt == pr.i && old(
                        self,
                    ).pt < final(self).pt,
                    Err(er) => pr.res == Err::<ExprV, ErrV>(er@),
                }
            }),
        decreases self.input@.len() - self.pt, 15int,
    {
        proof {
            reveal(spec_parse_paren);
        }
        self.pt = self.pt + 1;
        let ast = match self.parse_expr() {
            Ok(x) => x,
            Err(e) => {
                return Err(e);
            },
        };
        if matches!(&self.input[self.pt].token_type, TokenType::Close) {
            self.pt = self.pt + 1;
            Ok(ast)
        } else {
            let loc = self.input[self.pt].location;
            Err(self.parse_error(to_vec_of(("NEED CLOSE").as_bytes()), loc))
        }
    }

    #[verifier::rlimit(100)]
    #[verifier::spinoff_prover]
    #[verifier::loop_isolation(false)]
    fn parse_run(&mut self) -> (r: Result<Stmt, Errors>)
        requires
            old(self).wf(),
        ensures
            final(self).wf(),
            final(self).input == old(self).input,
            final(self).reader == old(self).reader,
            ({
                let pr = spec_parse_run(old(self).toks(), old(self).pt as int, old(self).srcv());
                match r {
                    Ok(s) => pr.res == Ok::<StmtV, ErrV>(s.v()) && final(self).pt == pr.i && old(
                        self,
                    ).pt < final(self).pt,
                    Err(er) => pr.res == Err::<StmtV, ErrV>(er@),
                }
            }),
        decreases self.input@.len() - self.pt, 44int,
    {
        proof {
            reveal(spec_parse_run);
        }
        let at_form: bool = match &self.input[self.pt].token_type {
            TokenType::Id(n) => bytes_eq(n.as_slice(), ("at").as_bytes()),
            _ => false,
        };
        if at_form {
            let loc = self.input[self.pt].location;
            self.pt = self.pt + 1;
            let at = match self.parse_expr() {
                Ok(x) => x,
                Err(e) => {
                    return Err(e);
                },
            };
            Ok(Stmt::RunAt(Box::new(at), loc.0))
        } else {
            let from = match self.parse_expr() {
                Ok(x) => x,
                Err(e) => {
                    return Err(e);
                },
            };
            let loc = self.input[self.pt].location;
            let is_to = matches!(&self.input[self.pt].token_type, TokenType::To);
            if self.pt + 1 < self.input.len() {
                self.pt = self.pt + 1;
                let second = match self.parse_expr() {
                    Ok(x) => x,
                    Err(e) => {
                        return Err(e);
                    },
                };
                if is_to {
                    Ok(Stmt::RunFrom(Box::new(from), Box::new(second), loc.0))
                } else {
                    Ok(Stmt::RunAt(Box::new(second), loc.0))
                }
            } else {
                proof {
                    lemma_parse_expr_oob(
                        old(self).toks(),
                        self.pt + 1,
                        old(self).srcv(),
                    );
                }
                let e = self.parse_error(to_vec_of(("NEED VALUE").as_bytes()), Pos(0, 0));
                return Err(e);
            }
        }
    }

    #[verifier::rlimit(100)]
    #[verifier::spinoff_prover]
    #[verifier::loop_isolation(false)]
    fn parse_asgn(&mut self) -> (r: Result<Stmt, Errors>)
        requires
            old(self).wf(),
        ensures
            final(self).wf(),
            final(self).input == old(self).input,
            final(self).reader == old(self).reader,
            ({
                let pr = spec_parse_asgn(old(self).toks(), old(self).pt as int, old(self).srcv());
                match r {
                    Ok(s) => pr.res == Ok::<StmtV, ErrV>(s.v()) && final(self).pt == pr.i && old(
                        self,
                    ).pt < final(self).pt,
                    Err(er) => pr.res == Err::<StmtV, ErrV>(er@),
                }
            }),
        decreases self.input@.len() - self.pt, 43int,
    {
        proof {
            reveal(spec_parse_asgn);
        }
        let location = self.input[self.pt].location;
        let left = match self.parse_expr() {
            Ok(x) => x,
            Err(e) => {
                return Err(e);
            },
        };
        if matches!(&self.input[self.pt].token_type, TokenType::Be) {
            if matches!(&left, Expr::Id(..)) {
                self.pt = self.pt + 1;
                let right = match self.parse_expr() {
                    Ok(x) => x,
                    Err(e) => {
                        return Err(e);
                    },
                };
                Ok(Stmt::Asgn(Box::new(left), Box::new(right), location.0))
            } else {
                Err(self.parse_error(to_vec_of(("WHERE IDENTIFIER").as_bytes()), location))
            }
        } else {
            Ok(Stmt::Expr(Box::new(left)))
        }
    }

    #[verifier::rlimit(100)]
    #[verifier::spinoff_prover]
    #[verifier::loop_isolation(false)]
    fn parse_stmt(&mut self) -> (r: Result<Stmt, Errors>)
        requires
            old(self).wf(),
        ensures
            final(self).wf(),
            final(self).input == old(self).input,
            final(self).reader == old(self).reader,
            ({
                let pr = spec_parse_stmt(old(self).toks(), old(self).pt as int, old(self).srcv());
                match r {
                    Ok(s) => pr.res == Ok::<StmtV, ErrV>(s.v()) && final(self).pt == pr.i && old(
                        self,
                    ).pt < final(self).pt,
                    Err(er) => pr.res == Err::<StmtV, ErrV>(er@),
                }
            }),
        decreases self.input@.len() - self.pt, 46int,
    {
        proof {
            reveal(spec_parse_stmt);
        }
        let loc = self.input[self.pt].location;
        let act: u8 = match &self.input[self.pt].token_type {
            TokenType::Run => 1,
            TokenType::Write => 2,
            TokenType::End => 3,
            _ => 0,
        };
        if act == 1 {
            self.pt = self.pt + 1;
            self.parse_run()
        } else if act == 2 {
            self.pt = self.pt + 1;
            let e = match self.parse_expr() {
                Ok(x) => x,
                Err(e) => {
                    return Err(e);
                },
            };
            Ok(Stmt::Write(Box::new(e), loc.0))
        } else if act == 3 {
            self.pt = self.pt + 1;
            Ok(Stmt::End)
        } else {
            self.parse_asgn()
        }
    }

    #[verifier::rlimit(100)]
    #[verifier::spinoff_prover]
    #[verifier::loop_isolation(false)]
    fn parse_switch(&mut self) -> (r: Result<Stmt, Errors>)
        requires
            old(self).wf(),
        ensures
            final(self).wf(),
            final(self).input == old(self).input,
            final(self).reader == old(self).reader,
            ({
                let pr = spec_parse_switch(old(self).toks(), old(self).pt as int, old(self).srcv());
                match r {
                    Ok(s) => pr.res == Ok::<StmtV, ErrV>(s.v()) && final(self).pt == pr.i && old(
                        self,
                    ).pt < final(self).pt,
                    Err(er) => pr.res == Err::<StmtV, ErrV>(er@),
                }
            }),
        decreases self.input@.len() - self.pt, 48int,
    {
        proof {
            reveal(spec_parse_switch);
        }
        let stmt = match self.parse_stmt() {
            Ok(x) => x,
            Err(e) => {
                return Err(e);
            },
        };
        if matches!(&self.input[self.pt].token_type, TokenType::If) {
            let loc = self.input[self.pt].location;
            self.pt = self.pt + 1;
            let cond = match self.parse_expr() {
                Ok(x) => x,
                Err(e) => {
                    return Err(e);
                },
            };
            Ok(Stmt::Switch(Box::new(stmt), Box::new(cond), loc.0))
        } else {
            Ok(stmt)
        }
    }

    /// Parses the whole token sequence into the statement array, one entry
    /// per source line.
    #[verifier::rlimit(100)]
    #[verifier::spinoff_prover]
    #[verifier::loop_isolation(false)]
    pub fn parse(&mut self) -> (r: Result<Vec<Stmt>, Errors>)
        requires
            old(self).wf(),
        ensures
            final(self).wf(),
            final(self).toks() == old(self).toks(),
            final(self).srcv() == old(self).srcv(),
            ({
                let pr = spec_parse_prog(old(self).toks(), old(self).cursor(), old(self).srcv());
                match r {
                    Ok(prog) => pr.res == Ok::<Seq<StmtV>, ErrV>(prog_view(prog@)),
                    Err(er) => pr.res == Err::<Seq<StmtV>, ErrV>(er@),
                }
            }),
    {
        proof {
            reveal(spec_parse_prog);
        }
        let ghost ts0 = self.toks();
        let ghost p0 = self.pt as int;
        let ghost src = self.srcv();
        let mut prog: Vec<Stmt> = Vec::new();
        proof {
            match spec_parse_prog(ts0, p0, src).res {
                Ok(rest) => {
                    assert(prog_view(prog@) + rest =~= rest);
                },
                Err(e) => {},
            }
        }
        loop
            invariant
                self.wf(),
                self.input == old(self).input,
                self.reader == old(self).reader,
                ({
                    let whole = spec_parse_prog(ts0, p0, src);
                    let cur = spec_parse_prog(ts0, self.pt as int, src);
                    match cur.res {
                        Ok(rest) => whole.res == Ok::<Seq<StmtV>, ErrV>(prog_view(prog@) + rest),
                        Err(e) => whole.res == Err::<Seq<StmtV>, ErrV>(e),
                    }
                }),
            decreases self.input@.len() - self.pt,
        {
            let ghost pti = self.pt as int;
            let act: u8 = match &self.input[self.pt].token_type {
                TokenType::Eof => 1,
                TokenType::Lf => 2,
                _ => 0,
            };
            if act == 1 {
                proof {
                    assert(spec_parse_prog(ts0, pti, src).res == Ok::<Seq<StmtV>, ErrV>(
                        Seq::empty(),
                    ));
                    assert(prog_view(prog@) + Seq::<StmtV>::empty() =~= prog_view(prog@));
                }
                return Ok(prog);
            } else if act == 2 {
                self.pt = self.pt + 1;
                proof {
                    match spec_parse_prog(ts0, self.pt as int, src).res {
                        Ok(rest) => {
                            assert(prog_view(prog@.push(Stmt::Blank)) + rest =~= prog_view(prog@)
                                + (seq![StmtV::Blank] + rest));
                        },
                        Err(e) => {},
                    }
                }
                prog.push(Stmt::Blank);
            } else {
                let s = match self.parse_switch() {
                    Ok(x) => x,
                    Err(e) => {
                        return Err(e);
                    },
                };
                let act2: u8 = match &self.input[self.pt].token_type {
                    TokenType::Eof => 1,
                    TokenType::Lf => 2,
                    _ => 0,
                };
                if act2 == 1 {
                    proof {
                        assert(spec_parse_prog(ts0, pti, src).res == Ok::<Seq<StmtV>, ErrV>(
                            seq![s.v()],
                        ));
                        assert(prog_view(prog@.push(s)) =~= prog_view(prog@) + seq![s.v()]);
                    }
                    prog.push(s);
                    return Ok(prog);
                } else if act2 == 2 {
                    self.pt = self.pt + 1;
                    proof {
                        match spec_parse_prog(ts0, self.pt as int, src).res {
                            Ok(rest) => {
                                assert(prog_view(prog@.push(s)) + rest =~= prog_view(prog@) + (
                                seq![s.v()] + rest));
                            },
                            Err(e) => {},
                        }
                    }
                    prog.push(s);
                } else {
                    let loc = self.input[self.pt].location;
                    let e = self.parse_error(to_vec_of(("WHY THIS HERE").as_bytes()), loc);
                    return Err(e);
                }
            }
        }
    }
}

} // verus!
