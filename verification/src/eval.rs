//! The evaluator: holds the statement array, the source view and one flat
//! mutable environment, executes statements in order, and lets line jumps
//! re-enter the same array at arbitrary indices.

use vstd::prelude::*;

use vstd::string::StringSliceAdditionalSpecFns;

use crate::ast::Expr;
use crate::ast::ExprV;
use crate::ast::LitV;
use crate::ast::Operator;
use crate::ast::Stmt;
use crate::ast::StmtV;
use crate::ast::prog_view;
use crate::errors::ErrV;
use crate::errors::Errors;
use crate::lexer::Pos;
use crate::lexer::Reader;
use crate::lexer::ReaderV;
use crate::lexer::get_line_spec;
use crate::lexer::reader_wf;
use crate::lexer::to_vec_of;

pub mod arith;
pub mod cmp;
pub mod control;
pub mod conv;
pub mod io;
pub mod var;

verus! {

/// A variable's name.
#[derive(Debug)]
pub struct Name {
    pub id: Vec<u8>,
}

/// A runtime value: the tagged union the evaluator computes with. Doubles
/// are carried as their bit patterns.
#[derive(Debug)]
pub enum Value {
    Int(i128),
    Float(u64),
    Text(Vec<u8>),
    Choice(bool),
    Nothing,
}

/// The mathematical shape of a runtime value.
pub enum ValueV {
    Int(int),
    Float(u64),
    Text(Seq<u8>),
    Choice(bool),
    Nothing,
}

impl Value {
    pub open spec fn v(&self) -> ValueV {
        match self {
            Value::Int(i) => ValueV::Int(*i as int),
            Value::Float(f) => ValueV::Float(*f),
            Value::Text(t) => ValueV::Text(t@),
            Value::Choice(b) => ValueV::Choice(*b),
            Value::Nothing => ValueV::Nothing,
        }
    }

    /// A copy of this value.
    pub fn dup(&self) -> (r: Value)
        ensures
            r.v() == self.v(),
    {
        match self {
            Value::Int(i) => Value::Int(*i),
            Value::Float(f) => Value::Float(*f),
            Value::Text(t) => Value::Text(to_vec_of(t.as_slice())),
            Value::Choice(b) => Value::Choice(*b),
            Value::Nothing => Value::Nothing,
        }
    }
}

/// The environment a sequence of bindings stands for: later bindings win.
pub open spec fn env_view(ctx: Seq<(Vec<u8>, Value)>) -> Map<Seq<u8>, ValueV>
    decreases ctx.len(),
{
    if ctx.len() == 0 {
        Map::empty()
    } else {
        env_view(ctx.drop_last()).insert(ctx.last().0@, ctx.last().1.v())
    }
}

/// The evaluation state a statement can change: the environment, the read
/// cursor into the console input, and the bytes written so far.
pub struct StV {
    pub env: Map<Seq<u8>, ValueV>,
    pub in_pos: int,
    pub out: Seq<u8>,
}

/// What evaluating produces: the state after, and a value or an error.
pub struct ER {
    pub st: StV,
    pub res: Result<ValueV, ErrV>,
}

/// A runtime error at a position, quoting the line it arose on.
pub open spec fn rerr(msg: Seq<u8>, line: int, col: int, src: ReaderV) -> ErrV {
    ErrV::Runtime { msg, line, col, text: get_line_spec(src, line) }
}

/// How deep line jumps may nest.
pub const RUN_DEPTH: u32 = 1000;

/// The nesting height of a statement: how deep its guards wrap it.
pub open spec fn sheight(s: StmtV) -> nat
    decreases s,
{
    match s {
        StmtV::Switch(inner, _, _) => 1 + sheight(*inner),
        _ => 0,
    }
}

// ---- the interpreter, as mathematics ----

/// One expression, evaluated post-order; `read` moves the input cursor, so
/// the state threads left to right.
pub open spec fn spec_eval_expr(e: ExprV, st: StV, inputs: Seq<Seq<u8>>, src: ReaderV) -> ER
    decreases e,
{
    match e {
        ExprV::Literal(l, line, col) => ER {
            st,
            res: Ok(
                match l {
                    LitV::Integer(n) => if n < crate::text::INT_LIT_BOUND {
                        ValueV::Int(n as int)
                    } else {
                        ValueV::Int(0)
                    },
                    LitV::Decimal(d) => ValueV::Float(d),
                    LitV::Text(t) => ValueV::Text(t),
                    LitV::Choice(b) => ValueV::Choice(b),
                },
            ),
        },
        ExprV::Id(n, line, col) => if st.env.dom().contains(n) {
            ER { st, res: Ok(st.env[n]) }
        } else {
            ER {
                st,
                res: Err(
                    rerr(
                        ("VARIABLE ").spec_bytes() + n + (" NOT FOUND").spec_bytes(),
                        line,
                        col,
                        src,
                    ),
                ),
            }
        },
        ExprV::Nullary(op, line, col) => if op is Read {
            if 0 <= st.in_pos < inputs.len() {
                ER {
                    st: StV { in_pos: st.in_pos + 1, ..st },
                    res: Ok(ValueV::Text(inputs[st.in_pos])),
                }
            } else {
                ER { st, res: Ok(ValueV::Text(Seq::empty())) }
            }
        } else {
            ER { st, res: Ok(ValueV::Nothing) }
        },
        ExprV::Unary(op, e1, line, col) => {
            let r1 = spec_eval_expr(*e1, st, inputs, src);
            match r1.res {
                Err(e) => r1,
                Ok(v) => ER {
                    st: r1.st,
                    res: match op {
                        Operator::Neg => match conv::lift(arith::spec_neg(v), line, col, src) {
                            Ok(w) => Ok(w),
                            Err(e) => Err(e),
                        },
                        Operator::Not => Ok(ValueV::Choice(!conv::spec_choice(v))),
                        Operator::Num => Ok(conv::spec_num(v)),
                        Operator::Text => Ok(ValueV::Text(conv::spec_text(v))),
                        Operator::Choice => Ok(ValueV::Choice(conv::spec_choice(v))),
                        _ => Ok(ValueV::Nothing),
                    },
                },
            }
        },
        ExprV::Binary(op, ea, eb, line, col) => {
            let r1 = spec_eval_expr(*ea, st, inputs, src);
            match r1.res {
                Err(e) => r1,
                Ok(va) => {
                    let r2 = spec_eval_expr(*eb, r1.st, inputs, src);
                    match r2.res {
                        Err(e) => r2,
                        Ok(vb) => ER {
                            st: r2.st,
                            res: match op {
                                Operator::Plus => conv::lift(
                                    arith::spec_plus(va, vb),
                                    line,
                                    col,
                                    src,
                                ),
                                Operator::Minus => conv::lift(
                                    arith::spec_minus(va, vb),
                                    line,
                                    col,
                                    src,
                                ),
                                Operator::Times => conv::lift(
                                    arith::spec_times(va, vb),
                                    line,
                                    col,
                                    src,
                                ),
                                Operator::Over => conv::lift(
                                    arith::spec_over(va, vb),
                                    line,
                                    col,
                                    src,
                                ),
                                Operator::Mod => conv::lift(
                                    arith::spec_mod(va, vb),
                                    line,
                                    col,
                                    src,
                                ),
                                Operator::ToThe => conv::lift(
                                    arith::spec_pow(va, vb),
                                    line,
                                    col,
                                    src,
                                ),
                                Operator::Or => Ok(
                                    ValueV::Choice(
                                        conv::spec_choice(va) || conv::spec_choice(vb),
                                    ),
                                ),
                                Operator::And => Ok(
                                    ValueV::Choice(
                                        conv::spec_choice(va) && conv::spec_choice(vb),
                                    ),
                                ),
                                Operator::Is => Ok(ValueV::Choice(cmp::spec_is(va, vb))),
                                Operator::Isnt => Ok(ValueV::Choice(!cmp::spec_is(va, vb))),
                                Operator::Below => conv::lift(
                                    cmp::spec_below(va, vb),
                                    line,
                                    col,
                                    src,
                                ),
                                Operator::Above => conv::lift(
                                    cmp::spec_above(va, vb),
                                    line,
                                    col,
                                    src,
                                ),
                                Operator::AtMost => conv::lift(
                                    cmp::spec_atmost(va, vb),
                                    line,
                                    col,
                                    src,
                                ),
                                Operator::AtLeast => conv::lift(
                                    cmp::spec_atleast(va, vb),
                                    line,
                                    col,
                                    src,
                                ),
                                _ => Ok(ValueV::Nothing),
                            },
                        },
                    }
                },
            }
        },
    }
}

/// One statement. `fuel` bounds how deep line jumps may still nest; a jump
/// with no fuel left raises a runtime error instead of chasing an unbounded
/// chain of re-entries.
pub open spec fn spec_run_stmt(
    s: StmtV,
    prog: Seq<StmtV>,
    st: StV,
    inputs: Seq<Seq<u8>>,
    src: ReaderV,
    fuel: nat,
) -> ER
    decreases fuel, 1int, sheight(s),
{
    match s {
        StmtV::Expr(e) => spec_eval_expr(e, st, inputs, src),
        StmtV::Write(e, line) => {
            let r = spec_eval_expr(e, st, inputs, src);
            match r.res {
                Err(_) => r,
                Ok(v) => ER {
                    st: StV { out: r.st.out + conv::spec_text(v) + seq![10u8], ..r.st },
                    res: Ok(ValueV::Nothing),
                },
            }
        },
        StmtV::Asgn(id, e, line) => {
            let r = spec_eval_expr(e, st, inputs, src);
            match r.res {
                Err(_) => r,
                Ok(v) => match id {
                    ExprV::Id(n, _, _) => ER {
                        st: StV { env: r.st.env.insert(n, v), ..r.st },
                        res: Ok(ValueV::Nothing),
                    },
                    _ => ER { st: r.st, res: Ok(ValueV::Nothing) },
                },
            }
        },
        StmtV::RunAt(e, line) => {
            let r = spec_eval_expr(e, st, inputs, src);
            match r.res {
                Err(_) => r,
                Ok(v) => match v {
                    ValueV::Int(n) => if 1 <= n <= prog.len() {
                        if fuel == 0 {
                            ER {
                                st: r.st,
                                res: Err(rerr(("NESTED RUNS TOO DEEP").spec_bytes(), line, 1, src)),
                            }
                        } else {
                            let r2 = spec_run_stmt(
                                prog[n - 1],
                                prog,
                                r.st,
                                inputs,
                                src,
                                (fuel - 1) as nat,
                            );
                            match r2.res {
                                Err(_) => r2,
                                Ok(_) => ER { st: r2.st, res: Ok(ValueV::Nothing) },
                            }
                        }
                    } else {
                        ER {
                            st: r.st,
                            res: Err(rerr(("INVALID LINE NUMBER").spec_bytes(), line, 1, src)),
                        }
                    },
                    _ => ER {
                        st: r.st,
                        res: Err(rerr(("INVALID LINE NUMBER").spec_bytes(), line, 1, src)),
                    },
                },
            }
        },
        StmtV::RunFrom(ea, eb, line) => {
            let r1 = spec_eval_expr(ea, st, inputs, src);
            match r1.res {
                Err(_) => r1,
                Ok(va) => {
                    let r2 = spec_eval_expr(eb, r1.st, inputs, src);
                    match r2.res {
                        Err(_) => r2,
                        Ok(vb) => match (va, vb) {
                            (ValueV::Int(x), ValueV::Int(y)) => if 1 <= x && x <= y && y
                                <= prog.len() {
                                if fuel == 0 {
                                    ER {
                                        st: r2.st,
                                        res: Err(
                                            rerr(
                                                ("NESTED RUNS TOO DEEP").spec_bytes(),
                                                line,
                                                1,
                                                src,
                                            ),
                                        ),
                                    }
                                } else {
                                    let r3 = spec_run_range(
                                        prog,
                                        x,
                                        y,
                                        r2.st,
                                        inputs,
                                        src,
                                        (fuel - 1) as nat,
                                    );
                                    match r3.res {
                                        Err(_) => r3,
                                        Ok(_) => ER { st: r3.st, res: Ok(ValueV::Nothing) },
                                    }
                                }
                            } else {
                                ER {
                                    st: r2.st,
                                    res: Err(
                                        rerr(("INVALID LINE RANGE").spec_bytes(), line, 1, src),
                                    ),
                                }
                            },
                            _ => ER {
                                st: r2.st,
                                res: Err(rerr(("INVALID LINE RANGE").spec_bytes(), line, 1, src)),
                            },
                        },
                    }
                },
            }
        },
        StmtV::Switch(inner, c, line) => {
            let r = spec_eval_expr(c, st, inputs, src);
            match r.res {
                Err(_) => r,
                Ok(v) => if conv::spec_choice(v) {
                    let r2 = spec_run_stmt(*inner, prog, r.st, inputs, src, fuel);
                    match r2.res {
                        Err(_) => r2,
                        Ok(_) => ER { st: r2.st, res: Ok(ValueV::Nothing) },
                    }
                } else {
                    ER { st: r.st, res: Ok(ValueV::Nothing) }
                },
            }
        },
        StmtV::Blank => ER { st, res: Ok(ValueV::Nothing) },
        StmtV::End => ER { st, res: Err(ErrV::End) },
    }
}

/// A bounded sub-run: the lines `i..=to`, each with the jump fuel already
/// paid.
pub open spec fn spec_run_range(
    prog: Seq<StmtV>,
    i: int,
    to: int,
    st: StV,
    inputs: Seq<Seq<u8>>,
    src: ReaderV,
    fuel: nat,
) -> ER
    decreases fuel, 2int, to + 1 - i,
{
    if i > to || !(1 <= i <= prog.len()) {
        ER { st, res: Ok(ValueV::Nothing) }
    } else {
        let r = spec_run_stmt(prog[i - 1], prog, st, inputs, src, fuel);
        match r.res {
            Err(_) => r,
            Ok(_) => spec_run_range(prog, i + 1, to, r.st, inputs, src, fuel),
        }
    }
}

/// The whole run, from line index `i` on: each top-level line starts with
/// the full jump fuel; the end marker stops the run quietly, keeping the
/// value produced before it.
pub open spec fn spec_run_prog(
    prog: Seq<StmtV>,
    i: int,
    st: StV,
    inputs: Seq<Seq<u8>>,
    src: ReaderV,
    last: ValueV,
) -> ER
    decreases prog.len() - i,
{
    if !(0 <= i < prog.len()) {
        ER { st, res: Ok(last) }
    } else {
        let r = spec_run_stmt(prog[i], prog, st, inputs, src, RUN_DEPTH as nat);
        match r.res {
            Err(e) => if e is End {
                ER { st: r.st, res: Ok(last) }
            } else {
                r
            },
            Ok(v) => spec_run_prog(prog, i + 1, r.st, inputs, src, v),
        }
    }
}

// ---- the interpreter itself ----

/// The evaluator: the source view for diagnostics, the flat environment,
/// the console input lines with a read cursor, and the output bytes.
pub struct Eval {
    reader: Reader,
    context: Vec<(Vec<u8>, Value)>,
    inputs: Vec<Vec<u8>>,
    in_pos: usize,
    out: Vec<u8>,
}

impl Eval {
    /// The source view.
    pub closed spec fn srcv(&self) -> ReaderV {
        self.reader@
    }

    /// The console input lines.
    pub closed spec fn inputs_v(&self) -> Seq<Seq<u8>> {
        self.inputs@.map_values(|v: Vec<u8>| v@)
    }

    /// The changeable state.
    pub closed spec fn stv(&self) -> StV {
        StV { env: env_view(self.context@), in_pos: self.in_pos as int, out: self.out@ }
    }

    pub closed spec fn wf(&self) -> bool {
        &&& reader_wf(self.reader@)
        &&& self.in_pos <= self.inputs@.len()
    }

    /// A fresh evaluator over a source view and the console input lines,
    /// with an empty environment and no output.
    pub fn new(reader: Reader, inputs: Vec<Vec<u8>>) -> (r: Self)
        requires
            reader_wf(reader@),
        ensures
            r.wf(),
            r.srcv() == reader@,
            r.inputs_v() == inputs@.map_values(|v: Vec<u8>| v@),
            r.stv() == (StV { env: Map::<Seq<u8>, ValueV>::empty(), in_pos: 0, out: Seq::empty() }),
    {
        let r = Eval { reader, context: Vec::new(), inputs, in_pos: 0, out: Vec::new() };
        proof {
            assert(r.stv().env =~= Map::<Seq<u8>, ValueV>::empty());
            assert(r.stv().out =~= Seq::<u8>::empty());
            assert(r.stv() == (StV {
                env: Map::<Seq<u8>, ValueV>::empty(),
                in_pos: 0,
                out: Seq::empty(),
            }));
        }
        r
    }

    /// The bytes the run has written.
    pub fn output(&self) -> (r: &Vec<u8>)
        ensures
            r@ == self.stv().out,
    {
        &self.out
    }

    fn runtime_error(&self, msg: Vec<u8>, location: Pos) -> (r: Errors)
        requires
            reader_wf(self.reader@),
        ensures
            r@ == rerr(msg@, location.0 as int, location.1 as int, self.srcv()),
    {
        let text = self.reader.get_line(location.0);
        Errors::RuntimeError(msg, location, text)
    }

    /// Evaluates one expression, post-order; only `read` moves state.
    pub fn eval_expr(&mut self, expr: &Expr) -> (r: Result<Value, Errors>)
        requires
            old(self).wf(),
        ensures
            final(self).wf(),
            final(self).srcv() == old(self).srcv(),
            final(self).inputs_v() == old(self).inputs_v(),
            ({
                let er = spec_eval_expr(
                    expr.v(),
                    old(self).stv(),
                    old(self).inputs_v(),
                    old(self).srcv(),
                );
                final(self).stv() == er.st && (match r {
                    Ok(v) => er.res == Ok::<ValueV, ErrV>(v.v()),
                    Err(e) => er.res == Err::<ValueV, ErrV>(e@),
                })
            }),
        decreases expr,
    {
        match expr {
            Expr::Binary(op, left, right, location) => {
                let va = match self.eval_expr(left) {
                    Ok(v) => v,
                    Err(e) => {
                        return Err(e);
                    },
                };
                let vb = match self.eval_expr(right) {
                    Ok(v) => v,
                    Err(e) => {
                        return Err(e);
                    },
                };
                match op {
                    Operator::Plus => self.plus(&va, &vb, *location),
                    Operator::Minus => self.minus(&va, &vb, *location),
                    Operator::Times => self.times(&va, &vb, *location),
                    Operator::Over => self.over(&va, &vb, *location),
                    Operator::Mod => self.modolo(&va, &vb, *location),
                    Operator::ToThe => self.pow(&va, &vb, *location),
                    Operator::Or => Ok(self.or(&va, &vb)),
                    Operator::And => Ok(self.and(&va, &vb)),
                    Operator::Is => Ok(self.is(&va, &vb)),
                    Operator::Isnt => Ok(self.isnt(&va, &vb)),
                    Operator::Below => self.below(&va, &vb, *location),
                    Operator::Above => self.above(&va, &vb, *location),
                    Operator::AtMost => self.atmost(&va, &vb, *location),
                    Operator::AtLeast => self.atleast(&va, &vb, *location),
                    _ => Ok(Value::Nothing),
                }
            },
            Expr::Unary(op, operand, location) => {
                let v = match self.eval_expr(operand) {
                    Ok(v) => v,
                    Err(e) => {
                        return Err(e);
                    },
                };
                match op {
                    Operator::Neg => self.neg(&v, *location),
                    Operator::Not => Ok(self.not(&v)),
                    Operator::Num => Ok(self.num(&v, *location)),
                    Operator::Text => Ok(self.text(&v)),
                    Operator::Choice => Ok(self.choice(&v)),
                    _ => Ok(Value::Nothing),
                }
            },
            Expr::Nullary(op, location) => match op {
                Operator::Read => self.read(*location),
                _ => Ok(Value::Nothing),
            },
            Expr::Literal(lit, _location) => Ok(
                match lit {
                    crate::ast::Literal::Integer(n) => if *n
                        < crate::text::INT_LIT_BOUND {
                        Value::Int(*n as i128)
                    } else {
                        Value::Int(0)
                    },
                    crate::ast::Literal::Decimal(d) => Value::Float(*d),
                    crate::ast::Literal::Text(s) => Value::Text(to_vec_of(s.as_slice())),
                    crate::ast::Literal::Choice(b) => Value::Choice(*b),
                },
            ),
            Expr::Id(id, location) => self.id(&Name { id: to_vec_of(id.as_slice()) }, *location),
        }
    }

    /// Executes one statement against the full statement array.
    pub fn run_stmt(&mut self, stmt: &Stmt, prog: &Vec<Stmt>, fuel: u32) -> (r: Result<
        Value,
        Errors,
    >)
        requires
            old(self).wf(),
        ensures
            final(self).wf(),
            final(self).srcv() == old(self).srcv(),
            final(self).inputs_v() == old(self).inputs_v(),
            ({
                let er = spec_run_stmt(
                    stmt.v(),
                    prog_view(prog@),
                    old(self).stv(),
                    old(self).inputs_v(),
                    old(self).srcv(),
                    fuel as nat,
                );
                final(self).stv() == er.st && (match r {
                    Ok(v) => er.res == Ok::<ValueV, ErrV>(v.v()),
                    Err(e) => er.res == Err::<ValueV, ErrV>(e@),
                })
            }),
        decreases fuel, 1int, sheight(stmt.v()), 1int,
    {
        match stmt {
            Stmt::Expr(expr) => {
                let e: &Expr = expr;
                self.eval_expr(e)
            },
            Stmt::Write(expr, line) => {
                let e: &Expr = expr;
                match self.write(e, *line) {
                    Ok(u) => Ok(Value::Nothing),
                    Err(e2) => Err(e2),
                }
            },
            Stmt::RunFrom(from, to, line) => {
                let a: &Expr = from;
                let b: &Expr = to;
                match self.run_from(a, b, *line, prog, fuel) {
                    Ok(u) => Ok(Value::Nothing),
                    Err(e2) => Err(e2),
                }
            },
            Stmt::RunAt(expr, line) => {
                let e: &Expr = expr;
                match self.run_at(e, *line, prog, fuel) {
                    Ok(u) => Ok(Value::Nothing),
                    Err(e2) => Err(e2),
                }
            },
            Stmt::Switch(inner, cond, line) => {
                let s: &Stmt = inner;
                let c: &Expr = cond;
                match self.switch(s, c, *line, prog, fuel) {
                    Ok(u) => Ok(Value::Nothing),
                    Err(e2) => Err(e2),
                }
            },
            Stmt::Asgn(left, right, line) => {
                let l: &Expr = left;
                let rr: &Expr = right;
                match self.asgn(l, rr, *line) {
                    Ok(u) => Ok(Value::Nothing),
                    Err(e2) => Err(e2),
                }
            },
            Stmt::Blank => Ok(Value::Nothing),
            Stmt::End => Err(Errors::EndProg),
        }
    }

    /// Runs the whole program top to bottom; the end marker stops the run
    /// quietly.
    #[verifier::loop_isolation(false)]
    pub fn run_prog(&mut self, prog: &Vec<Stmt>) -> (r: Result<Value, Errors>)
        requires
            old(self).wf(),
        ensures
            final(self).wf(),
            final(self).srcv() == old(self).srcv(),
            final(self).inputs_v() == old(self).inputs_v(),
            ({
                let er = spec_run_prog(
                    prog_view(prog@),
                    0,
                    old(self).stv(),
                    old(self).inputs_v(),
                    old(self).srcv(),
                    ValueV::Nothing,
                );
                final(self).stv() == er.st && (match r {
                    Ok(v) => er.res == Ok::<ValueV, ErrV>(v.v()),
                    Err(e) => er.res == Err::<ValueV, ErrV>(e@),
                })
            }),
    {
        let ghost pv = prog_view(prog@);
        let ghost st0 = self.stv();
        let mut ret = Value::Nothing;
        let mut i: usize = 0;
        loop
            invariant
                self.wf(),
                i <= prog@.len(),
                self.srcv() == old(self).srcv(),
                self.inputs_v() == old(self).inputs_v(),
                spec_run_prog(pv, 0, st0, old(self).inputs_v(), old(self).srcv(), ValueV::Nothing)
                    == spec_run_prog(
                    pv,
                    i as int,
                    self.stv(),
                    old(self).inputs_v(),
                    old(self).srcv(),
                    ret.v(),
                ),
            decreases prog@.len() - i,
        {
            if i >= prog.len() {
                break;
            }
            match self.run_stmt(&prog[i], prog, RUN_DEPTH) {
                Ok(v) => {
                    ret = v;
                },
                Err(e) => {
                    if matches!(e, Errors::EndProg) {
                        return Ok(ret);
                    }
                    return Err(e);
                },
            }
            i = i + 1;
        }
        Ok(ret)
    }

    /// The debugging face of a value: text is quoted, the rest renders as
    /// to-text shows it.
    pub fn display(value: &Value) -> (r: Vec<u8>)
        ensures
            r@ == display_spec(value.v()),
    {
        match value {
            Value::Text(s) => {
                let mut out: Vec<u8> = Vec::new();
                out.push(34);
                let mut mid = to_vec_of(s.as_slice());
                out.append(&mut mid);
                out.push(34);
                proof {
                    assert(out@ =~= seq![34u8] + s@ + seq![34u8]);
                }
                out
            },
            Value::Int(x) => crate::text::render_i128(*x),
            Value::Float(f) => crate::fp::float_text(*f),
            Value::Choice(b) => if *b {
                to_vec_of(("yes").as_bytes())
            } else {
                to_vec_of(("no").as_bytes())
            },
            Value::Nothing => to_vec_of(("nothing").as_bytes()),
        }
    }
}

/// The debugging face of a value.
pub open spec fn display_spec(v: ValueV) -> Seq<u8> {
    match v {
        ValueV::Text(s) => seq![34u8] + s + seq![34u8],
        _ => conv::spec_text(v),
    }
}

} // verus!
