//! The abstract syntax: operators, literals, expressions and statements,
//! with the mathematical shape of each.

use vstd::prelude::*;

use crate::lexer::Pos;

verus! {

#[derive(Debug, Clone, Copy, PartialEq, Eq, Structural)]
pub enum Operator {
    Is,
    Isnt,
    Below,
    Above,
    AtMost,
    AtLeast,
    Plus,
    Minus,
    Times,
    Over,
    Mod,
    ToThe,
    Neg,
    Read,
    And,
    Or,
    Not,
    Text,
    Num,
    Choice,
}

/// A literal: an integer, a decimal (carried as the bits of a double), a
/// piece of text, or a yes/no choice.
#[derive(Debug)]
pub enum Literal {
    Integer(u128),
    Decimal(u64),
    Text(Vec<u8>),
    Choice(bool),
}

#[derive(Debug)]
pub enum Expr {
    Unary(Operator, Box<Expr>, Pos),
    Binary(Operator, Box<Expr>, Box<Expr>, Pos),
    Nullary(Operator, Pos),
    Literal(Literal, Pos),
    Id(Vec<u8>, Pos),
}

#[derive(Debug)]
pub enum Stmt {
    Asgn(Box<Expr>, Box<Expr>, usize),
    RunFrom(Box<Expr>, Box<Expr>, usize),
    RunAt(Box<Expr>, usize),
    Write(Box<Expr>, usize),
    Switch(Box<Stmt>, Box<Expr>, usize),
    Expr(Box<Expr>),
    Blank,
    End,
}

/// The mathematical shape of a literal.
pub enum LitV {
    Integer(u128),
    Decimal(u64),
    Text(Seq<u8>),
    Choice(bool),
}

/// The mathematical shape of an expression; positions flattened to line and
/// column.
pub enum ExprV {
    Unary(Operator, Box<ExprV>, int, int),
    Binary(Operator, Box<ExprV>, Box<ExprV>, int, int),
    Nullary(Operator, int, int),
    Literal(LitV, int, int),
    Id(Seq<u8>, int, int),
}

/// The mathematical shape of a statement.
pub enum StmtV {
    Asgn(ExprV, ExprV, int),
    RunFrom(ExprV, ExprV, int),
    RunAt(ExprV, int),
    Write(ExprV, int),
    Switch(Box<StmtV>, ExprV, int),
    Expr(ExprV),
    Blank,
    End,
}

impl Literal {
    pub open spec fn v(&self) -> LitV {
        match self {
            Literal::Integer(n) => LitV::Integer(*n),
            Literal::Decimal(d) => LitV::Decimal(*d),
            Literal::Text(t) => LitV::Text(t@),
            Literal::Choice(b) => LitV::Choice(*b),
        }
    }
}

impl Expr {
    /// The mathematical shape of this expression.
    pub open spec fn v(&self) -> ExprV
        decreases self,
    {
        match self {
            Expr::Unary(op, e, p) => ExprV::Unary(*op, Box::new(e.v()), p.0 as int, p.1 as int),
            Expr::Binary(op, a, b, p) => ExprV::Binary(
                *op,
                Box::new(a.v()),
                Box::new(b.v()),
                p.0 as int,
                p.1 as int,
            ),
            Expr::Nullary(op, p) => ExprV::Nullary(*op, p.0 as int, p.1 as int),
            Expr::Literal(l, p) => ExprV::Literal(l.v(), p.0 as int, p.1 as int),
            Expr::Id(n, p) => ExprV::Id(n@, p.0 as int, p.1 as int),
        }
    }
}

impl Stmt {
    /// The mathematical shape of this statement.
    pub open spec fn v(&self) -> StmtV
        decreases self,
    {
        match self {
            Stmt::Asgn(a, b, l) => StmtV::Asgn(a.v(), b.v(), *l as int),
            Stmt::RunFrom(a, b, l) => StmtV::RunFrom(a.v(), b.v(), *l as int),
            Stmt::RunAt(a, l) => StmtV::RunAt(a.v(), *l as int),
            Stmt::Write(a, l) => StmtV::Write(a.v(), *l as int),
            Stmt::Switch(s, c, l) => StmtV::Switch(Box::new(s.v()), c.v(), *l as int),
            Stmt::Expr(a) => StmtV::Expr(a.v()),
            Stmt::Blank => StmtV::Blank,
            Stmt::End => StmtV::End,
        }
    }
}

/// The mathematical shape of a whole program.
pub open spec fn prog_view(prog: Seq<Stmt>) -> Seq<StmtV> {
    prog.map_values(|s: Stmt| s.v())
}

} // verus!
