//! The interpreter's error kinds, and the exact text each renders as.

use vstd::prelude::*;

use vstd::string::StringSliceAdditionalSpecFns;

use crate::lexer::Pos;
use crate::text::dec_digits;
use crate::text::render_usize;

verus! {

/// Everything that can halt a run: argument and stream failures, the two
/// diagnostic kinds carrying a message, a position and the quoted source
/// line, and the marker the voluntary end-of-program travels as.
#[derive(Debug)]
pub enum Errors {
    ArgumentError,
    SyntaxError(Vec<u8>, Pos, Vec<u8>),
    IOError,
    RuntimeError(Vec<u8>, Pos, Vec<u8>),
    Interrupt(usize, usize),
    EndProg,
}

/// The mathematical shape of an error.
pub enum ErrV {
    Argument,
    Syntax { msg: Seq<u8>, line: int, col: int, text: Seq<u8> },
    Io,
    Runtime { msg: Seq<u8>, line: int, col: int, text: Seq<u8> },
    Interrupt(int, int),
    End,
}

impl View for Errors {
    type V = ErrV;

    open spec fn view(&self) -> ErrV {
        match self {
            Errors::ArgumentError => ErrV::Argument,
            Errors::SyntaxError(m, p, t) => ErrV::Syntax {
                msg: m@,
                line: p.0 as int,
                col: p.1 as int,
                text: t@,
            },
            Errors::IOError => ErrV::Io,
            Errors::RuntimeError(m, p, t) => ErrV::Runtime {
                msg: m@,
                line: p.0 as int,
                col: p.1 as int,
                text: t@,
            },
            Errors::Interrupt(a, b) => ErrV::Interrupt(*a as int, *b as int),
            Errors::EndProg => ErrV::End,
        }
    }
}

pub open spec fn spaces(n: nat) -> Seq<u8> {
    Seq::new(n, |i: int| 32u8)
}

/// A diagnostic block: banner, message, position, the quoted line, and a
/// pointer under the offending column.
pub open spec fn render_block(head: Seq<u8>, msg: Seq<u8>, line: int, col: int, text: Seq<u8>) -> Seq<
    u8,
> {
    head + msg + ("\nIN LINE: ").spec_bytes() + dec_digits(line as nat) + (", COL: ").spec_bytes()
        + dec_digits(col as nat) + ("\n\n--> ").spec_bytes() + text + ("\n").spec_bytes() + spaces(
        (col + 3) as nat,
    ) + ("^-- SEE").spec_bytes()
}

/// The exact text an error renders as.
pub open spec fn render_spec(e: ErrV) -> Seq<u8> {
    match e {
        ErrV::Argument => ("NEED SOURCE FILE AS ARGUMENT\n").spec_bytes(),
        ErrV::Syntax { msg, line, col, text } => render_block(
            ("--------- TYPO ---------\n").spec_bytes(),
            msg,
            line,
            col,
            text,
        ),
        ErrV::Io => ("Failed to read file :^) sorry").spec_bytes(),
        ErrV::Runtime { msg, line, col, text } => render_block(
            ("--------- ERROR ---------\n").spec_bytes(),
            msg,
            line,
            col,
            text,
        ),
        ErrV::Interrupt(a, b) => ("Control flow changed to lines: ").spec_bytes() + dec_digits(
            a as nat,
        ) + ("-").spec_bytes() + dec_digits(b as nat) + ("\n").spec_bytes(),
        ErrV::End => ("Program ended").spec_bytes(),
    }
}

/// Appends a byte slice.
pub fn push_all(out: &mut Vec<u8>, s: &[u8])
    ensures
        final(out)@ == old(out)@ + s@,
{
    let mut i: usize = 0;
    while i < s.len()
        invariant
            i <= s@.len(),
            out@ == old(out)@ + s@.take(i as int),
        decreases s@.len() - i,
    {
        out.push(s[i]);
        proof {
            assert(old(out)@ + s@.take(i as int) + seq![s@[i as int]] =~= old(out)@ + s@.take(
                i + 1,
            ));
        }
        i += 1;
    }
    proof {
        assert(s@.take(s@.len() as int) =~= s@);
    }
}

fn push_spaces(out: &mut Vec<u8>, n: usize)
    ensures
        final(out)@ == old(out)@ + spaces(n as nat),
{
    let mut i: usize = 0;
    while i < n
        invariant
            i <= n,
            out@ == old(out)@ + spaces(i as nat),
        decreases n - i,
    {
        out.push(32);
        proof {
            assert(old(out)@ + spaces(i as nat) + seq![32u8] =~= old(out)@ + spaces((i + 1) as nat));
        }
        i += 1;
    }
}

fn render_block_exec(head: &[u8], msg: &[u8], line: usize, col: usize, text: &[u8]) -> (r: Vec<u8>)
    requires
        col + 3 <= usize::MAX,
    ensures
        r@ == render_block(head@, msg@, line as int, col as int, text@),
{
    let mut out: Vec<u8> = Vec::new();
    push_all(&mut out, head);
    push_all(&mut out, msg);
    push_all(&mut out, ("\nIN LINE: ").as_bytes());
    let mut ln = render_usize(line);
    out.append(&mut ln);
    push_all(&mut out, (", COL: ").as_bytes());
    let mut cn = render_usize(col);
    out.append(&mut cn);
    push_all(&mut out, ("\n\n--> ").as_bytes());
    push_all(&mut out, text);
    push_all(&mut out, ("\n").as_bytes());
    push_spaces(&mut out, col + 3);
    push_all(&mut out, ("^-- SEE").as_bytes());
    out
}

/// Rendering needs room for the column pointer.
pub open spec fn render_ok(e: ErrV) -> bool {
    match e {
        ErrV::Syntax { msg, line, col, text } => col + 3 <= usize::MAX,
        ErrV::Runtime { msg, line, col, text } => col + 3 <= usize::MAX,
        _ => true,
    }
}

impl Errors {
    /// The full diagnostic text of this error, byte for byte.
    pub fn render(&self) -> (r: Vec<u8>)
        requires
            render_ok(self@),
        ensures
            r@ == render_spec(self@),
    {
        match self {
            Errors::ArgumentError => {
                let mut out: Vec<u8> = Vec::new();
                push_all(&mut out, ("NEED SOURCE FILE AS ARGUMENT\n").as_bytes());
                out
            },
            Errors::SyntaxError(m, p, t) => render_block_exec(
                ("--------- TYPO ---------\n").as_bytes(),
                m.as_slice(),
                p.0,
                p.1,
                t.as_slice(),
            ),
            Errors::IOError => {
                let mut out: Vec<u8> = Vec::new();
                push_all(&mut out, ("Failed to read file :^) sorry").as_bytes());
                out
            },
            Errors::RuntimeError(m, p, t) => render_block_exec(
                ("--------- ERROR ---------\n").as_bytes(),
                m.as_slice(),
                p.0,
                p.1,
                t.as_slice(),
            ),
            Errors::Interrupt(a, b) => {
                let mut out: Vec<u8> = Vec::new();
                push_all(&mut out, ("Control flow changed to lines: ").as_bytes());
                let mut an = render_usize(*a);
                out.append(&mut an);
                push_all(&mut out, ("-").as_bytes());
                let mut bn = render_usize(*b);
                out.append(&mut bn);
                push_all(&mut out, ("\n").as_bytes());
                out
            },
            Errors::EndProg => {
                let mut out: Vec<u8> = Vec::new();
                push_all(&mut out, ("Program ended").as_bytes());
                out
            },
        }
    }
}

} // verus!
