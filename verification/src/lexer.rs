//! The source view and the tokenizer: byte-at-a-time scanning over the whole
//! buffered source, tracking line and column and recording every consumed
//! newline's offset so any line's raw text can be recovered for diagnostics.

use vstd::prelude::*;

use vstd::string::StringSliceAdditionalSpecFns;

use crate::errors::ErrV;
use crate::errors::Errors;
use crate::fp::digits_end;
use crate::text::digits_val;
use crate::text::is_digit;
use crate::text::is_digit_byte;
use crate::token::Token;
use crate::token::TokenType;
use crate::token::TokV;
use crate::token::TokenV;
use crate::token::keyword_of;
use crate::token::keyword_lookup;

verus! {

/// A location in the source: 1-based line and column.
#[derive(Debug, Clone, Copy, PartialEq, Eq, Structural)]
pub struct Pos(pub usize, pub usize);

/// The byte past the end of input: scanning sees this sentinel instead of
/// ever indexing out of range.
pub const EOI: u8 = 26;

/// The byte at `pt`, or the end sentinel.
pub open spec fn byte_at(s: Seq<u8>, pt: int) -> u8 {
    if 0 <= pt < s.len() {
        s[pt]
    } else {
        EOI
    }
}

/// The offsets of every newline byte in `s`, in order.
pub open spec fn nl_positions(s: Seq<u8>) -> Seq<int>
    decreases s.len(),
{
    if s.len() == 0 {
        Seq::empty()
    } else if s.last() == 10 {
        nl_positions(s.drop_last()) + seq![s.len() - 1]
    } else {
        nl_positions(s.drop_last())
    }
}

pub proof fn lemma_nl_positions(s: Seq<u8>)
    ensures
        forall|k: int|
            0 <= k < nl_positions(s).len() ==> 0 <= #[trigger] nl_positions(s)[k] < s.len()
                && s[nl_positions(s)[k]] == 10,
        forall|k1: int, k2: int|
            0 <= k1 < k2 < nl_positions(s).len() ==> #[trigger] nl_positions(s)[k1]
                < #[trigger] nl_positions(s)[k2],
    decreases s.len(),
{
    if s.len() > 0 {
        lemma_nl_positions(s.drop_last());
        assert(forall|k: int|
            0 <= k < nl_positions(s.drop_last()).len() ==> s.drop_last()[#[trigger] nl_positions(
                s.drop_last(),
            )[k]] == s[nl_positions(s.drop_last())[k]]);
    }
}

/// The mathematical shape of the source view.
pub struct ReaderV {
    pub input: Seq<u8>,
    pub newlines: Seq<int>,
    pub pt: int,
    pub line: int,
    pub col: int,
}

/// The recorded newlines are exactly those the scan position has passed.
pub open spec fn reader_wf(v: ReaderV) -> bool {
    &&& 0 <= v.pt <= v.input.len()
    &&& v.input.len() + 2 <= usize::MAX
    &&& v.newlines == nl_positions(v.input.take(v.pt))
    &&& 1 <= v.col <= v.pt + 1
    &&& 1 <= v.line <= v.pt + 1
}

/// The byte scanner over the buffered source.
pub struct Reader {
    input: Vec<u8>,
    newlines: Vec<usize>,
    pt: usize,
    col: usize,
    line: usize,
}

impl View for Reader {
    type V = ReaderV;

    closed spec fn view(&self) -> ReaderV {
        ReaderV {
            input: self.input@,
            newlines: self.newlines@.map_values(|u: usize| u as int),
            pt: self.pt as int,
            line: self.line as int,
            col: self.col as int,
        }
    }
}

impl Reader {
    /// A fresh view over the given source bytes.
    pub fn new(input: Vec<u8>) -> (r: Self)
        requires
            input@.len() + 2 <= usize::MAX,
        ensures
            r@.input == input@,
            r@.pt == 0,
            r@.line == 1,
            r@.col == 1,
            reader_wf(r@),
    {
        let r = Self { input, newlines: Vec::new(), pt: 0, col: 1, line: 1 };
        proof {
            assert(r@.input.take(0) =~= Seq::<u8>::empty());
            assert(r@.newlines =~= nl_positions(r@.input.take(0)));
        }
        r
    }

    pub fn pos(&self) -> (r: Pos)
        ensures
            r.0 == self@.line,
            r.1 == self@.col,
    {
        Pos(self.line, self.col)
    }

    /// Reads the byte under the cursor and steps over it.
    pub fn readc(&mut self) -> (c: u8)
        requires
            reader_wf(old(self)@),
            old(self)@.pt < old(self)@.input.len(),
            old(self)@.input[old(self)@.pt] != 10,
            old(self)@.col < usize::MAX,
        ensures
            reader_wf(final(self)@),
            c == byte_at(old(self)@.input, old(self)@.pt),
            final(self)@ == (ReaderV { pt: old(self)@.pt + 1, col: old(self)@.col + 1, ..old(self)@ }),
    {
        let c = self.peek();
        // the length in hand shows the step stays in bounds
        let n = self.input.len();
        self.pt += 1;
        self.col += 1;
        proof {
            assert(self@.input.take(self@.pt).drop_last() =~= self@.input.take(self@.pt - 1));
            assert(self@.newlines =~= nl_positions(self@.input.take(self@.pt)));
        }
        c
    }

    /// The byte under the cursor, or the end sentinel.
    pub fn peek(&self) -> (c: u8)
        ensures
            c == byte_at(self@.input, self@.pt),
    {
        if self.pt >= self.input.len() {
            return EOI;
        }
        self.input[self.pt]
    }

    /// Steps over `n` bytes, stopping at the end of input; none of the
    /// skipped bytes may be a newline.
    pub fn skip(&mut self, n: usize)
        requires
            reader_wf(old(self)@),
            old(self)@.col + n <= usize::MAX,
            forall|j: int|
                old(self)@.pt <= j < old(self)@.pt + n && j < old(self)@.input.len() ==> old(self)@.input[j] != 10,
        ensures
            reader_wf(final(self)@),
            final(self)@ == (ReaderV {
                pt: if old(self)@.pt + n <= old(self)@.input.len() {
                    old(self)@.pt + n
                } else {
                    old(self)@.input.len() as int
                },
                col: old(self)@.col + (final(self)@.pt - old(self)@.pt),
                ..old(self)@
            }),
    {
        let prev = self.pt;
        let len = self.input.len();
        let room = len - self.pt;
        self.pt = if n <= room {
            self.pt + n
        } else {
            len
        };
        self.col += self.pt - prev;
        proof {
            lemma_nl_skip(self@.input, prev as int, self@.pt);
        }
    }

    /// Steps over the newline byte under the cursor, recording its offset.
    pub fn newline(&mut self)
        requires
            reader_wf(old(self)@),
            old(self)@.pt < old(self)@.input.len(),
            old(self)@.input[old(self)@.pt] == 10,
            old(self)@.line < usize::MAX,
        ensures
            reader_wf(final(self)@),
            final(self)@ == (ReaderV {
                pt: old(self)@.pt + 1,
                line: old(self)@.line + 1,
                col: 1,
                newlines: old(self)@.newlines + seq![old(self)@.pt],
                ..old(self)@
            }),
    {
        // the length in hand shows the step stays in bounds
        let n = self.input.len();
        self.newlines.push(self.pt);
        self.line += 1;
        self.col = 1;
        self.pt += 1;
        proof {
            assert(self@.input.take(self@.pt).drop_last() =~= self@.input.take(self@.pt - 1));
            assert(self@.newlines =~= nl_positions(self@.input.take(self@.pt)));
        }
    }

    /// The raw text of the line the cursor stands in, reading forward to its
    /// end.
    pub fn get_this_line(&mut self) -> (r: Vec<u8>)
        requires
            reader_wf(old(self)@),
        ensures
            reader_wf(final(self)@),
            r@ == this_line_text(old(self)@.input, old(self)@.pt),
            final(self)@ == (ReaderV {
                pt: eol_from(old(self)@.input, old(self)@.pt),
                col: old(self)@.col + (final(self)@.pt - old(self)@.pt),
                ..old(self)@
            }),
    {
        proof {
            lemma_newlines_last(self@.input, self@.pt);
            lemma_last_nl_before(self@.input, self@.pt);
            lemma_scan_bounds(self@.input, self@.pt);
        }
        let start: usize = if self.newlines.len() > 0 {
            self.newlines[self.newlines.len() - 1] + 1
        } else {
            0
        };
        proof {
            lemma_nl_positions(self@.input.take(self@.pt));
            assert(start == last_nl_before(self@.input, self@.pt) + 1);
            assert(start <= self@.pt);
        }
        while !Lexer::is_eol(self.peek())
            invariant
                reader_wf(self@),
                old(self)@.pt <= self@.pt,
                self@.input == old(self)@.input,
                self@.newlines == old(self)@.newlines,
                self@.line == old(self)@.line,
                self@.col == old(self)@.col + (self@.pt - old(self)@.pt),
                eol_from(old(self)@.input, old(self)@.pt) == eol_from(self@.input, self@.pt),
                start <= self@.pt,
            decreases self@.input.len() - self@.pt,
        {
            self.readc();
        }
        let end = self.pt;
        proof {
            assert(self@.pt == eol_from(old(self)@.input, old(self)@.pt));
            assert(start <= end <= self@.input.len());
        }
        let r = vstd::slice::slice_to_vec(
            vstd::slice::slice_subrange(self.input.as_slice(), start, end),
        );
        proof {
            assert(r@ =~= this_line_text(old(self)@.input, old(self)@.pt));
        }
        r
    }

    /// The raw text of line `n`, from the recorded newline offsets; an
    /// unrecorded line reads as empty.
    pub fn get_line(&self, n: usize) -> (r: Vec<u8>)
        requires
            reader_wf(self@),
        ensures
            r@ == get_line_spec(self@, n as int),
    {
        proof {
            reveal(get_line_spec);
            lemma_nl_positions(self@.input.take(self@.pt));
            assert(forall|k: int|
                0 <= k < self@.newlines.len() ==> 0 <= #[trigger] self@.newlines[k]
                    < self@.pt);
        }
        let len = self.input.len();
        let start: usize = if n > 1 {
            if n - 2 < self.newlines.len() {
                proof {
                    assert(self@.newlines[n - 2] < self@.pt <= self@.input.len());
                }
                self.newlines[n - 2] + 1
            } else {
                len
            }
        } else {
            0
        };
        let end: usize = if 1 <= n && n <= self.newlines.len() {
            proof {
                assert(self@.newlines[n - 1] < self@.pt <= self@.input.len());
            }
            self.newlines[n - 1]
        } else {
            len
        };
        if start <= end {
            let r = vstd::slice::slice_to_vec(
                vstd::slice::slice_subrange(self.input.as_slice(), start, end),
            );
            proof {
                assert(r@ =~= get_line_spec(self@, n as int));
            }
            r
        } else {
            Vec::new()
        }
    }
}

/// The text of line `n` under a source view: between the neighbouring
/// recorded newlines, or up to the end of input for the last line.
#[verifier::opaque]
pub open spec fn get_line_spec(v: ReaderV, n: int) -> Seq<u8> {
    let start: int = if n > 1 {
        if n - 2 < v.newlines.len() {
            v.newlines[n - 2] + 1
        } else {
            v.input.len() as int
        }
    } else {
        0
    };
    let end: int = if 1 <= n <= v.newlines.len() {
        v.newlines[n - 1]
    } else {
        v.input.len() as int
    };
    if 0 <= start <= end <= v.input.len() {
        v.input.subrange(start, end)
    } else {
        Seq::empty()
    }
}

// ---- byte classes and scans ----

pub open spec fn is_space(b: u8) -> bool {
    b == 32 || b == 9
}

pub open spec fn is_alpha(b: u8) -> bool {
    (65 <= b <= 90) || (97 <= b <= 122)
}

/// The end of a line, seen from `i`: a newline, a carriage return, the end
/// sentinel byte, or the end of input.
pub open spec fn is_eol_byte(b: u8) -> bool {
    b == 10 || b == 13 || b == EOI
}

pub open spec fn space_end(s: Seq<u8>, i: int) -> int
    decreases s.len() - i,
{
    if 0 <= i < s.len() && is_space(s[i]) {
        space_end(s, i + 1)
    } else {
        i
    }
}

pub open spec fn alpha_end(s: Seq<u8>, i: int) -> int
    decreases s.len() - i,
{
    if 0 <= i < s.len() && is_alpha(s[i]) {
        alpha_end(s, i + 1)
    } else {
        i
    }
}

/// First position at or after `i` that ends a line.
pub open spec fn eol_from(s: Seq<u8>, i: int) -> int
    decreases s.len() - i,
{
    if 0 <= i < s.len() && !is_eol_byte(s[i]) {
        eol_from(s, i + 1)
    } else {
        i
    }
}

/// First position at or after `i` that closes a string: a quote or a line
/// end.
pub open spec fn str_end(s: Seq<u8>, i: int) -> int
    decreases s.len() - i,
{
    if 0 <= i < s.len() && s[i] != 34 && !is_eol_byte(s[i]) {
        str_end(s, i + 1)
    } else {
        i
    }
}

/// The newline nearest before `i`, or -1.
pub open spec fn last_nl_before(s: Seq<u8>, i: int) -> int
    decreases i,
{
    if i <= 0 {
        -1
    } else if byte_at(s, i - 1) == 10 {
        i - 1
    } else {
        last_nl_before(s, i - 1)
    }
}

/// The text of the line the position `i` stands in, up to the next line end.
pub open spec fn this_line_text(s: Seq<u8>, i: int) -> Seq<u8> {
    if 0 <= i <= s.len() {
        s.subrange(last_nl_before(s, i) + 1, eol_from(s, i))
    } else {
        Seq::empty()
    }
}

pub proof fn lemma_scan_bounds(s: Seq<u8>, i: int)
    requires
        0 <= i <= s.len(),
    ensures
        i <= space_end(s, i) <= s.len(),
        i <= alpha_end(s, i) <= s.len(),
        i <= eol_from(s, i) <= s.len(),
        i <= str_end(s, i) <= s.len(),
    decreases s.len() - i,
{
    if i < s.len() {
        lemma_scan_bounds(s, i + 1);
    }
}

pub proof fn lemma_last_nl_before(s: Seq<u8>, i: int)
    ensures
        -1 <= last_nl_before(s, i),
        i >= 0 ==> last_nl_before(s, i) < i,
        last_nl_before(s, i) >= 0 ==> byte_at(s, last_nl_before(s, i)) == 10,
    decreases i,
{
    if i > 0 && byte_at(s, i - 1) != 10 {
        lemma_last_nl_before(s, i - 1);
    }
}

/// The recorded newlines point back at the newline nearest before the scan
/// position.
pub proof fn lemma_newlines_last(s: Seq<u8>, pt: int)
    requires
        0 <= pt <= s.len(),
    ensures
        nl_positions(s.take(pt)).len() == 0 ==> last_nl_before(s, pt) == -1,
        nl_positions(s.take(pt)).len() > 0 ==> last_nl_before(s, pt) == nl_positions(
            s.take(pt),
        ).last(),
    decreases pt,
{
    if pt > 0 {
        lemma_newlines_last(s, pt - 1);
        assert(s.take(pt).drop_last() =~= s.take(pt - 1));
        assert(s.take(pt).last() == s[pt - 1]);
    } else {
        assert(s.take(0) =~= Seq::<u8>::empty());
    }
}

// ---- the tokenizer, one token per scan ----

/// The scanning state: position, line and column.
pub struct LexSt {
    pub pt: int,
    pub line: int,
    pub col: int,
}

/// What one scan produces: the state after it, and a token, nothing (a
/// comment), or a lexical error.
pub struct ScanR {
    pub st: LexSt,
    pub res: Result<Option<TokenV>, ErrV>,
}

pub open spec fn weird_symbol_msg(c: u8) -> Seq<u8> {
    ("WEIRD SYMBOL: ").spec_bytes() + (if c < 128 {
        seq![c]
    } else {
        seq![(0xC0 + c / 64) as u8, (0x80 + c % 64) as u8]
    })
}

/// Scanning a string literal: everything up to the closing quote on the
/// same line; a line end first is an unterminated string.
pub open spec fn spec_scan_string(s: Seq<u8>, p: int, line: int, col: int) -> ScanR {
    let j = str_end(s, p + 1);
    if byte_at(s, j) == 34 {
        ScanR {
            st: LexSt { pt: j + 1, line, col: col + (j + 1 - p) },
            res: Ok(
                Some(TokenV { t: TokV::Str(s.subrange(p + 1, j)), line, col }),
            ),
        }
    } else {
        ScanR {
            st: LexSt { pt: j, line, col: col + (j - p) },
            res: Err(
                ErrV::Syntax {
                    msg: ("MISSING QUOTE").spec_bytes(),
                    line,
                    col: col + (j - p),
                    text: this_line_text(s, j),
                },
            ),
        }
    }
}

/// Scanning a newline: a bare line feed, or a carriage return that must be
/// followed by one.
pub open spec fn spec_scan_newline(s: Seq<u8>, p: int, line: int, col: int) -> ScanR {
    if byte_at(s, p) == 13 {
        if byte_at(s, p + 1) == 10 {
            ScanR {
                st: LexSt { pt: p + 2, line: line + 1, col: 1 },
                res: Ok(Some(TokenV { t: TokV::K(TokenType::Lf), line, col })),
            }
        } else {
            ScanR {
                st: LexSt { pt: p + 1, line, col: col + 1 },
                res: Err(
                    ErrV::Syntax {
                        msg: ("Carriage without return? Goofy").spec_bytes(),
                        line,
                        col,
                        text: this_line_text(s, p + 1),
                    },
                ),
            }
        }
    } else {
        ScanR {
            st: LexSt { pt: p + 1, line: line + 1, col: 1 },
            res: Ok(Some(TokenV { t: TokV::K(TokenType::Lf), line, col })),
        }
    }
}

/// Scanning an integer literal: a digit run, rejected when its value does
/// not fit the runtime's integers.
pub open spec fn spec_scan_number(s: Seq<u8>, p: int, line: int, col: int) -> ScanR {
    let j = digits_end(s, p);
    let st = LexSt { pt: j, line, col: col + (j - p) };
    if digits_val(s.subrange(p, j)) < crate::text::INT_LIT_BOUND {
        ScanR {
            st,
            res: Ok(
                Some(
                    TokenV {
                        t: TokV::Num(digits_val(s.subrange(p, j)) as u128),
                        line,
                        col,
                    },
                ),
            ),
        }
    } else {
        ScanR {
            st,
            res: Err(
                ErrV::Syntax {
                    msg: ("NUMBER TOO LARGE").spec_bytes(),
                    line,
                    col,
                    text: this_line_text(s, j),
                },
            ),
        }
    }
}

/// Scanning a word: a keyword from the fixed table, an identifier, or a
/// comment keyword that swallows the rest of its line and yields nothing.
pub open spec fn spec_scan_word(s: Seq<u8>, p: int, line: int, col: int) -> ScanR {
    let j = alpha_end(s, p);
    let w = s.subrange(p, j);
    match keyword_of(w) {
        Some(k) => if k is Note {
            let q = eol_from(s, j);
            ScanR { st: LexSt { pt: q, line, col: col + (q - p) }, res: Ok(None) }
        } else {
            ScanR {
                st: LexSt { pt: j, line, col: col + (j - p) },
                res: Ok(Some(TokenV { t: TokV::K(k), line, col })),
            }
        },
        None => ScanR {
            st: LexSt { pt: j, line, col: col + (j - p) },
            res: Ok(Some(TokenV { t: TokV::Id(w), line, col })),
        },
    }
}

/// One scan: skip spaces and tabs, then dispatch on the leading byte.
pub open spec fn spec_scan_token(s: Seq<u8>, st0: LexSt) -> ScanR {
    let p = space_end(s, st0.pt);
    let line = st0.line;
    let col = st0.col + (p - st0.pt);
    let c = byte_at(s, p);
    if c == 34 {
        spec_scan_string(s, p, line, col)
    } else if c == 10 || c == 13 {
        spec_scan_newline(s, p, line, col)
    } else if c == EOI {
        let q = if p + 1 <= s.len() {
            p + 1
        } else {
            s.len() as int
        };
        ScanR {
            st: LexSt { pt: q, line, col: col + (q - p) },
            res: Ok(Some(TokenV { t: TokV::K(TokenType::Eof), line, col })),
        }
    } else if is_digit(c) {
        spec_scan_number(s, p, line, col)
    } else if is_alpha(c) {
        spec_scan_word(s, p, line, col)
    } else if c == 46 {
        ScanR {
            st: LexSt { pt: p + 1, line, col: col + 1 },
            res: Ok(Some(TokenV { t: TokV::K(TokenType::Dot), line, col })),
        }
    } else if c == 40 {
        ScanR {
            st: LexSt { pt: p + 1, line, col: col + 1 },
            res: Ok(Some(TokenV { t: TokV::K(TokenType::Open), line, col })),
        }
    } else if c == 41 {
        ScanR {
            st: LexSt { pt: p + 1, line, col: col + 1 },
            res: Ok(Some(TokenV { t: TokV::K(TokenType::Close), line, col })),
        }
    } else {
        ScanR {
            st: LexSt { pt: p, line, col },
            res: Err(
                ErrV::Syntax { msg: weird_symbol_msg(c), line, col, text: this_line_text(s, p) },
            ),
        }
    }
}

/// The whole token sequence from a scanning state on: tokens up to and
/// including the end-of-input marker, or the first lexical error.
pub open spec fn spec_lex_from(s: Seq<u8>, st: LexSt) -> Result<Seq<TokenV>, ErrV>
    decreases s.len() - st.pt,
{
    let r = spec_scan_token(s, st);
    match r.res {
        Err(e) => Err(e),
        Ok(None) => if st.pt < r.st.pt <= s.len() {
            spec_lex_from(s, r.st)
        } else {
            Ok(Seq::empty())
        },
        Ok(Some(t)) => if t.t == TokV::K(TokenType::Eof) {
            Ok(seq![t])
        } else if st.pt < r.st.pt <= s.len() {
            match spec_lex_from(s, r.st) {
                Ok(rest) => Ok(seq![t] + rest),
                Err(e) => Err(e),
            }
        } else {
            Ok(seq![t])
        },
    }
}

/// The token sequence of a whole source, or its first lexical error.
pub open spec fn spec_lex(s: Seq<u8>) -> Result<Seq<TokenV>, ErrV> {
    spec_lex_from(s, LexSt { pt: 0, line: 1, col: 1 })
}

/// The scanning state a successful scan of the whole source ends in.
pub open spec fn spec_lex_final(s: Seq<u8>, st: LexSt) -> LexSt
    decreases s.len() - st.pt,
{
    let r = spec_scan_token(s, st);
    match r.res {
        Err(e) => r.st,
        Ok(None) => if st.pt < r.st.pt <= s.len() {
            spec_lex_final(s, r.st)
        } else {
            r.st
        },
        Ok(Some(t)) => if t.t == TokV::K(TokenType::Eof) {
            r.st
        } else if st.pt < r.st.pt <= s.len() {
            spec_lex_final(s, r.st)
        } else {
            r.st
        },
    }
}

pub open spec fn tokens_view(ts: Seq<Token>) -> Seq<TokenV> {
    ts.map_values(|t: Token| t@)
}

proof fn lemma_nl_skip(s: Seq<u8>, a: int, b: int)
    requires
        0 <= a <= b <= s.len(),
        forall|j: int| a <= j < b ==> s[j] != 10,
    ensures
        nl_positions(s.take(b)) == nl_positions(s.take(a)),
    decreases b - a,
{
    if b > a {
        lemma_nl_skip(s, a, b - 1);
        assert(s.take(b).drop_last() =~= s.take(b - 1));
        assert(s.take(b).last() == s[b - 1]);
        assert(nl_positions(s.take(b)) =~= nl_positions(s.take(b - 1)));
    }
}

/// A name for what `String::from_utf8_lossy` returns on arbitrary bytes.
pub uninterp spec fn utf8_lossy(s: Seq<u8>) -> Seq<char>;

/// The tokenizer: owns the source view and produces the finite token
/// sequence.
pub struct Lexer {
    reader: Reader,
}

impl View for Lexer {
    type V = ReaderV;

    closed spec fn view(&self) -> ReaderV {
        self.reader@
    }
}

impl Lexer {
    pub fn new(reader: Reader) -> (r: Self)
        ensures
            r@ == reader@,
    {
        Self { reader }
    }

    /// Hands the source view back for the later stages to quote lines from.
    pub fn into_reader(self) -> (r: Reader)
        ensures
            r@ == self@,
    {
        self.reader
    }

    pub fn is_eol(c: u8) -> (r: bool)
        ensures
            r == is_eol_byte(c),
    {
        c == 10 || c == 13 || c == EOI
    }

    /// Relies on `String::from_utf8_lossy`: on valid UTF-8 it decodes the
    /// bytes exactly; on other bytes its result still depends on the bytes
    /// alone.
    #[verifier::external_body]
    pub fn to_string_lossy(s: &[u8]) -> (r: String)
        ensures
            r@ == utf8_lossy(s@),
            vstd::utf8::valid_utf8(s@) ==> r@ == vstd::utf8::decode_utf8(s@),
    {
        String::from_utf8_lossy(s).into_owned()
    }

    fn syntax_error(&mut self, msg: Vec<u8>, pos: Pos) -> (r: Errors)
        requires
            reader_wf(old(self)@),
        ensures
            reader_wf(final(self)@),
            final(self)@.input == old(self)@.input,
            r@ == (ErrV::Syntax {
                msg: msg@,
                line: pos.0 as int,
                col: pos.1 as int,
                text: this_line_text(old(self)@.input, old(self)@.pt),
            }),
    {
        let text = self.reader.get_this_line();
        Errors::SyntaxError(msg, pos, text)
    }

    fn skip_spaces(&mut self)
        requires
            reader_wf(old(self)@),
        ensures
            reader_wf(final(self)@),
            final(self)@ == (ReaderV {
                pt: space_end(old(self)@.input, old(self)@.pt),
                col: old(self)@.col + (final(self)@.pt - old(self)@.pt),
                ..old(self)@
            }),
    {
        while Self::is_space_byte(self.reader.peek())
            invariant
                reader_wf(self@),
                old(self)@.pt <= self@.pt,
                self@.input == old(self)@.input,
                self@.newlines == old(self)@.newlines,
                self@.line == old(self)@.line,
                self@.col == old(self)@.col + (self@.pt - old(self)@.pt),
                space_end(old(self)@.input, old(self)@.pt) == space_end(self@.input, self@.pt),
            decreases self@.input.len() - self@.pt,
        {
            self.reader.skip(1);
        }
    }

    fn is_space_byte(c: u8) -> (r: bool)
        ensures
            r == is_space(c),
    {
        c == 32 || c == 9
    }

    fn is_alpha_byte(c: u8) -> (r: bool)
        ensures
            r == is_alpha(c),
    {
        (65 <= c && c <= 90) || (97 <= c && c <= 122)
    }

    fn scan_number(&mut self) -> (r: Result<Token, Errors>)
        requires
            reader_wf(old(self)@),
            is_digit(byte_at(old(self)@.input, old(self)@.pt)),
        ensures
            reader_wf(final(self)@),
            final(self)@.input == old(self)@.input,
            ({
                let sr = spec_scan_number(
                    old(self)@.input,
                    old(self)@.pt,
                    old(self)@.line,
                    old(self)@.col,
                );
                match r {
                    Ok(tok) => sr.res == Ok::<Option<TokenV>, ErrV>(Some(tok@)) && final(self)@ == (ReaderV {
                        pt: sr.st.pt,
                        line: sr.st.line,
                        col: sr.st.col,
                        ..old(self)@
                    }) && sr.st.pt > old(self)@.pt,
                    Err(e) => sr.res == Err::<Option<TokenV>, ErrV>(e@),
                }
            }),
    {
        let pos = self.reader.pos();
        let start = self.reader.pt;
        while is_digit_byte(self.reader.peek())
            invariant
                reader_wf(self@),
                start == old(self)@.pt,
                old(self)@.pt <= self@.pt,
                self@.input == old(self)@.input,
                self@.newlines == old(self)@.newlines,
                self@.line == old(self)@.line,
                self@.col == old(self)@.col + (self@.pt - old(self)@.pt),
                digits_end(old(self)@.input, old(self)@.pt) == digits_end(self@.input, self@.pt),
                forall|k: int|
                    old(self)@.pt <= k < self@.pt ==> is_digit(#[trigger] old(self)@.input[k]),
            decreases self@.input.len() - self@.pt,
        {
            self.reader.readc();
        }
        let end = self.reader.pt;
        proof {
            assert(self@.pt == digits_end(old(self)@.input, old(self)@.pt));
            assert(forall|k: int|
                0 <= k < end - start ==> is_digit(
                    #[trigger] old(self)@.input.subrange(start as int, end as int)[k],
                ));
        }
        let digits = vstd::slice::slice_subrange(self.reader.input.as_slice(), start, end);
        match crate::text::parse_u127(digits) {
            Some(v) => Ok(Token::new(TokenType::Number(v), pos)),
            None => Err(
                self.syntax_error(
                    crate::lexer::to_vec_of(("NUMBER TOO LARGE").as_bytes()),
                    pos,
                ),
            ),
        }
    }

    fn scan_word(&mut self) -> (r: Option<Token>)
        requires
            reader_wf(old(self)@),
            is_alpha(byte_at(old(self)@.input, old(self)@.pt)),
        ensures
            reader_wf(final(self)@),
            final(self)@.input == old(self)@.input,
            ({
                let sr = spec_scan_word(
                    old(self)@.input,
                    old(self)@.pt,
                    old(self)@.line,
                    old(self)@.col,
                );
                sr.res == Ok::<Option<TokenV>, ErrV>(
                    match r {
                        Some(tok) => Some(tok@),
                        None => None,
                    },
                ) && final(self)@ == (ReaderV {
                    pt: sr.st.pt,
                    line: sr.st.line,
                    col: sr.st.col,
                    ..old(self)@
                }) && sr.st.pt > old(self)@.pt
            }),
    {
        let pos = self.reader.pos();
        let start = self.reader.pt;
        while Self::is_alpha_byte(self.reader.peek())
            invariant
                reader_wf(self@),
                start == old(self)@.pt,
                old(self)@.pt <= self@.pt,
                self@.input == old(self)@.input,
                self@.newlines == old(self)@.newlines,
                self@.line == old(self)@.line,
                self@.col == old(self)@.col + (self@.pt - old(self)@.pt),
                alpha_end(old(self)@.input, old(self)@.pt) == alpha_end(self@.input, self@.pt),
            decreases self@.input.len() - self@.pt,
        {
            self.reader.readc();
        }
        let end = self.reader.pt;
        proof {
            assert(self@.pt == alpha_end(old(self)@.input, old(self)@.pt));
        }
        let word = vstd::slice::slice_to_vec(
            vstd::slice::slice_subrange(self.reader.input.as_slice(), start, end),
        );
        proof {
            assert(word@ =~= old(self)@.input.subrange(start as int, end as int));
        }
        match keyword_lookup(word.as_slice()) {
            Some(k) => {
                if matches!(k, TokenType::Note) {
                    while !Self::is_eol(self.reader.peek())
                        invariant
                            reader_wf(self@),
                            old(self)@.pt <= self@.pt,
                            self@.input == old(self)@.input,
                            self@.newlines == old(self)@.newlines,
                            self@.line == old(self)@.line,
                            self@.col == old(self)@.col + (self@.pt - old(self)@.pt),
                            eol_from(old(self)@.input, end as int) == eol_from(
                                self@.input,
                                self@.pt,
                            ),
                            end as int <= self@.pt,
                        decreases self@.input.len() - self@.pt,
                    {
                        self.reader.readc();
                    }
                    proof {
                        assert(self@.pt == eol_from(old(self)@.input, end as int));
                    }
                    None
                } else {
                    Some(Token::new(k, pos))
                }
            },
            None => Some(Token::new(TokenType::Id(word), pos)),
        }
    }

    fn scan_string(&mut self) -> (r: Result<Token, Errors>)
        requires
            reader_wf(old(self)@),
            byte_at(old(self)@.input, old(self)@.pt) == 34,
        ensures
            reader_wf(final(self)@),
            final(self)@.input == old(self)@.input,
            ({
                let sr = spec_scan_string(
                    old(self)@.input,
                    old(self)@.pt,
                    old(self)@.line,
                    old(self)@.col,
                );
                match r {
                    Ok(tok) => sr.res == Ok::<Option<TokenV>, ErrV>(Some(tok@)) && final(self)@ == (ReaderV {
                        pt: sr.st.pt,
                        line: sr.st.line,
                        col: sr.st.col,
                        ..old(self)@
                    }) && sr.st.pt > old(self)@.pt,
                    Err(e) => sr.res == Err::<Option<TokenV>, ErrV>(e@),
                }
            }),
    {
        let pos = self.reader.pos();
        self.reader.skip(1);
        let start = self.reader.pt;
        while self.reader.peek() != 34 && !Self::is_eol(self.reader.peek())
            invariant
                reader_wf(self@),
                start == old(self)@.pt + 1,
                start as int <= self@.pt,
                self@.input == old(self)@.input,
                self@.newlines == old(self)@.newlines,
                self@.line == old(self)@.line,
                self@.col == old(self)@.col + (self@.pt - old(self)@.pt),
                str_end(old(self)@.input, start as int) == str_end(self@.input, self@.pt),
            decreases self@.input.len() - self@.pt,
        {
            self.reader.readc();
        }
        proof {
            assert(self@.pt == str_end(old(self)@.input, start as int));
        }
        if self.reader.peek() == 34 {
            let end = self.reader.pt;
            let word = vstd::slice::slice_to_vec(
                vstd::slice::slice_subrange(self.reader.input.as_slice(), start, end),
            );
            proof {
                assert(word@ =~= old(self)@.input.subrange(start as int, end as int));
            }
            self.reader.skip(1);
            Ok(Token::new(TokenType::Str(word), pos))
        } else {
            let err_pos = self.reader.pos();
            Err(self.syntax_error(crate::lexer::to_vec_of(("MISSING QUOTE").as_bytes()), err_pos))
        }
    }

    fn scan_newline(&mut self) -> (r: Result<Token, Errors>)
        requires
            reader_wf(old(self)@),
            byte_at(old(self)@.input, old(self)@.pt) == 10 || byte_at(
                old(self)@.input,
                old(self)@.pt,
            ) == 13,
        ensures
            reader_wf(final(self)@),
            final(self)@.input == old(self)@.input,
            ({
                let sr = spec_scan_newline(
                    old(self)@.input,
                    old(self)@.pt,
                    old(self)@.line,
                    old(self)@.col,
                );
                match r {
                    Ok(tok) => sr.res == Ok::<Option<TokenV>, ErrV>(Some(tok@)) && final(self)@ == (ReaderV {
                        pt: sr.st.pt,
                        line: sr.st.line,
                        col: sr.st.col,
                        newlines: final(self)@.newlines,
                        ..old(self)@
                    }) && sr.st.pt > old(self)@.pt,
                    Err(e) => sr.res == Err::<Option<TokenV>, ErrV>(e@),
                }
            }),
    {
        let pos = self.reader.pos();
        if self.reader.peek() == 13 {
            self.reader.readc();
        }
        if self.reader.peek() != 10 {
            Err(
                self.syntax_error(
                    crate::lexer::to_vec_of(("Carriage without return? Goofy").as_bytes()),
                    pos,
                ),
            )
        } else {
            self.reader.newline();
            Ok(Token::new(TokenType::Lf, pos))
        }
    }

    #[verifier::rlimit(100)]
    #[verifier::spinoff_prover]
    fn scan_token(&mut self) -> (r: Result<Option<Token>, Errors>)
        requires
            reader_wf(old(self)@),
        ensures
            reader_wf(final(self)@),
            final(self)@.input == old(self)@.input,
            ({
                let sr = spec_scan_token(
                    old(self)@.input,
                    LexSt { pt: old(self)@.pt, line: old(self)@.line, col: old(self)@.col },
                );
                match r {
                    Ok(Some(tok)) => sr.res == Ok::<Option<TokenV>, ErrV>(Some(tok@)) && final(self)@.pt == sr.st.pt && final(self)@.line == sr.st.line && final(self)@.col
                        == sr.st.col && (tok.token_type is Eof || final(self)@.pt > old(self)@.pt),
                    Ok(None) => sr.res == Ok::<Option<TokenV>, ErrV>(None) && final(self)@.pt
                        == sr.st.pt && final(self)@.line == sr.st.line && final(self)@.col
                        == sr.st.col && final(self)@.pt > old(self)@.pt,
                    Err(e) => sr.res == Err::<Option<TokenV>, ErrV>(e@),
                }
            }),
    {
        proof {
            lemma_scan_bounds(old(self)@.input, old(self)@.pt);
        }
        self.skip_spaces();
        let c = self.reader.peek();
        if c == 34 {
            match self.scan_string() {
                Ok(t) => Ok(Some(t)),
                Err(e) => Err(e),
            }
        } else if c == 10 || c == 13 {
            match self.scan_newline() {
                Ok(t) => Ok(Some(t)),
                Err(e) => Err(e),
            }
        } else if c == EOI {
            let pos = self.reader.pos();
            let token = Token::new(TokenType::Eof, pos);
            self.reader.skip(1);
            Ok(Some(token))
        } else if is_digit_byte(c) {
            match self.scan_number() {
                Ok(t) => Ok(Some(t)),
                Err(e) => Err(e),
            }
        } else if Self::is_alpha_byte(c) {
            Ok(self.scan_word())
        } else if c == 46 {
            let pos = self.reader.pos();
            self.reader.readc();
            Ok(Some(Token::new(TokenType::Dot, pos)))
        } else if c == 40 {
            let pos = self.reader.pos();
            self.reader.readc();
            Ok(Some(Token::new(TokenType::Open, pos)))
        } else if c == 41 {
            let pos = self.reader.pos();
            self.reader.readc();
            Ok(Some(Token::new(TokenType::Close, pos)))
        } else {
            let pos = self.reader.pos();
            let mut msg = crate::lexer::to_vec_of(("WEIRD SYMBOL: ").as_bytes());
            if c < 128 {
                msg.push(c);
            } else {
                msg.push(0xC0 + c / 64);
                msg.push(0x80 + c % 64);
            }
            proof {
                assert(msg@ =~= weird_symbol_msg(c));
            }
            Err(self.syntax_error(msg, pos))
        }
    }

    /// Scans the whole source into its token sequence, ending with the
    /// end-of-input marker, or stops at the first lexical error.
    #[verifier::rlimit(100)]
    #[verifier::spinoff_prover]
    #[verifier::loop_isolation(false)]
    pub fn lex(&mut self) -> (r: Result<Vec<Token>, Errors>)
        requires
            reader_wf(old(self)@),
        ensures
            reader_wf(final(self)@),
            final(self)@.input == old(self)@.input,
            ({
                let lexed = spec_lex_from(
                    old(self)@.input,
                    LexSt { pt: old(self)@.pt, line: old(self)@.line, col: old(self)@.col },
                );
                match r {
                    Ok(ts) => lexed == Ok::<Seq<TokenV>, ErrV>(tokens_view(ts@)),
                    Err(e) => lexed == Err::<Seq<TokenV>, ErrV>(e@),
                }
            }),
            ({
                let fin = spec_lex_final(
                    old(self)@.input,
                    LexSt { pt: old(self)@.pt, line: old(self)@.line, col: old(self)@.col },
                );
                r is Ok ==> final(self)@.pt == fin.pt && final(self)@.line == fin.line && final(self)@.col == fin.col
            }),
            r is Ok ==> crate::parser::tokens_wf(tokens_view(r->Ok_0@)),
    {
        let ghost input = old(self)@.input;
        let ghost st0 = LexSt { pt: old(self)@.pt, line: old(self)@.line, col: old(self)@.col };
        let mut tokens: Vec<Token> = Vec::new();
        proof {
            match spec_lex_from(input, st0) {
                Ok(rest) => {
                    assert(tokens_view(tokens@) + rest =~= rest);
                },
                Err(e) => {},
            }
        }
        loop
            invariant
                reader_wf(self@),
                self@.input == input,
                ({
                    let cur = LexSt { pt: self@.pt, line: self@.line, col: self@.col };
                    match spec_lex_from(input, cur) {
                        Ok(rest) => spec_lex_from(input, st0) == Ok::<Seq<TokenV>, ErrV>(
                            tokens_view(tokens@) + rest,
                        ) && spec_lex_final(input, st0) == spec_lex_final(input, cur),
                        Err(e) => spec_lex_from(input, st0) == Err::<Seq<TokenV>, ErrV>(e),
                    }
                }),
                forall|k: int|
                    0 <= k < tokens@.len() ==> !((#[trigger] tokens_view(tokens@)[k]).t == TokV::K(
                        TokenType::Eof,
                    )),
            decreases input.len() - self@.pt,
        {
            let ghost cur = LexSt { pt: self@.pt, line: self@.line, col: self@.col };
            match self.scan_token() {
                Err(e) => {
                    proof {
                        assert(spec_lex_from(input, cur) == Err::<Seq<TokenV>, ErrV>(e@));
                    }
                    return Err(e);
                },
                Ok(None) => {
                    proof {
                        assert(spec_lex_from(input, cur) == spec_lex_from(
                            input,
                            spec_scan_token(input, cur).st,
                        ));
                    }
                },
                Ok(Some(tok)) => {
                    if matches!(tok.token_type, TokenType::Eof) {
                        proof {
                            assert(tok@.t == TokV::K(TokenType::Eof));
                            assert(spec_lex_from(input, cur) == Ok::<Seq<TokenV>, ErrV>(
                                seq![tok@],
                            ));
                            assert(tokens_view(tokens@.push(tok)) =~= tokens_view(tokens@)
                                + seq![tok@]);
                        }
                        tokens.push(tok);
                        proof {
                            assert(tokens_view(tokens@).last().t == TokV::K(TokenType::Eof));
                            assert(forall|k: int|
                                0 <= k < tokens@.len() - 1 ==> !((#[trigger] tokens_view(
                                    tokens@,
                                )[k]).t == TokV::K(TokenType::Eof)));
                        }
                        return Ok(tokens);
                    }
                    proof {
                        let sr = spec_scan_token(input, cur);
                        assert(!(tok@.t == TokV::K(TokenType::Eof)));
                        assert(cur.pt < sr.st.pt <= input.len());
                        assert(tokens_view(tokens@.push(tok)) =~= tokens_view(tokens@)
                            + seq![tok@]);
                        match spec_lex_from(input, sr.st) {
                            Ok(rest) => {
                                assert(spec_lex_from(input, cur) == Ok::<Seq<TokenV>, ErrV>(
                                    seq![tok@] + rest,
                                ));
                                assert(tokens_view(tokens@.push(tok)) + rest =~= tokens_view(
                                    tokens@,
                                ) + (seq![tok@] + rest));
                            },
                            Err(e2) => {
                                assert(spec_lex_from(input, cur) == Err::<Seq<TokenV>, ErrV>(
                                    e2,
                                ));
                            },
                        }
                    }
                    tokens.push(tok);
                },
            }
        }
    }
}

/// Copies a byte slice into a vector.
pub fn to_vec_of(s: &[u8]) -> (r: Vec<u8>)
    ensures
        r@ == s@,
{
    vstd::slice::slice_to_vec(s)
}

} // verus!
