//! Byte-level text helpers: decimal rendering of integers, decimal parsing,
//! and comparisons. All text in the interpreter is carried as raw bytes.

use vstd::prelude::*;

verus! {

pub open spec fn is_digit(b: u8) -> bool {
    48 <= b <= 57
}

pub fn is_digit_byte(b: u8) -> (r: bool)
    ensures
        r == is_digit(b),
{
    48 <= b && b <= 57
}

/// The decimal digits of `n`, most significant first.
pub open spec fn dec_digits(n: nat) -> Seq<u8>
    decreases n,
{
    if n < 10 {
        seq![(48 + n) as u8]
    } else {
        dec_digits(n / 10) + seq![(48 + n % 10) as u8]
    }
}

/// The decimal rendering of a signed integer, `-` first when negative.
pub open spec fn int_text(i: int) -> Seq<u8> {
    if i < 0 {
        seq![45u8] + dec_digits((-i) as nat)
    } else {
        dec_digits(i as nat)
    }
}

fn push_dec(n: u128, out: &mut Vec<u8>)
    ensures
        final(out)@ == old(out)@ + dec_digits(n as nat),
    decreases n,
{
    if n < 10 {
        out.push(48 + n as u8);
    } else {
        push_dec(n / 10, out);
        out.push(48 + (n % 10) as u8);
        proof {
            assert(out@ =~= old(out)@ + dec_digits(n as nat));
        }
    }
}

/// Renders `i` in decimal.
pub fn render_i128(i: i128) -> (r: Vec<u8>)
    ensures
        r@ == int_text(i as int),
{
    let mut out: Vec<u8> = Vec::new();
    if i < 0 {
        out.push(45);
        let m: u128 = ((-(i + 1)) as u128) + 1;
        assert(m == -(i as int));
        push_dec(m, &mut out);
        proof {
            assert(out@ =~= int_text(i as int));
        }
    } else {
        push_dec(i as u128, &mut out);
    }
    out
}

/// Renders `n` in decimal.
pub fn render_usize(n: usize) -> (r: Vec<u8>)
    ensures
        r@ == dec_digits(n as nat),
{
    let mut out: Vec<u8> = Vec::new();
    push_dec(n as u128, &mut out);
    out
}

pub fn bytes_eq(a: &[u8], b: &[u8]) -> (r: bool)
    ensures
        r == (a@ == b@),
{
    if a.len() != b.len() {
        proof {
            assert(a@.len() != b@.len());
        }
        return false;
    }
    let mut i: usize = 0;
    while i < a.len()
        invariant
            i <= a.len(),
            a.len() == b.len(),
            forall|j: int| 0 <= j < i ==> a@[j] == b@[j],
        decreases a.len() - i,
    {
        if a[i] != b[i] {
            return false;
        }
        i += 1;
    }
    proof {
        assert(a@ =~= b@);
    }
    true
}

/// The mathematical value of a pure digit run.
pub open spec fn digits_val(s: Seq<u8>) -> nat
    decreases s.len(),
{
    if s.len() == 0 {
        0
    } else {
        digits_val(s.drop_last()) * 10 + (s.last() - 48) as nat
    }
}

pub open spec fn all_digits(s: Seq<u8>) -> bool {
    forall|i: int| 0 <= i < s.len() ==> is_digit(#[trigger] s[i])
}

pub proof fn lemma_digits_val_mono(s: Seq<u8>, i: int)
    requires
        all_digits(s),
        0 <= i <= s.len(),
    ensures
        digits_val(s.take(i)) <= digits_val(s),
    decreases s.len() - i,
{
    if i < s.len() {
        lemma_digits_val_mono(s, i + 1);
        assert(s.take(i + 1).drop_last() =~= s.take(i));
        assert(is_digit(s[i]));
        assert(digits_val(s.take(i + 1)) == digits_val(s.take(i)) * 10 + (s[i] - 48));
    } else {
        assert(s.take(i) =~= s);
    }
}

/// The numeric value of a digit run, when it stays under 2^127.
/// The bound on integer literals: they must stay below 2^127.
pub const INT_LIT_BOUND: u128 = 0x8000_0000_0000_0000_0000_0000_0000_0000;

const INT_LIT_SAFE: u128 = 0x1000_0000_0000_0000_0000_0000_0000_0000;

/// The numeric value of a digit run, when it stays under 2^127.
pub fn parse_u127(s: &[u8]) -> (r: Option<u128>)
    requires
        all_digits(s@),
    ensures
        match r {
            Some(v) => v == digits_val(s@) && digits_val(s@) < INT_LIT_BOUND,
            None => digits_val(s@) >= INT_LIT_BOUND,
        },
{
    let mut acc: u128 = 0;
    let mut i: usize = 0;
    while i < s.len()
        invariant
            i <= s@.len(),
            all_digits(s@),
            acc == digits_val(s@.take(i as int)),
            acc < INT_LIT_BOUND,
        decreases s@.len() - i,
    {
        proof {
            assert(s@.take(i + 1).drop_last() =~= s@.take(i as int));
            assert(is_digit(s@[i as int]));
        }
        let d = (s[i] - 48) as u128;
        if acc >= INT_LIT_SAFE {
            proof {
                assert(acc * 10 >= INT_LIT_BOUND) by (nonlinear_arith)
                    requires
                        acc >= INT_LIT_SAFE,
                ;
                assert(digits_val(s@.take(i + 1)) >= INT_LIT_BOUND);
                lemma_digits_val_mono(s@, i + 1);
            }
            return None;
        }
        proof {
            assert(acc * 10 + d < 0xB000_0000_0000_0000_0000_0000_0000_0000u128)
                by (nonlinear_arith)
                requires
                    acc < INT_LIT_SAFE,
                    d <= 9,
            ;
        }
        let acc2 = acc * 10 + d;
        if acc2 >= INT_LIT_BOUND {
            proof {
                lemma_digits_val_mono(s@, i + 1);
            }
            return None;
        }
        acc = acc2;
        i += 1;
    }
    proof {
        assert(s@.take(s@.len() as int) =~= s@);
    }
    Some(acc)
}

/// The magnitude of a digit run, when it stays at or under 2^127.
pub fn parse_digits_mag(s: &[u8]) -> (r: Option<u128>)
    requires
        all_digits(s@),
    ensures
        match r {
            Some(v) => v == digits_val(s@) && digits_val(s@) <= INT_LIT_BOUND,
            None => digits_val(s@) > INT_LIT_BOUND,
        },
{
    let mut acc: u128 = 0;
    let mut i: usize = 0;
    while i < s.len()
        invariant
            i <= s@.len(),
            all_digits(s@),
            acc == digits_val(s@.take(i as int)),
            acc <= INT_LIT_BOUND,
        decreases s@.len() - i,
    {
        proof {
            assert(s@.take(i + 1).drop_last() =~= s@.take(i as int));
            assert(is_digit(s@[i as int]));
        }
        let d = (s[i] - 48) as u128;
        if acc > INT_LIT_SAFE {
            proof {
                assert(acc * 10 > INT_LIT_BOUND) by (nonlinear_arith)
                    requires
                        acc > INT_LIT_SAFE,
                ;
                assert(digits_val(s@.take(i + 1)) > INT_LIT_BOUND);
                lemma_digits_val_mono(s@, i + 1);
            }
            return None;
        }
        proof {
            assert(acc * 10 + d < 0xB000_0000_0000_0000_0000_0000_0000_0000u128)
                by (nonlinear_arith)
                requires
                    acc <= INT_LIT_SAFE,
                    d <= 9,
            ;
        }
        let acc2 = acc * 10 + d;
        if acc2 > INT_LIT_BOUND {
            proof {
                lemma_digits_val_mono(s@, i + 1);
            }
            return None;
        }
        acc = acc2;
        i += 1;
    }
    proof {
        assert(s@.take(s@.len() as int) =~= s@);
    }
    Some(acc)
}

/// Strict lexicographic order on byte strings — the order text comparisons
/// use.
pub open spec fn bytes_lt(a: Seq<u8>, b: Seq<u8>) -> bool
    decreases a.len(),
{
    if b.len() == 0 {
        false
    } else if a.len() == 0 {
        true
    } else if a[0] < b[0] {
        true
    } else if a[0] > b[0] {
        false
    } else {
        bytes_lt(a.skip(1), b.skip(1))
    }
}

pub fn bytes_lt_exec(a: &[u8], b: &[u8]) -> (r: bool)
    ensures
        r == bytes_lt(a@, b@),
{
    let mut i: usize = 0;
    proof {
        assert(a@.skip(0) =~= a@);
        assert(b@.skip(0) =~= b@);
    }
    while i < a.len() && i < b.len()
        invariant
            i <= a@.len(),
            i <= b@.len(),
            bytes_lt(a@, b@) == bytes_lt(a@.skip(i as int), b@.skip(i as int)),
        decreases a@.len() - i,
    {
        proof {
            assert(a@.skip(i as int).skip(1) =~= a@.skip(i + 1));
            assert(b@.skip(i as int).skip(1) =~= b@.skip(i + 1));
            assert(a@.skip(i as int)[0] == a@[i as int]);
            assert(b@.skip(i as int)[0] == b@[i as int]);
        }
        if a[i] < b[i] {
            return true;
        }
        if a[i] > b[i] {
            return false;
        }
        i += 1;
    }
    proof {
        assert(a@.skip(i as int).len() == a@.len() - i);
        assert(b@.skip(i as int).len() == b@.len() - i);
    }
    i < b.len()
}

} // verus!
