//! Decimal rendering and parsing of unsigned numbers, the base layer of the
//! manifest text format, with the round-trip proof connecting the two.

use vstd::prelude::*;
use vstd::string::StrSliceExecFns;
use vstd::string::StringExecFns;

verus! {

/// Whether a character is a decimal digit.
pub open spec fn is_digit(c: char) -> bool {
    48 <= c as u32 <= 57
}

/// The numeric value of a digit character.
pub open spec fn digit_val(c: char) -> nat {
    (c as u32 - 48) as nat
}

/// The digit character for a value below ten.
pub open spec fn digit_char(d: nat) -> char {
    if d == 0 {
        '0'
    } else if d == 1 {
        '1'
    } else if d == 2 {
        '2'
    } else if d == 3 {
        '3'
    } else if d == 4 {
        '4'
    } else if d == 5 {
        '5'
    } else if d == 6 {
        '6'
    } else if d == 7 {
        '7'
    } else if d == 8 {
        '8'
    } else {
        '9'
    }
}

/// The decimal digits of `n`, most significant first, without leading
/// zeroes (a single `'0'` for zero).
pub open spec fn dec_digits(n: nat) -> Seq<char>
    decreases n,
{
    if n < 10 {
        seq![digit_char(n)]
    } else {
        dec_digits(n / 10) + seq![digit_char(n % 10)]
    }
}

/// Every character of `dec_digits(n)` is a digit, and there is at least one.
pub proof fn lemma_dec_digits_shape(n: nat)
    ensures
        dec_digits(n).len() >= 1,
        forall|j: int| 0 <= j < dec_digits(n).len() ==> is_digit(#[trigger] dec_digits(n)[j]),
    decreases n,
{
    if n < 10 {
        assert(is_digit(digit_char(n)));
    } else {
        lemma_dec_digits_shape(n / 10);
        assert(is_digit(digit_char(n % 10)));
        assert(forall|j: int|
            0 <= j < dec_digits(n / 10).len() ==> is_digit(#[trigger] dec_digits(n)[j]));
    }
}

/// Greedy digit scan from position `i`, accumulating onto `acc`: the value
/// and the position of the first non-digit. Fails if the value would exceed
/// `usize::MAX`.
pub open spec fn parse_nat_rec(s: Seq<char>, i: int, acc: nat) -> Option<(nat, int)>
    decreases s.len() - i,
{
    if i < 0 || i >= s.len() || !is_digit(s[i]) {
        Some((acc, i))
    } else {
        let acc2 = acc * 10 + digit_val(s[i]);
        if acc2 > usize::MAX as nat {
            None
        } else {
            parse_nat_rec(s, i + 1, acc2)
        }
    }
}

/// Parse a decimal number at position `i`: at least one digit, greedy, and
/// a value no greater than `usize::MAX`.
pub open spec fn parse_nat(s: Seq<char>, i: int) -> Option<(nat, int)> {
    if 0 <= i < s.len() && is_digit(s[i]) {
        parse_nat_rec(s, i, 0)
    } else {
        None
    }
}

/// Fold a digit sequence onto an accumulator, most significant first.
pub open spec fn fold_digits(ds: Seq<char>, acc: nat) -> nat
    decreases ds.len(),
{
    if ds.len() == 0 {
        acc
    } else {
        fold_digits(ds.skip(1), acc * 10 + digit_val(ds[0]))
    }
}

proof fn lemma_fold_digits_mono(ds: Seq<char>, acc: nat)
    ensures
        fold_digits(ds, acc) >= acc,
    decreases ds.len(),
{
    if ds.len() > 0 {
        lemma_fold_digits_mono(ds.skip(1), acc * 10 + digit_val(ds[0]));
    }
}

proof fn lemma_fold_digits_concat(ds1: Seq<char>, ds2: Seq<char>, acc: nat)
    ensures
        fold_digits(ds1 + ds2, acc) == fold_digits(ds2, fold_digits(ds1, acc)),
    decreases ds1.len(),
{
    if ds1.len() == 0 {
        assert(ds1 + ds2 =~= ds2);
    } else {
        assert((ds1 + ds2).skip(1) =~= ds1.skip(1) + ds2);
        lemma_fold_digits_concat(ds1.skip(1), ds2, acc * 10 + digit_val((ds1 + ds2)[0]));
    }
}

proof fn lemma_fold_dec_digits(n: nat)
    ensures
        fold_digits(dec_digits(n), 0) == n,
{
    lemma_fold_dec_digits_acc(n, 0);
}

proof fn lemma_fold_dec_digits_acc(n: nat, acc: nat)
    ensures
        fold_digits(dec_digits(n), acc) == acc * vstd::arithmetic::power::pow(
            10,
            dec_digits(n).len(),
        ) + n,
    decreases n,
{
    if n < 10 {
        assert(dec_digits(n) == seq![digit_char(n)]);
        assert(fold_digits(dec_digits(n), acc) == fold_digits(
            dec_digits(n).skip(1),
            acc * 10 + digit_val(dec_digits(n)[0]),
        ));
        assert(dec_digits(n).skip(1) =~= Seq::<char>::empty());
        assert(digit_val(digit_char(n)) == n);
        vstd::arithmetic::power::lemma_pow1(10);
    } else {
        let hi = dec_digits(n / 10);
        let lo = seq![digit_char(n % 10)];
        lemma_fold_digits_concat(hi, lo, acc);
        lemma_fold_dec_digits_acc(n / 10, acc);
        let a = fold_digits(hi, acc);
        assert(fold_digits(lo, a) == fold_digits(lo.skip(1), a * 10 + digit_val(lo[0])));
        assert(lo.skip(1) =~= Seq::<char>::empty());
        assert(digit_val(digit_char((n % 10) as nat)) == n % 10);
        assert(fold_digits(lo, a) == a * 10 + n % 10);
        assert((acc * vstd::arithmetic::power::pow(10, hi.len()) + n / 10) * 10 == acc * (
        vstd::arithmetic::power::pow(10, hi.len()) * 10) + (n / 10) * 10) by (nonlinear_arith);
        assert(vstd::arithmetic::power::pow(10, hi.len() + 1) == vstd::arithmetic::power::pow(
            10,
            hi.len(),
        ) * 10) by {
            vstd::arithmetic::power::lemma_pow1(10);
            vstd::arithmetic::power::lemma_pow_adds(10, hi.len() as nat, 1);
        }
        assert(dec_digits(n).len() == hi.len() + 1);
        assert((n / 10) * 10 + n % 10 == n) by (nonlinear_arith);
    }
}

proof fn lemma_parse_over_digits(s: Seq<char>, i: int, ds: Seq<char>, acc: nat)
    requires
        0 <= i,
        i + ds.len() <= s.len(),
        forall|j: int| 0 <= j < ds.len() ==> is_digit(#[trigger] ds[j]),
        s.subrange(i, i + ds.len() as int) == ds,
        fold_digits(ds, acc) <= usize::MAX as nat,
    ensures
        parse_nat_rec(s, i, acc) == parse_nat_rec(s, i + ds.len() as int, fold_digits(ds, acc)),
    decreases ds.len(),
{
    if ds.len() > 0 {
        assert(s[i] == ds[0]);
        let acc2 = acc * 10 + digit_val(ds[0]);
        lemma_fold_digits_mono(ds.skip(1), acc2);
        assert(fold_digits(ds, acc) == fold_digits(ds.skip(1), acc2));
        assert(s.subrange(i + 1, i + 1 + ds.skip(1).len() as int) =~= ds.skip(1));
        lemma_parse_over_digits(s, i + 1, ds.skip(1), acc2);
    } else {
        assert(parse_nat_rec(s, i, acc) == parse_nat_rec(s, i + ds.len() as int, fold_digits(
            ds,
            acc,
        )));
    }
}

/// Round trip for numbers: where the rendered digits of `n` stand at
/// position `i` and are followed by the end of the text or a non-digit,
/// parsing at `i` yields exactly `n` and stops right after the digits.
pub proof fn lemma_parse_printed_nat(s: Seq<char>, i: int, n: nat)
    requires
        n <= usize::MAX as nat,
        0 <= i,
        i + dec_digits(n).len() <= s.len(),
        s.subrange(i, i + dec_digits(n).len() as int) == dec_digits(n),
        i + dec_digits(n).len() == s.len() || !is_digit(s[i + dec_digits(n).len()]),
    ensures
        parse_nat(s, i) == Some((n, i + dec_digits(n).len() as int)),
{
    let ds = dec_digits(n);
    lemma_dec_digits_shape(n);
    assert(s[i] == ds[0]);
    lemma_fold_dec_digits(n);
    lemma_parse_over_digits(s, i, ds, 0);
    assert(parse_nat_rec(s, i + ds.len() as int, n) == Some((n, i + ds.len() as int)));
}

/// A single-character string for each digit value.
fn digit_str(d: usize) -> (r: &'static str)
    requires
        d < 10,
    ensures
        r@ == seq![digit_char(d as nat)],
{
    if d == 0 {
        proof {
            reveal_strlit("0");
        }
        assert("0"@ =~= seq![digit_char(0)]);
        "0"
    } else if d == 1 {
        proof {
            reveal_strlit("1");
        }
        assert("1"@ =~= seq![digit_char(1)]);
        "1"
    } else if d == 2 {
        proof {
            reveal_strlit("2");
        }
        assert("2"@ =~= seq![digit_char(2)]);
        "2"
    } else if d == 3 {
        proof {
            reveal_strlit("3");
        }
        assert("3"@ =~= seq![digit_char(3)]);
        "3"
    } else if d == 4 {
        proof {
            reveal_strlit("4");
        }
        assert("4"@ =~= seq![digit_char(4)]);
        "4"
    } else if d == 5 {
        proof {
            reveal_strlit("5");
        }
        assert("5"@ =~= seq![digit_char(5)]);
        "5"
    } else if d == 6 {
        proof {
            reveal_strlit("6");
        }
        assert("6"@ =~= seq![digit_char(6)]);
        "6"
    } else if d == 7 {
        proof {
            reveal_strlit("7");
        }
        assert("7"@ =~= seq![digit_char(7)]);
        "7"
    } else if d == 8 {
        proof {
            reveal_strlit("8");
        }
        assert("8"@ =~= seq![digit_char(8)]);
        "8"
    } else {
        proof {
            reveal_strlit("9");
        }
        assert("9"@ =~= seq![digit_char(9)]);
        "9"
    }
}

/// Append the decimal rendering of `n`.
pub fn push_nat(out: &mut String, n: usize)
    ensures
        final(out)@ == old(out)@ + dec_digits(n as nat),
    decreases n,
{
    if n >= 10 {
        push_nat(out, n / 10);
        out.append(digit_str(n % 10));
        proof {
            assert(final(out)@ =~= old(out)@ + dec_digits(n as nat));
        }
    } else {
        out.append(digit_str(n));
    }
}

/// The digit value of a character, where it is one.
pub fn char_digit(c: char) -> (r: Option<usize>)
    ensures
        r is Some <==> is_digit(c),
        r matches Some(d) ==> d as nat == digit_val(c) && d < 10,
{
    let u = c as u32;
    if 48 <= u && u <= 57 {
        Some((u - 48) as usize)
    } else {
        None
    }
}

/// Parse a decimal number at position `pos`: at least one digit, greedy,
/// failing on a value that does not fit `usize`, exactly as
/// [`parse_nat`] says.
pub fn parse_nat_exec(s: &str, pos: usize) -> (r: Option<(usize, usize)>)
    ensures
        match parse_nat(s@, pos as int) {
            Some((v, j)) => r matches Some(p) && p.0 as nat == v && p.1 as int == j,
            None => r is None,
        },
{
    let len = s.unicode_len();
    if pos >= len {
        return None;
    }
    if char_digit(s.get_char(pos)).is_none() {
        return None;
    }
    let mut i: usize = pos;
    let mut acc: usize = 0;
    loop
        invariant
            pos <= i <= len,
            len == s@.len(),
            parse_nat_rec(s@, pos as int, 0) == parse_nat_rec(s@, i as int, acc as nat),
            0 <= pos < len,
            is_digit(s@[pos as int]),
        decreases len - i,
    {
        if i >= len {
            return Some((acc, i));
        }
        let c = s.get_char(i);
        match char_digit(c) {
            None => {
                return Some((acc, i));
            },
            Some(d) => {
                if acc > (usize::MAX - d) / 10 {
                    proof {
                        assert(acc * 10 + d > usize::MAX) by (nonlinear_arith)
                            requires
                                acc > (usize::MAX - d) / 10,
                                d < 10,
                        ;
                    }
                    return None;
                }
                proof {
                    assert(acc * 10 + d <= usize::MAX) by (nonlinear_arith)
                        requires
                            acc <= (usize::MAX - d) / 10,
                            d < 10,
                    ;
                }
                acc = acc * 10 + d;
                i = i + 1;
            },
        }
    }
}

} // verus!
