//! Verified text helpers: decimal rendering of integers, indentation
//! runs, and equality of string slices.

use vstd::prelude::*;

verus! {

/// Relies on `str`'s `PartialEq`: two string slices compare equal
/// exactly when they hold the same characters.
#[verifier::external_body]
pub fn str_eq(a: &str, b: &str) -> (r: bool)
    ensures
        r == (a@ == b@),
{
    a == b
}

/// The decimal digit character for `d` (meaningful for `d < 10`).
pub open spec fn digit_char(d: nat) -> char {
    if d == 0 {
        '0'
    } else if d == 1 {
        '1'
    } else if d == 2 {
        '2'
    } else if d == 3 {
        '3'
    } else if d == 4 {
        '4'
    } else if d == 5 {
        '5'
    } else if d == 6 {
        '6'
    } else if d == 7 {
        '7'
    } else if d == 8 {
        '8'
    } else {
        '9'
    }
}

/// The decimal digit string of `n`, most significant digit first, with
/// no leading zeroes (a single `'0'` for zero).
pub open spec fn dec_digits(n: nat) -> Seq<char>
    decreases n,
{
    if n < 10 {
        seq![digit_char(n)]
    } else {
        dec_digits(n / 10).push(digit_char(n % 10))
    }
}

/// The decimal text of a (possibly negative) integer.
pub open spec fn int_literal(i: int) -> Seq<char> {
    if i >= 0 {
        dec_digits(i as nat)
    } else {
        seq!['-'] + dec_digits((-i) as nat)
    }
}

/// `n` space characters.
pub open spec fn spaces(n: nat) -> Seq<char>
    decreases n,
{
    if n == 0 {
        Seq::empty()
    } else {
        spaces((n - 1) as nat).push(' ')
    }
}

/// A decimal string has at least one digit, and two or more exactly
/// for numbers of ten and above.
pub proof fn lemma_dec_digits_len(n: nat)
    ensures
        dec_digits(n).len() >= 1,
        n >= 10 <==> dec_digits(n).len() >= 2,
    decreases n,
{
    if n >= 10 {
        assert(n / 10 < n) by (nonlinear_arith)
            requires
                n >= 10,
        ;
        lemma_dec_digits_len(n / 10);
    }
}

/// Distinct digits have distinct digit characters.
pub proof fn lemma_digit_char_injective(d1: nat, d2: nat)
    requires
        d1 < 10,
        d2 < 10,
        digit_char(d1) == digit_char(d2),
    ensures
        d1 == d2,
{
}

/// Distinct numbers have distinct decimal strings.
pub proof fn lemma_dec_digits_injective(a: nat, b: nat)
    requires
        dec_digits(a) == dec_digits(b),
    ensures
        a == b,
    decreases a,
{
    lemma_dec_digits_len(a);
    lemma_dec_digits_len(b);
    if a < 10 && b < 10 {
        assert(dec_digits(a)[0] == digit_char(a));
        assert(dec_digits(b)[0] == digit_char(b));
        lemma_digit_char_injective(a, b);
    } else if a >= 10 && b >= 10 {
        let da = dec_digits(a / 10);
        let db = dec_digits(b / 10);
        assert(dec_digits(a) == da.push(digit_char(a % 10)));
        assert(dec_digits(b) == db.push(digit_char(b % 10)));
        assert(da.push(digit_char(a % 10)).last() == digit_char(a % 10));
        assert(db.push(digit_char(b % 10)).last() == digit_char(b % 10));
        lemma_digit_char_injective(a % 10, b % 10);
        assert(da =~= da.push(digit_char(a % 10)).drop_last());
        assert(db =~= db.push(digit_char(b % 10)).drop_last());
        assert(da == db);
        assert(a / 10 < a) by (nonlinear_arith)
            requires
                a >= 10,
        ;
        lemma_dec_digits_injective(a / 10, b / 10);
        assert(a == 10 * (a / 10) + a % 10) by (nonlinear_arith);
        assert(b == 10 * (b / 10) + b % 10) by (nonlinear_arith);
    } else {
        // one string has a single digit and the other at least two
        assert(dec_digits(a).len() == dec_digits(b).len());
        assert(false);
    }
}

/// The digit string for a single digit.
fn digit_str(d: u128) -> (r: &'static str)
    requires
        d < 10,
    ensures
        r@ == seq![digit_char(d as nat)],
{
    proof {
        reveal_strlit("0");
        reveal_strlit("1");
        reveal_strlit("2");
        reveal_strlit("3");
        reveal_strlit("4");
        reveal_strlit("5");
        reveal_strlit("6");
        reveal_strlit("7");
        reveal_strlit("8");
        reveal_strlit("9");
    }
    let r = if d == 0 {
        "0"
    } else if d == 1 {
        "1"
    } else if d == 2 {
        "2"
    } else if d == 3 {
        "3"
    } else if d == 4 {
        "4"
    } else if d == 5 {
        "5"
    } else if d == 6 {
        "6"
    } else if d == 7 {
        "7"
    } else if d == 8 {
        "8"
    } else {
        "9"
    };
    proof {
        assert(r@ =~= seq![digit_char(d as nat)]);
    }
    r
}

/// Appends the decimal digits of `n` to `out`.
pub fn push_decimal(out: &mut String, n: u128)
    ensures
        final(out)@ == old(out)@ + dec_digits(n as nat),
    decreases n,
{
    if n >= 10 {
        proof {
            assert(n / 10 < n) by (nonlinear_arith)
                requires
                    n >= 10,
            ;
        }
        push_decimal(out, n / 10);
    }
    out.append(digit_str(n % 10));
    proof {
        assert(out@ =~= old(out)@ + dec_digits(n as nat));
    }
}

/// Appends the decimal text of a signed number to `out`.
pub fn push_int(out: &mut String, i: i128)
    ensures
        final(out)@ == old(out)@ + int_literal(i as int),
{
    if i < 0 {
        out.append("-");
        // the magnitude of i128::MIN does not fit in i128, so step
        // through the already-negatable i + 1
        let mag: u128 = ((-(i + 1)) as u128) + 1;
        push_decimal(out, mag);
        proof {
            reveal_strlit("-");
            assert("-"@ =~= seq!['-']);
            assert(out@ =~= old(out)@ + int_literal(i as int));
        }
    } else {
        push_decimal(out, i as u128);
    }
}

/// Splitting a run of spaces splits its text.
pub proof fn lemma_spaces_add(m: nat, k: nat)
    ensures
        spaces(m + k) =~= spaces(m) + spaces(k),
    decreases k,
{
    if k == 0 {
        assert(spaces(m + 0) =~= spaces(m) + spaces(0));
    } else {
        lemma_spaces_add(m, (k - 1) as nat);
        assert(spaces(m + k) =~= spaces(m) + spaces(k));
    }
}

/// Appends `level` runs of four spaces to `out`.
pub fn push_indent(out: &mut String, level: usize)
    ensures
        final(out)@ == old(out)@ + spaces(4 * level as nat),
{
    let mut i: usize = 0;
    while i < level
        invariant
            i <= level,
            out@ == old(out)@ + spaces(4 * i as nat),
        decreases level - i,
    {
        out.append("    ");
        i = i + 1;
        proof {
            reveal_strlit("    ");
            reveal_with_fuel(spaces, 5);
            assert("    "@ =~= spaces(4));
            lemma_spaces_add((4 * i - 4) as nat, 4);
            assert(spaces(4 * i as nat) =~= spaces((4 * i - 4) as nat) + "    "@);
            assert(out@ =~= old(out)@ + spaces(4 * i as nat));
        }
    }
}

/// Joins three string slices into one string.
pub fn join3(prefix: &str, middle: &str, suffix: &str) -> (r: String)
    ensures
        r@ == prefix@ + middle@ + suffix@,
{
    let mut m = prefix.to_owned();
    m.append(middle);
    m.append(suffix);
    m
}

} // verus!
