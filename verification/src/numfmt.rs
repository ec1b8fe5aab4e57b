//! Decimal and hexadecimal rendering of fixed-point quantities.
//!
//! Lengths are held as signed integer counts of millionths of a mil
//! (thousandths of an inch).  Emission converts to millimetres by the
//! exact factor 254/10^4 applied to those units, rounds half away from
//! zero to six decimal places, and renders the result.

use vstd::prelude::*;

verus! {

pub open spec fn digit_char(d: int) -> char {
    if d == 0 {
        '0'
    } else if d == 1 {
        '1'
    } else if d == 2 {
        '2'
    } else if d == 3 {
        '3'
    } else if d == 4 {
        '4'
    } else if d == 5 {
        '5'
    } else if d == 6 {
        '6'
    } else if d == 7 {
        '7'
    } else if d == 8 {
        '8'
    } else {
        '9'
    }
}

/// Decimal digits of `n`, most significant first, no leading zeros
/// (a single `'0'` for zero).
pub open spec fn dec_digits(n: nat) -> Seq<char>
    decreases n,
{
    if n < 10 {
        seq![digit_char(n as int)]
    } else {
        dec_digits(n / 10).push(digit_char((n % 10) as int))
    }
}

/// The six digits after the decimal point of a fraction `f / 10^6`,
/// for `0 <= f < 10^6`.
pub open spec fn frac6(f: nat) -> Seq<char> {
    seq![
        digit_char((f / 100000 % 10) as int),
        digit_char((f / 10000 % 10) as int),
        digit_char((f / 1000 % 10) as int),
        digit_char((f / 100 % 10) as int),
        digit_char((f / 10 % 10) as int),
        digit_char((f % 10) as int),
    ]
}

/// Rendering of a non-negative count of millionths with exactly six
/// decimal places, as `{:.6}` renders a non-negative number.
pub open spec fn fixed6_nn(n: nat) -> Seq<char> {
    dec_digits(n / 1000000) + seq!['.'] + frac6(n % 1000000)
}

/// Rendering of a count of millionths with exactly six decimal places.
pub open spec fn fixed6(u: int) -> Seq<char> {
    if u < 0 {
        seq!['-'] + fixed6_nn((-u) as nat)
    } else {
        fixed6_nn(u as nat)
    }
}

/// `s` with its trailing `'0'` characters removed.
pub open spec fn strip_zeros(s: Seq<char>) -> Seq<char>
    decreases s.len(),
{
    if s.len() > 0 && s.last() == '0' {
        strip_zeros(s.drop_last())
    } else {
        s
    }
}

/// Shortest rendering of a non-negative count of millionths: no
/// decimal point for a whole number, otherwise the fraction with
/// trailing zeros dropped.
pub open spec fn trimmed_nn(n: nat) -> Seq<char> {
    if n % 1000000 == 0 {
        dec_digits(n / 1000000)
    } else {
        dec_digits(n / 1000000) + seq!['.'] + strip_zeros(frac6(n % 1000000))
    }
}

/// Shortest rendering of a count of millionths, as `{}` renders a
/// number that needs at most six decimal places.
pub open spec fn trimmed(u: int) -> Seq<char> {
    if u < 0 {
        seq!['-'] + trimmed_nn((-u) as nat)
    } else {
        trimmed_nn(u as nat)
    }
}

/// Division by 10^4 rounded half away from zero.
pub open spec fn round_half_10k(v: int) -> int {
    if v >= 0 {
        (v + 5000) / 10000
    } else {
        -((-v + 5000) / 10000)
    }
}

/// A length in millionths of a mil, emitted in millimetres: scaled by
/// the exact factor 254/10^4 and rendered with six decimal places.
pub open spec fn mm6_of_mil(x: int) -> Seq<char> {
    fixed6(round_half_10k(x * 254))
}

pub open spec fn hex_char(d: int) -> char {
    if d < 10 {
        digit_char(d)
    } else if d == 10 {
        'a'
    } else if d == 11 {
        'b'
    } else if d == 12 {
        'c'
    } else if d == 13 {
        'd'
    } else if d == 14 {
        'e'
    } else {
        'f'
    }
}

pub open spec fn p16(e: nat) -> nat
    decreases e,
{
    if e == 0 {
        1
    } else {
        16 * p16((e - 1) as nat)
    }
}

/// The sixteen lowercase hexadecimal digits of `n`, zero-padded, as
/// `{:016x}` renders it.
pub open spec fn hex16(n: nat) -> Seq<char> {
    Seq::new(16, |i: int| hex_char((n / p16((15 - i) as nat) % 16) as int))
}

proof fn lemma_p16_pos(e: nat)
    ensures
        p16(e) >= 1,
    decreases e,
{
    if e > 0 {
        lemma_p16_pos((e - 1) as nat);
    }
}

pub fn hex_digit_str(d: u64) -> (r: &'static str)
    requires
        d < 16,
    ensures
        r@ == seq![hex_char(d as int)],
{
    if d < 10 {
        digit_str(d)
    } else {
        proof {
            reveal_strlit("a");
            reveal_strlit("b");
            reveal_strlit("c");
            reveal_strlit("d");
            reveal_strlit("e");
            reveal_strlit("f");
        }
        let r = match d {
            10 => "a",
            11 => "b",
            12 => "c",
            13 => "d",
            14 => "e",
            _ => "f",
        };
        proof {
            assert(r@ =~= seq![hex_char(d as int)]);
        }
        r
    }
}

/// Appends the sixteen zero-padded lowercase hex digits of `n` to `s`.
pub fn push_hex16(s: &mut String, n: u64)
    ensures
        final(s)@ == old(s)@ + hex16(n as nat),
{
    let ghost pre = s@;
    let mut p: u64 = 1152921504606846976;
    proof {
        reveal_with_fuel(p16, 17);
        assert(p16(15) == 1152921504606846976);
    }
    let mut i: usize = 0;
    while i < 16
        invariant
            0 <= i <= 16,
            i < 16 ==> p == p16((15 - i) as nat),
            s@ == pre + hex16(n as nat).take(i as int),
        decreases 16 - i,
    {
        proof {
            lemma_p16_pos((15 - i) as nat);
        }
        s.append(hex_digit_str(n / p % 16));
        if i < 15 {
            proof {
                vstd::arithmetic::div_mod::lemma_div_multiples_vanish(
                    p16((15 - i - 1) as nat) as int,
                    16,
                );
            }
            p = p / 16;
        }
        i += 1;
        proof {
            assert(s@ =~= pre + hex16(n as nat).take(i as int));
        }
    }
    proof {
        assert(hex16(n as nat).take(16) =~= hex16(n as nat));
    }
}

/// String equality by view.
pub fn str_eq(a: &str, b: &str) -> (r: bool)
    ensures
        r == (a@ == b@),
{
    let x = a.to_owned();
    let y = b.to_owned();
    x == y
}

pub fn digit_str(d: u64) -> (r: &'static str)
    requires
        d < 10,
    ensures
        r@ == seq![digit_char(d as int)],
{
    proof {
        reveal_strlit("0");
        reveal_strlit("1");
        reveal_strlit("2");
        reveal_strlit("3");
        reveal_strlit("4");
        reveal_strlit("5");
        reveal_strlit("6");
        reveal_strlit("7");
        reveal_strlit("8");
        reveal_strlit("9");
    }
    let r = match d {
        0 => "0",
        1 => "1",
        2 => "2",
        3 => "3",
        4 => "4",
        5 => "5",
        6 => "6",
        7 => "7",
        8 => "8",
        _ => "9",
    };
    proof {
        assert(r@ =~= seq![digit_char(d as int)]);
    }
    r
}

/// Appends the decimal digits of `n` to `s`.
pub fn push_dec_u64(s: &mut String, n: u64)
    ensures
        final(s)@ == old(s)@ + dec_digits(n as nat),
    decreases n,
{
    let ghost pre = s@;
    if n >= 10 {
        push_dec_u64(s, n / 10);
    }
    s.append(digit_str(n % 10));
    proof {
        if n >= 10 {
            assert(s@ =~= pre + dec_digits(n as nat));
        } else {
            assert(s@ =~= pre + dec_digits(n as nat));
        }
    }
}

/// Appends exactly six fraction digits of `f / 10^6` to `s`.
pub fn push_frac6(s: &mut String, f: u64)
    requires
        f < 1000000,
    ensures
        final(s)@ == old(s)@ + frac6(f as nat),
{
    let ghost pre = s@;
    s.append(digit_str(f / 100000 % 10));
    s.append(digit_str(f / 10000 % 10));
    s.append(digit_str(f / 1000 % 10));
    s.append(digit_str(f / 100 % 10));
    s.append(digit_str(f / 10 % 10));
    s.append(digit_str(f % 10));
    proof {
        assert(s@ =~= pre + frac6(f as nat));
    }
}

/// Appends `n` millionths rendered with six decimal places to `s`.
pub fn push_fixed6_nn(s: &mut String, n: u64)
    ensures
        final(s)@ == old(s)@ + fixed6_nn(n as nat),
{
    let ghost pre = s@;
    push_dec_u64(s, n / 1000000);
    s.append(".");
    push_frac6(s, n % 1000000);
    proof {
        reveal_strlit(".");
        assert(s@ =~= pre + fixed6_nn(n as nat));
    }
}

/// Appends `u` millionths rendered with six decimal places to `s`.
pub fn push_fixed6(s: &mut String, u: i64)
    requires
        u > i64::MIN,
    ensures
        final(s)@ == old(s)@ + fixed6(u as int),
{
    let ghost pre = s@;
    if u < 0 {
        s.append("-");
        proof {
            reveal_strlit("-");
        }
        push_fixed6_nn(s, (-u) as u64);
        proof {
            assert(s@ =~= pre + fixed6(u as int));
        }
    } else {
        push_fixed6_nn(s, u as u64);
    }
}

proof fn lemma_strip_take(s: Seq<char>, k: int)
    requires
        0 <= k <= s.len(),
        forall|j: int| k <= j < s.len() ==> s[j] == '0',
        k > 0 ==> s[k - 1] != '0',
    ensures
        strip_zeros(s) == s.take(k),
    decreases s.len(),
{
    if k < s.len() {
        assert(s.last() == '0');
        assert(forall|j: int| k <= j < s.drop_last().len() ==> s.drop_last()[j] == '0');
        lemma_strip_take(s.drop_last(), k);
        assert(s.drop_last().take(k) =~= s.take(k));
    } else {
        assert(s.take(k) =~= s);
    }
}

/// Divisibility by `10 * p` makes the digit at weight `p` zero.
proof fn lemma_zero_digit(f: nat, p: nat)
    requires
        p > 0,
        f % (10 * p) == 0,
    ensures
        f / p % 10 == 0,
{
    let h = f / (10 * p);
    vstd::arithmetic::div_mod::lemma_fundamental_div_mod(f as int, (10 * p) as int);
    assert(f == (10 * p) * h);
    assert(f == p * (10 * h)) by (nonlinear_arith)
        requires f == (10 * p) * h;
    vstd::arithmetic::div_mod::lemma_div_multiples_vanish(10 * h as int, p as int);
    assert(f / p == 10 * h);
    vstd::arithmetic::div_mod::lemma_mod_multiples_basic(h as int, 10);
}

/// A factor of a divisor is itself a divisor.
proof fn lemma_mod_factor(f: nat, a: nat, b: nat)
    requires
        a > 0,
        b > 0,
        f % (a * b) == 0,
    ensures
        f % a == 0,
{
    assert(a * b > 0) by (nonlinear_arith)
        requires a > 0, b > 0;
    let h = f / (a * b);
    vstd::arithmetic::div_mod::lemma_fundamental_div_mod(f as int, (a * b) as int);
    assert(f == (a * b) * h);
    assert(f == (b * h) * a) by (nonlinear_arith)
        requires f == (a * b) * h;
    vstd::arithmetic::div_mod::lemma_mod_multiples_basic(b as int * h as int, a as int);
}

/// Divisibility by `p` but not by `10 * p` makes the digit at weight
/// `p` nonzero.
proof fn lemma_nonzero_digit(f: nat, p: nat)
    requires
        p > 0,
        f % p == 0,
        f % (10 * p) != 0,
    ensures
        f / p % 10 != 0,
{
    if f / p % 10 == 0 {
        let q = f / p;
        vstd::arithmetic::div_mod::lemma_fundamental_div_mod(f as int, p as int);
        assert(f == p * q);
        let h = q / 10;
        vstd::arithmetic::div_mod::lemma_fundamental_div_mod(q as int, 10);
        assert(q == 10 * h);
        assert(f == h * (10 * p)) by (nonlinear_arith)
            requires f == p * q, q == 10 * h;
        vstd::arithmetic::div_mod::lemma_mod_multiples_basic(h as int, (10 * p) as int);
        assert(false);
    }
}

/// Appends `n` millionths in its shortest rendering to `s`: no decimal
/// point for whole numbers, otherwise with trailing zeros dropped.
pub fn push_trimmed_nn(s: &mut String, n: u64)
    ensures
        final(s)@ == old(s)@ + trimmed_nn(n as nat),
{
    let ghost pre = s@;
    push_dec_u64(s, n / 1000000);
    let f = n % 1000000;
    if f == 0 {
        proof {
            assert(s@ =~= pre + trimmed_nn(n as nat));
        }
        return;
    }
    s.append(".");
    let k: u64 = if f % 10 != 0 {
        6
    } else if f % 100 != 0 {
        5
    } else if f % 1000 != 0 {
        4
    } else if f % 10000 != 0 {
        3
    } else if f % 100000 != 0 {
        2
    } else {
        1
    };
    let ghost fr = frac6(f as nat);
    proof {
        reveal_strlit(".");
        let fn_ = f as nat;
        vstd::arithmetic::div_mod::lemma_small_mod(fn_, 1000000);
        if k == 5 {
            lemma_nonzero_digit(fn_, 10);
        } else if k == 4 {
            lemma_zero_digit(fn_, 10);
            lemma_nonzero_digit(fn_, 100);
        } else if k == 3 {
            lemma_mod_factor(fn_, 100, 10);
            lemma_zero_digit(fn_, 10);
            lemma_zero_digit(fn_, 100);
            lemma_nonzero_digit(fn_, 1000);
        } else if k == 2 {
            lemma_mod_factor(fn_, 100, 100);
            lemma_mod_factor(fn_, 1000, 10);
            lemma_zero_digit(fn_, 10);
            lemma_zero_digit(fn_, 100);
            lemma_zero_digit(fn_, 1000);
            lemma_nonzero_digit(fn_, 10000);
        } else if k == 1 {
            lemma_mod_factor(fn_, 100, 1000);
            lemma_mod_factor(fn_, 1000, 100);
            lemma_mod_factor(fn_, 10000, 10);
            lemma_zero_digit(fn_, 10);
            lemma_zero_digit(fn_, 100);
            lemma_zero_digit(fn_, 1000);
            lemma_zero_digit(fn_, 10000);
            lemma_nonzero_digit(fn_, 100000);
        }
        assert(forall|j: int| k <= j < fr.len() ==> fr[j] == '0');
        assert(fr[k as int - 1] != '0');
        lemma_strip_take(fr, k as int);
    }
    s.append(digit_str(f / 100000 % 10));
    if k >= 2 {
        s.append(digit_str(f / 10000 % 10));
    }
    if k >= 3 {
        s.append(digit_str(f / 1000 % 10));
    }
    if k >= 4 {
        s.append(digit_str(f / 100 % 10));
    }
    if k >= 5 {
        s.append(digit_str(f / 10 % 10));
    }
    if k >= 6 {
        s.append(digit_str(f % 10));
    }
    proof {
        assert(s@ =~= pre + trimmed_nn(n as nat));
    }
}

/// Appends `u` millionths in its shortest rendering to `s`.
pub fn push_trimmed(s: &mut String, u: i64)
    requires
        u > i64::MIN,
    ensures
        final(s)@ == old(s)@ + trimmed(u as int),
{
    let ghost pre = s@;
    if u < 0 {
        s.append("-");
        proof {
            reveal_strlit("-");
        }
        push_trimmed_nn(s, (-u) as u64);
        proof {
            assert(s@ =~= pre + trimmed(u as int));
        }
    } else {
        push_trimmed_nn(s, u as u64);
    }
}

/// Converts a length in millionths of a mil into tenths of a
/// nanometre, the exact scaling by 0.0254 that takes mil to
/// millimetres.
pub fn mil_to_mm(mil: i64) -> (r: i64)
    requires
        -100_000_000_000_000 <= mil <= 100_000_000_000_000,
    ensures
        r == mil * 254,
{
    mil * 254
}

/// Appends a length in millionths of a mil to `s`, converted to
/// millimetres and rendered with six decimal places.
pub fn push_mm6_of_mil(s: &mut String, x: i64)
    requires
        -100_000_000_000_000 <= x <= 100_000_000_000_000,
    ensures
        final(s)@ == old(s)@ + mm6_of_mil(x as int),
{
    let scaled: i64 = x * 254;
    let rounded: i64 = if scaled >= 0 {
        (scaled + 5000) / 10000
    } else {
        -((-scaled + 5000) / 10000)
    };
    push_fixed6(s, rounded);
}

} // verus!
