use vstd::prelude::*;

use vstd::arithmetic::div_mod::{lemma_fundamental_div_mod, lemma_mod_breakdown};

verus! {

/// Number of satoshis in one bitcoin.
pub const SAT_PER_BTC: u64 = 100_000_000;

/// Number of decimal places of a bitcoin amount.
pub const BTC_DECIMALS: u64 = 8;

/// Absolute tolerance, in satoshis (0.0001 BTC), within which an output amount
/// counts as equal to the amount that was transferred.
pub const MATCH_TOLERANCE_SAT: u64 = 10_000;

/// Whether `a` lies strictly within the matching tolerance of `b`.
pub open spec fn within_tolerance(a: int, b: int) -> bool {
    -(MATCH_TOLERANCE_SAT as int) < a - b < MATCH_TOLERANCE_SAT as int
}

/// Decides whether two amounts lie strictly within the matching tolerance.
pub fn amounts_match(a: u64, b: u64) -> (r: bool)
    ensures
        r == within_tolerance(a as int, b as int),
{
    if a >= b {
        a - b < MATCH_TOLERANCE_SAT
    } else {
        b - a < MATCH_TOLERANCE_SAT
    }
}

/// The character of a decimal digit.
pub open spec fn digit_char(d: int) -> char {
    if d == 0 {
        '0'
    } else if d == 1 {
        '1'
    } else if d == 2 {
        '2'
    } else if d == 3 {
        '3'
    } else if d == 4 {
        '4'
    } else if d == 5 {
        '5'
    } else if d == 6 {
        '6'
    } else if d == 7 {
        '7'
    } else if d == 8 {
        '8'
    } else {
        '9'
    }
}

/// The shortest decimal text of `n`.
pub open spec fn decimal(n: nat) -> Seq<char>
    decreases n,
{
    if n < 10 {
        seq![digit_char(n as int)]
    } else {
        decimal(n / 10).push(digit_char((n % 10) as int))
    }
}

/// The last `k` decimal digits of `f`, with leading zeros.
pub open spec fn padded_digits(f: nat, k: nat) -> Seq<char>
    decreases k,
{
    if k == 0 {
        Seq::empty()
    } else {
        padded_digits(f / 10, (k - 1) as nat).push(digit_char((f % 10) as int))
    }
}

/// `s` without its trailing zeros, keeping at least one character.
pub open spec fn trim_zeros(s: Seq<char>) -> Seq<char>
    decreases s.len(),
{
    if s.len() > 1 && s.last() == '0' {
        trim_zeros(s.drop_last())
    } else {
        s
    }
}

/// Whole bitcoins of an amount given in satoshis.
pub open spec fn whole_btc(sat: nat) -> nat {
    sat / (SAT_PER_BTC as nat)
}

/// Satoshis below a whole bitcoin of an amount given in satoshis.
pub open spec fn frac_sat(sat: nat) -> nat {
    sat % (SAT_PER_BTC as nat)
}

/// A bitcoin amount as decimal text with every one of its eight decimals.
pub open spec fn btc_fixed_text(sat: nat) -> Seq<char> {
    decimal(whole_btc(sat)) + seq!['.'] + padded_digits(frac_sat(sat), BTC_DECIMALS as nat)
}

/// A bitcoin amount as decimal text without trailing zeros among its decimals
/// (but at least one decimal): 20 BTC reads `20.0`.
pub open spec fn btc_text(sat: nat) -> Seq<char> {
    decimal(whole_btc(sat)) + seq!['.'] + trim_zeros(
        padded_digits(frac_sat(sat), BTC_DECIMALS as nat),
    )
}

fn digit_str(d: u64) -> (r: &'static str)
    requires
        d < 10,
    ensures
        r@ == seq![digit_char(d as int)],
{
    proof {
        reveal_strlit("0");
        reveal_strlit("1");
        reveal_strlit("2");
        reveal_strlit("3");
        reveal_strlit("4");
        reveal_strlit("5");
        reveal_strlit("6");
        reveal_strlit("7");
        reveal_strlit("8");
        reveal_strlit("9");
    }
    if d == 0 {
        "0"
    } else if d == 1 {
        "1"
    } else if d == 2 {
        "2"
    } else if d == 3 {
        "3"
    } else if d == 4 {
        "4"
    } else if d == 5 {
        "5"
    } else if d == 6 {
        "6"
    } else if d == 7 {
        "7"
    } else if d == 8 {
        "8"
    } else {
        "9"
    }
}

pub(crate) fn append_decimal(s: &mut String, n: u64)
    ensures
        final(s)@ == old(s)@ + decimal(n as nat),
    decreases n,
{
    if n < 10 {
        s.append(digit_str(n));
    } else {
        append_decimal(s, n / 10);
        s.append(digit_str(n % 10));
        assert(final(s)@ == old(s)@ + decimal(n as nat));
    }
}

fn append_padded(s: &mut String, f: u64, k: u64)
    ensures
        final(s)@ == old(s)@ + padded_digits(f as nat, k as nat),
    decreases k,
{
    if k == 0 {
        assert(final(s)@ == old(s)@ + padded_digits(f as nat, k as nat));
    } else {
        append_padded(s, f / 10, k - 1);
        s.append(digit_str(f % 10));
        assert(final(s)@ == old(s)@ + padded_digits(f as nat, k as nat));
    }
}

proof fn lemma_digit_char_zero(d: int)
    requires
        0 <= d < 10,
    ensures
        (digit_char(d) == '0') == (d == 0),
{
}

proof fn lemma_trim_step(f: nat, k: nat)
    requires
        k > 1,
        f % 10 == 0,
    ensures
        trim_zeros(padded_digits(f, k)) == trim_zeros(padded_digits(f / 10, (k - 1) as nat)),
{
    let s = padded_digits(f, k);
    assert(s.drop_last() == padded_digits(f / 10, (k - 1) as nat));
}

proof fn lemma_padded_len(f: nat, k: nat)
    ensures
        padded_digits(f, k).len() == k,
    decreases k,
{
    if k > 0 {
        lemma_padded_len(f / 10, (k - 1) as nat);
    }
}

proof fn lemma_trim_stop(f: nat, k: nat)
    requires
        k >= 1,
        k == 1 || f % 10 != 0,
    ensures
        trim_zeros(padded_digits(f, k)) == padded_digits(f, k),
{
    lemma_padded_len(f / 10, (k - 1) as nat);
    lemma_digit_char_zero((f % 10) as int);
}

/// Writes a bitcoin amount, given in satoshis, with all eight decimals.
pub fn format_btc_fixed(sat: u64) -> (r: String)
    ensures
        r@ == btc_fixed_text(sat as nat),
{
    let mut s = String::new();
    append_decimal(&mut s, sat / SAT_PER_BTC);
    s.append(".");
    append_padded(&mut s, sat % SAT_PER_BTC, BTC_DECIMALS);
    proof {
        reveal_strlit(".");
    }
    s
}

/// Writes a bitcoin amount, given in satoshis, without trailing zeros among
/// its decimals: `20.0`, `29.99999859`, `0.0`.
pub fn format_btc(sat: u64) -> (r: String)
    ensures
        r@ == btc_text(sat as nat),
{
    let mut s = String::new();
    append_decimal(&mut s, sat / SAT_PER_BTC);
    s.append(".");
    proof {
        reveal_strlit(".");
    }
    let ghost head = s@;
    let mut f: u64 = sat % SAT_PER_BTC;
    let mut k: u64 = BTC_DECIMALS;
    while k > 1 && f % 10 == 0
        invariant
            1 <= k <= BTC_DECIMALS,
            trim_zeros(padded_digits(frac_sat(sat as nat), BTC_DECIMALS as nat)) == trim_zeros(
                padded_digits(f as nat, k as nat),
            ),
        decreases k,
    {
        proof {
            lemma_trim_step(f as nat, k as nat);
        }
        f = f / 10;
        k = k - 1;
    }
    proof {
        lemma_trim_stop(f as nat, k as nat);
    }
    append_padded(&mut s, f, k);
    s
}

/// The value of a decimal digit character.
pub open spec fn digit_value(c: char) -> int {
    if c == '1' {
        1
    } else if c == '2' {
        2
    } else if c == '3' {
        3
    } else if c == '4' {
        4
    } else if c == '5' {
        5
    } else if c == '6' {
        6
    } else if c == '7' {
        7
    } else if c == '8' {
        8
    } else if c == '9' {
        9
    } else {
        0
    }
}

/// The character is a decimal digit.
pub open spec fn is_digit(c: char) -> bool {
    c == '0' || c == '1' || c == '2' || c == '3' || c == '4' || c == '5' || c == '6' || c == '7'
        || c == '8' || c == '9'
}

/// The value of a text of decimal digits.
pub open spec fn digits_value(s: Seq<char>) -> int
    decreases s.len(),
{
    if s.len() == 0 {
        0
    } else {
        digits_value(s.drop_last()) * 10 + digit_value(s.last())
    }
}

/// Ten to the power `n`.
pub open spec fn pow10(n: nat) -> int
    decreases n,
{
    if n == 0 {
        1
    } else {
        10 * pow10((n - 1) as nat)
    }
}

/// The amount, in satoshis, that a text `whole.frac` of decimal digits
/// denotes, with at most eight decimals.
pub open spec fn denoted_sat(whole: Seq<char>, frac: Seq<char>) -> int {
    digits_value(whole) * SAT_PER_BTC as int + digits_value(frac) * pow10(
        (BTC_DECIMALS - frac.len()) as nat,
    )
}

proof fn lemma_digit_round_trip(d: int)
    requires
        0 <= d < 10,
    ensures
        digit_value(digit_char(d)) == d,
        is_digit(digit_char(d)),
{
}

proof fn lemma_decimal_value(n: nat)
    ensures
        digits_value(decimal(n)) == n,
        forall|i: int| 0 <= i < decimal(n).len() ==> is_digit(#[trigger] decimal(n)[i]),
        decimal(n).len() >= 1,
    decreases n,
{
    lemma_digit_round_trip((n % 10) as int);
    if n >= 10 {
        lemma_decimal_value(n / 10);
        assert(decimal(n).drop_last() == decimal(n / 10));
        lemma_fundamental_div_mod(n as int, 10);
    } else {
        assert(decimal(n).drop_last() =~= Seq::<char>::empty());
        assert(digits_value(Seq::<char>::empty()) == 0);
    }
}

proof fn lemma_pow10_pos(n: nat)
    ensures
        pow10(n) > 0,
    decreases n,
{
    if n > 0 {
        lemma_pow10_pos((n - 1) as nat);
    }
}

proof fn lemma_padded_value(f: nat, k: nat)
    ensures
        digits_value(padded_digits(f, k)) == f % (pow10(k) as nat),
        forall|i: int|
            0 <= i < padded_digits(f, k).len() ==> is_digit(#[trigger] padded_digits(f, k)[i]),
        padded_digits(f, k).len() == k,
    decreases k,
{
    lemma_pow10_pos(k);
    if k > 0 {
        lemma_pow10_pos((k - 1) as nat);
        lemma_padded_value(f / 10, (k - 1) as nat);
        lemma_digit_round_trip((f % 10) as int);
        assert(padded_digits(f, k).drop_last() == padded_digits(f / 10, (k - 1) as nat));
        lemma_mod_breakdown(f as int, 10, pow10((k - 1) as nat));
    }
}

proof fn lemma_trim_value(s: Seq<char>)
    requires
        s.len() >= 1,
    ensures
        1 <= trim_zeros(s).len() <= s.len(),
        trim_zeros(s) == s.subrange(0, trim_zeros(s).len() as int),
        digits_value(s) == digits_value(trim_zeros(s)) * pow10(
            (s.len() - trim_zeros(s).len()) as nat,
        ),
    decreases s.len(),
{
    if s.len() > 1 && s.last() == '0' {
        let t = s.drop_last();
        lemma_trim_value(t);
        let a = digits_value(trim_zeros(t));
        let b = pow10((t.len() - trim_zeros(t).len()) as nat);
        assert(pow10((s.len() - trim_zeros(s).len()) as nat) == 10 * b);
        assert(a * b * 10 == a * (10 * b)) by (nonlinear_arith);
        assert(trim_zeros(t) =~= s.subrange(0, trim_zeros(t).len() as int));
    } else {
        assert(s.subrange(0, s.len() as int) =~= s);
    }
}

/// The amount written for a transfer reads back as the amount itself: the
/// text of `sat` is whole digits, a point and one to eight decimal digits,
/// which denote exactly `sat` satoshis.
pub proof fn lemma_btc_text_round_trip(sat: u64)
    ensures
        exists|whole: Seq<char>, frac: Seq<char>|
            {
                &&& btc_text(sat as nat) == whole + seq!['.'] + frac
                &&& whole.len() >= 1
                &&& 1 <= frac.len() <= BTC_DECIMALS
                &&& forall|i: int| 0 <= i < whole.len() ==> is_digit(#[trigger] whole[i])
                &&& forall|i: int| 0 <= i < frac.len() ==> is_digit(#[trigger] frac[i])
                &&& denoted_sat(whole, frac) == sat
            },
{
    let whole = decimal(whole_btc(sat as nat));
    let padded = padded_digits(frac_sat(sat as nat), BTC_DECIMALS as nat);
    let frac = trim_zeros(padded);
    lemma_decimal_value(whole_btc(sat as nat));
    lemma_padded_value(frac_sat(sat as nat), BTC_DECIMALS as nat);
    lemma_trim_value(padded);
    reveal_with_fuel(pow10, 9);
    assert(pow10(8) == 100_000_000);
    assert forall|i: int| 0 <= i < frac.len() implies is_digit(#[trigger] frac[i]) by {
        assert(frac[i] == padded.subrange(0, frac.len() as int)[i]);
    }
    lemma_fundamental_div_mod(sat as int, SAT_PER_BTC as int);
    assert(frac_sat(sat as nat) < 100_000_000);
    assert(frac_sat(sat as nat) % 100_000_000 == frac_sat(sat as nat));
    assert(digits_value(padded) == frac_sat(sat as nat));
    assert(digits_value(frac) * pow10((BTC_DECIMALS - frac.len()) as nat) == frac_sat(sat as nat));
    assert(digits_value(whole) == whole_btc(sat as nat));
    assert(denoted_sat(whole, frac) == sat);
    assert(btc_text(sat as nat) == whole + seq!['.'] + frac);
}

} // verus!
