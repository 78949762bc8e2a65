//! Decimal digit sequences: the canonical decimal form of an unsigned number,
//! a bounded decimal scanner, and the round-trip and injectivity facts the id
//! generator and the codec build on.

use vstd::prelude::*;
use vstd::arithmetic::div_mod::{lemma_div_pos_is_pos, lemma_fundamental_div_mod, lemma_div_decreases};

verus! {

/// The character for one decimal digit value.
pub open spec fn digit_char(d: int) -> char {
    if d == 0 { '0' } else if d == 1 { '1' } else if d == 2 { '2' } else if d == 3 { '3' }
    else if d == 4 { '4' } else if d == 5 { '5' } else if d == 6 { '6' } else if d == 7 { '7' }
    else if d == 8 { '8' } else { '9' }
}

/// Whether a character is a decimal digit.
pub open spec fn is_digit(c: char) -> bool {
    c == '0' || c == '1' || c == '2' || c == '3' || c == '4' || c == '5' || c == '6'
        || c == '7' || c == '8' || c == '9'
}

/// The numeric value of a digit character.
pub open spec fn digit_val(c: char) -> int {
    if c == '0' { 0 } else if c == '1' { 1 } else if c == '2' { 2 } else if c == '3' { 3 }
    else if c == '4' { 4 } else if c == '5' { 5 } else if c == '6' { 6 } else if c == '7' { 7 }
    else if c == '8' { 8 } else { 9 }
}

/// The canonical decimal form of `n`: no leading zeros, most significant
/// digit first.
pub open spec fn dec_digits(n: nat) -> Seq<char>
    decreases n,
{
    if n < 10 {
        seq![digit_char(n as int)]
    } else {
        dec_digits(n / 10).push(digit_char((n % 10) as int))
    }
}

/// The value of a digit sequence, most significant first.
pub open spec fn dec_value(s: Seq<char>) -> int
    decreases s.len(),
{
    if s.len() == 0 {
        0
    } else {
        dec_value(s.drop_last()) * 10 + digit_val(s.last())
    }
}

/// Every character of the sequence is a digit.
pub open spec fn all_digits(s: Seq<char>) -> bool {
    forall|i: int| 0 <= i < s.len() ==> is_digit(s[i])
}

/// The canonical decimal form is never empty, holds only digits, and its
/// value is the number it came from.
pub proof fn lemma_dec_digits_value(n: nat)
    ensures
        dec_digits(n).len() >= 1,
        all_digits(dec_digits(n)),
        dec_value(dec_digits(n)) == n,
    decreases n,
{
    if n < 10 {
        assert(dec_value(dec_digits(n)) == dec_value(seq![digit_char(n as int)]));
        assert(dec_value(seq![digit_char(n as int)])
            == dec_value(seq![digit_char(n as int)].drop_last()) * 10
                + digit_val(seq![digit_char(n as int)].last()));
        assert(seq![digit_char(n as int)].drop_last() =~= Seq::<char>::empty());
    } else {
        lemma_dec_digits_value(n / 10);
        lemma_fundamental_div_mod(n as int, 10);
        let s = dec_digits(n);
        assert(s == dec_digits(n / 10).push(digit_char((n % 10) as int)));
        assert(s.drop_last() =~= dec_digits(n / 10));
        assert(s.last() == digit_char((n % 10) as int));
        assert(digit_val(digit_char((n % 10) as int)) == n % 10);
        assert(forall|i: int| 0 <= i < s.len() - 1 ==> s[i] == dec_digits(n / 10)[i]);
    }
}

/// Distinct numbers have distinct canonical decimal forms.
pub proof fn lemma_dec_digits_injective(a: nat, b: nat)
    requires
        a != b,
    ensures
        dec_digits(a) != dec_digits(b),
{
    lemma_dec_digits_value(a);
    lemma_dec_digits_value(b);
}

/// One decimal digit of an exec number.
pub fn digit_char_of(d: u8) -> (c: char)
    requires
        d < 10,
    ensures
        c == digit_char(d as int),
{
    match d {
        0 => '0',
        1 => '1',
        2 => '2',
        3 => '3',
        4 => '4',
        5 => '5',
        6 => '6',
        7 => '7',
        8 => '8',
        _ => '9',
    }
}

/// The numeric value of a digit character, for the scanner.
pub fn digit_val_of(c: char) -> (d: u8)
    requires
        is_digit(c),
    ensures
        d == digit_val(c),
        d < 10,
{
    match c {
        '0' => 0,
        '1' => 1,
        '2' => 2,
        '3' => 3,
        '4' => 4,
        '5' => 5,
        '6' => 6,
        '7' => 7,
        '8' => 8,
        _ => 9,
    }
}

/// Whether an exec character is a decimal digit.
pub fn digit(c: char) -> (r: bool)
    ensures
        r == is_digit(c),
{
    c == '0' || c == '1' || c == '2' || c == '3' || c == '4' || c == '5' || c == '6'
        || c == '7' || c == '8' || c == '9'
}

/// Appends the canonical decimal form of `n` to `out`.
pub fn push_dec(out: &mut String, n: u128)
    ensures
        final(out)@ == old(out)@ + dec_digits(n as nat),
    decreases n,
{
    if n >= 10 {
        push_dec(out, n / 10);
        proof {
            lemma_div_pos_is_pos(n as int, 10);
            lemma_div_decreases(n as int, 10);
        }
    }
    let d: u8 = (n % 10) as u8;
    crate::text::push_char(out, digit_char_of(d));
    proof {
        if n >= 10 {
            assert(out@ =~= old(out)@ + dec_digits(n as nat));
        } else {
            assert(dec_digits(n as nat) =~= seq![digit_char((n % 10) as int)]);
            assert(out@ =~= old(out)@ + dec_digits(n as nat));
        }
    }
}

/// Ten to the `n`.
pub open spec fn pow10(n: nat) -> int
    decreases n,
{
    if n == 0 {
        1
    } else {
        10 * pow10((n - 1) as nat)
    }
}

/// A digit sequence's value is bounded by ten to its length.
pub proof fn lemma_dec_value_bound(s: Seq<char>)
    requires
        all_digits(s),
    ensures
        0 <= dec_value(s) < pow10(s.len() as nat),
    decreases s.len(),
{
    if s.len() > 0 {
        assert(all_digits(s.drop_last())) by {
            assert(forall|i: int| 0 <= i < s.len() - 1 ==> s.drop_last()[i] == s[i]);
        }
        lemma_dec_value_bound(s.drop_last());
        assert(is_digit(s.last()));
    }
}

/// A number below ten to the `k` has at most `k` decimal digits.
pub proof fn lemma_dec_digits_len(n: nat, k: nat)
    requires
        k >= 1,
        n < pow10(k),
    ensures
        dec_digits(n).len() <= k,
    decreases k,
{
    if n < 10 {
    } else {
        lemma_fundamental_div_mod(n as int, 10);
        assert(k >= 2) by {
            if k == 1 {
                assert(pow10(1nat) == 10);
            }
        }
        assert(10 * (n / 10) <= n);
        assert(pow10(k) == 10 * pow10((k - 1) as nat));
        assert(n / 10 < pow10((k - 1) as nat));
        lemma_dec_digits_len(n / 10, (k - 1) as nat);
    }
}

/// The numeric value an id carries: when the id is the given fixed prefix
/// followed by one to 37 digits, that digit suffix's value; nothing otherwise.
pub open spec fn sp_id_val(s: Seq<char>, p: Seq<char>) -> Option<int> {
    if s.len() > p.len() && s.subrange(0, p.len() as int) == p && s.len() - p.len() <= 37
        && all_digits(s.skip(p.len() as int)) {
        Some(dec_value(s.skip(p.len() as int)))
    } else {
        None
    }
}

/// Reads the numeric value an id carries, if any.
pub fn id_val(s: &str, p: &str) -> (r: Option<u128>)
    ensures
        r matches Some(v) ==> sp_id_val(s@, p@) == Some(v as int),
        r is None ==> sp_id_val(s@, p@) is None,
{
    let n = s.unicode_len();
    let m = p.unicode_len();
    if n <= m {
        return None;
    }
    let mut k: usize = 0;
    while k < m
        invariant
            m < n,
            n == s@.len(),
            m == p@.len(),
            0 <= k <= m,
            forall|t: int| 0 <= t < k ==> s@[t] == p@[t],
        decreases m - k,
    {
        if s.get_char(k) != p.get_char(k) {
            proof {
                assert(s@.subrange(0, m as int)[k as int] == s@[k as int]);
            }
            return None;
        }
        k += 1;
    }
    proof {
        assert(s@.subrange(0, m as int) =~= p@);
    }
    if n - m > 37 {
        return None;
    }
    let mut i: usize = m;
    let mut acc: u128 = 0;
    proof {
        assert(pow10(37nat) == 10000000000000000000000000000000000000) by {
            reveal_with_fuel(pow10, 38);
        }
        assert(s@.subrange(m as int, m as int) =~= Seq::<char>::empty());
    }
    while i < n
        invariant
            m <= i <= n,
            n == s@.len(),
            m == p@.len(),
            n - m <= 37,
            s@.subrange(0, m as int) == p@,
            pow10(37nat) == 10000000000000000000000000000000000000,
            forall|t: int| m <= t < i ==> is_digit(s@[t]),
            acc == dec_value(s@.subrange(m as int, i as int)),
            all_digits(s@.subrange(m as int, i as int)),
        decreases n - i,
    {
        let c = s.get_char(i);
        if !digit(c) {
            proof {
                assert(!all_digits(s@.skip(m as int))) by {
                    assert(s@.skip(m as int)[i - m as int] == s@[i as int]);
                }
            }
            return None;
        }
        let d = digit_val_of(c);
        proof {
            let cur = s@.subrange(m as int, i as int);
            let nxt = s@.subrange(m as int, i + 1 as int);
            assert(nxt.drop_last() =~= cur);
            assert(nxt.last() == s@[i as int]);
            assert(all_digits(nxt));
            lemma_dec_value_bound(cur);
            assert(cur.len() <= 36);
            lemma_pow10_monotone(cur.len() as nat, 36nat);
            assert(pow10(36nat) * 10 == pow10(37nat));
        }
        acc = acc * 10 + (d as u128);
        i += 1;
    }
    proof {
        assert(s@.subrange(m as int, n as int) =~= s@.skip(m as int));
    }
    Some(acc)
}

/// `pow10` grows with its exponent.
pub proof fn lemma_pow10_monotone(a: nat, b: nat)
    requires
        a <= b,
    ensures
        pow10(a) <= pow10(b),
        pow10(a) >= 1,
    decreases b,
{
    if b > 0 {
        if a == b {
            lemma_pow10_monotone(0, (b - 1) as nat);
        } else {
            lemma_pow10_monotone(a, (b - 1) as nat);
        }
    }
}

/// The canonical decimal form of `n` as a fresh string.
pub fn to_dec(n: u128) -> (r: String)
    ensures
        r@ == dec_digits(n as nat),
{
    let mut s = String::new();
    push_dec(&mut s, n);
    proof {
        assert(s@ =~= dec_digits(n as nat));
    }
    s
}

} // verus!
