//! The persisted text format: a compact JSON-style encoding of the entity
//! collections, with a strict parser that inverts the encoder. The encoder is
//! the single source of the on-disk shape; the parser accepts exactly that
//! shape, and the round-trip lemmas here are what the store's durability
//! round-trip rests on.

use vstd::prelude::*;
use crate::digits::{
    dec_digits, dec_value, digit_val, is_digit, all_digits, pow10, lemma_dec_digits_value,
    lemma_dec_value_bound, lemma_pow10_monotone,
};
use crate::text::push_char;

verus! {

/// `e` occurs in `s` starting at position `i`.
pub open spec fn prefix_at(s: Seq<char>, i: int, e: Seq<char>) -> bool {
    0 <= i && i + e.len() <= s.len() && s.subrange(i, i + e.len() as int) == e
}

/// A prefix made of two pieces splits into a prefix and a prefix after it.
pub proof fn lemma_split(s: Seq<char>, i: int, a: Seq<char>, b: Seq<char>)
    requires
        prefix_at(s, i, a + b),
    ensures
        prefix_at(s, i, a),
        prefix_at(s, i + a.len(), b),
{
    let ab = a + b;
    assert(s.subrange(i, i + a.len() as int) =~= a) by {
        assert(forall|k: int| 0 <= k < a.len() ==> s[i + k] == ab[k] && ab[k] == a[k]);
    }
    assert(s.subrange(i + a.len(), i + a.len() + b.len() as int) =~= b) by {
        assert(forall|k: int|
            0 <= k < b.len() ==> s[i + a.len() + k] == ab[a.len() + k] && ab[a.len() + k] == b[k]);
    }
}

/// Literal recognition: the position after `e` when `e` stands at `i`.
pub open spec fn sp_expect(s: Seq<char>, i: int, e: Seq<char>) -> Option<int> {
    if prefix_at(s, i, e) {
        Some(i + e.len() as int)
    } else {
        None
    }
}

/// Compares the characters at `i` against the literal.
pub fn expect_lit(s: &str, i: usize, lit: &str) -> (r: Option<usize>)
    ensures
        r matches Some(j) ==> sp_expect(s@, i as int, lit@) == Some(j as int) && j <= s@.len(),
        r is None ==> sp_expect(s@, i as int, lit@) is None,
{
    let n = s.unicode_len();
    let m = lit.unicode_len();
    if i > n || m > n - i {
        proof {
            assert(!prefix_at(s@, i as int, lit@));
        }
        return None;
    }
    let mut k: usize = 0;
    while k < m
        invariant
            i + m <= n,
            n == s@.len(),
            m == lit@.len(),
            0 <= k <= m,
            forall|t: int| 0 <= t < k ==> s@[i + t] == lit@[t],
        decreases m - k,
    {
        if s.get_char(i + k) != lit.get_char(k) {
            proof {
                assert(s@.subrange(i as int, i + m as int)[k as int] == s@[i + k]);
                assert(!prefix_at(s@, i as int, lit@));
            }
            return None;
        }
        k += 1;
    }
    proof {
        assert(s@.subrange(i as int, i + m as int) =~= lit@);
    }
    Some(i + m)
}

// ------------------------------------------------------------------
// strings
// ------------------------------------------------------------------

/// The escaped form of one character inside a quoted string.
pub open spec fn esc_char(c: char) -> Seq<char> {
    if c == '"' {
        seq!['\\', '"']
    } else if c == '\\' {
        seq!['\\', '\\']
    } else {
        seq![c]
    }
}

/// The escaped form of a whole string body.
pub open spec fn esc_str(s: Seq<char>) -> Seq<char>
    decreases s.len(),
{
    if s.len() == 0 {
        Seq::empty()
    } else {
        esc_char(s[0]) + esc_str(s.subrange(1, s.len() as int))
    }
}

/// A quoted, escaped string value.
pub open spec fn enc_string(s: Seq<char>) -> Seq<char> {
    seq!['"'] + esc_str(s) + seq!['"']
}

/// Appends the escaped form of `v` from position `k` on.
pub fn push_esc(out: &mut String, v: &str, k: usize)
    requires
        k <= v@.len(),
    ensures
        final(out)@ == old(out)@ + esc_str(v@.skip(k as int)),
    decreases v@.len() - k,
{
    let n = v.unicode_len();
    if k < n {
        let c = v.get_char(k);
        if c == '"' || c == '\\' {
            push_char(out, '\\');
            push_char(out, c);
        } else {
            push_char(out, c);
        }
        push_esc(out, v, k + 1);
        proof {
            let t = v@.skip(k as int);
            assert(t[0] == v@[k as int]);
            assert(t.subrange(1, t.len() as int) =~= v@.skip(k + 1 as int));
            assert(final(out)@ =~= old(out)@ + esc_str(t));
        }
    } else {
        proof {
            assert(v@.skip(k as int) =~= Seq::<char>::empty());
            assert(final(out)@ =~= old(out)@ + esc_str(v@.skip(k as int)));
        }
    }
}

/// Appends the quoted, escaped form of `v`.
pub fn push_quoted(out: &mut String, v: &str)
    ensures
        final(out)@ == old(out)@ + enc_string(v@),
{
    push_char(out, '"');
    push_esc(out, v, 0);
    push_char(out, '"');
    proof {
        assert(v@.skip(0) =~= v@);
        assert(final(out)@ =~= old(out)@ + enc_string(v@));
    }
}

/// Scans a string body up to and over its closing quote, unescaping as it
/// goes; the result is the body and the position after the quote.
pub open spec fn sp_strbody(s: Seq<char>, i: int) -> Option<(Seq<char>, int)>
    decreases s.len() - i,
{
    if i < 0 || i >= s.len() {
        None
    } else if s[i] == '"' {
        Some((Seq::empty(), i + 1))
    } else if s[i] == '\\' {
        if i + 1 < s.len() && (s[i + 1] == '"' || s[i + 1] == '\\') {
            match sp_strbody(s, i + 2) {
                Some(p) => Some((seq![s[i + 1]] + p.0, p.1)),
                None => None,
            }
        } else {
            None
        }
    } else {
        match sp_strbody(s, i + 1) {
            Some(p) => Some((seq![s[i]] + p.0, p.1)),
            None => None,
        }
    }
}

/// A quoted string value: an opening quote, then a body.
pub open spec fn sp_parse_string(s: Seq<char>, i: int) -> Option<(Seq<char>, int)> {
    if 0 <= i < s.len() && s[i] == '"' {
        sp_strbody(s, i + 1)
    } else {
        None
    }
}

/// The scanner inverts the escaper: a body written by `esc_str` followed by a
/// closing quote reads back as the original characters.
pub proof fn lemma_strbody_rt(s: Seq<char>, i: int, v: Seq<char>)
    requires
        prefix_at(s, i, esc_str(v) + seq!['"']),
    ensures
        sp_strbody(s, i) == Some((v, i + esc_str(v).len() + 1)),
    decreases v.len(),
{
    if v.len() == 0 {
        assert(esc_str(v) + seq!['"'] =~= seq!['"']);
        assert(s.subrange(i, i + 1) == esc_str(v) + seq!['"']);
        assert(s[i] == '"') by {
            assert(s.subrange(i, i + 1)[0] == s[i]);
        }
        assert(sp_strbody(s, i) == Some((Seq::<char>::empty(), i + 1)));
        assert(Seq::<char>::empty() =~= v);
    } else {
        let c = v[0];
        let v2 = v.subrange(1, v.len() as int);
        assert(esc_str(v) == esc_char(c) + esc_str(v2));
        assert((esc_char(c) + esc_str(v2)) + seq!['"'] =~= esc_char(c) + (esc_str(v2)
            + seq!['"']));
        lemma_split(s, i, esc_char(c), esc_str(v2) + seq!['"']);
        let e = esc_char(c);
        assert(s.subrange(i, i + e.len() as int) == e);
        if c == '"' || c == '\\' {
            assert(s[i] == '\\' && s[i + 1] == c) by {
                assert(s.subrange(i, i + e.len() as int)[0] == s[i]);
                assert(s.subrange(i, i + e.len() as int)[1] == s[i + 1]);
            }
            lemma_strbody_rt(s, i + 2, v2);
            assert(seq![s[i + 1]] + v2 =~= v);
        } else {
            assert(s[i] == c) by {
                assert(s.subrange(i, i + e.len() as int)[0] == s[i]);
            }
            assert(c != '"' && c != '\\');
            lemma_strbody_rt(s, i + 1, v2);
            assert(seq![s[i]] + v2 =~= v);
        }
    }
}

/// A value written by `enc_string` reads back as itself.
pub proof fn lemma_string_rt(s: Seq<char>, i: int, v: Seq<char>)
    requires
        prefix_at(s, i, enc_string(v)),
    ensures
        sp_parse_string(s, i) == Some((v, i + enc_string(v).len() as int)),
{
    assert(enc_string(v) =~= seq!['"'] + (esc_str(v) + seq!['"']));
    lemma_split(s, i, seq!['"'], esc_str(v) + seq!['"']);
    assert(s[i] == '"') by {
        assert(s.subrange(i, i + 1)[0] == s[i]);
    }
    lemma_strbody_rt(s, i + 1, v);
}

/// Reads a string body, pushing the unescaped characters onto `acc`.
pub fn parse_strbody(s: &str, i: usize, acc: &mut String) -> (r: Option<usize>)
    ensures
        r matches Some(j) ==> sp_strbody(s@, i as int) matches Some(p) && final(acc)@ == old(
            acc,
        )@ + p.0 && p.1 == j as int && j <= s@.len(),
        r is None ==> sp_strbody(s@, i as int) is None,
    decreases s@.len() - i,
{
    let n = s.unicode_len();
    if i >= n {
        return None;
    }
    let c = s.get_char(i);
    if c == '"' {
        proof {
            assert(final(acc)@ =~= old(acc)@ + Seq::<char>::empty());
        }
        return Some(i + 1);
    }
    if c == '\\' {
        if i + 1 < n {
            let c2 = s.get_char(i + 1);
            if c2 == '"' || c2 == '\\' {
                push_char(acc, c2);
                let r = parse_strbody(s, i + 2, acc);
                proof {
                    if r is Some {
                        let p = sp_strbody(s@, i + 2 as int).unwrap();
                        assert(final(acc)@ =~= old(acc)@ + (seq![s@[i + 1]] + p.0));
                    }
                }
                return r;
            }
        }
        return None;
    }
    push_char(acc, c);
    let r = parse_strbody(s, i + 1, acc);
    proof {
        if r is Some {
            let p = sp_strbody(s@, i + 1 as int).unwrap();
            assert(final(acc)@ =~= old(acc)@ + (seq![s@[i as int]] + p.0));
        }
    }
    r
}

/// Reads a quoted string value.
pub fn parse_string(s: &str, i: usize) -> (r: Option<(String, usize)>)
    ensures
        r matches Some(p) ==> sp_parse_string(s@, i as int) == Some((p.0@, p.1 as int)) && p.1
            <= s@.len(),
        r is None ==> sp_parse_string(s@, i as int) is None,
{
    let n = s.unicode_len();
    if i >= n {
        return None;
    }
    if s.get_char(i) != '"' {
        return None;
    }
    let mut acc = String::new();
    match parse_strbody(s, i + 1, &mut acc) {
        Some(j) => Some((acc, j)),
        None => None,
    }
}

// ------------------------------------------------------------------
// booleans and optional strings
// ------------------------------------------------------------------

/// A boolean value.
pub open spec fn enc_bool(b: bool) -> Seq<char> {
    if b {
        "true"@
    } else {
        "false"@
    }
}

/// Reads a boolean value.
pub open spec fn sp_parse_bool(s: Seq<char>, i: int) -> Option<(bool, int)> {
    if sp_expect(s, i, "true"@) is Some {
        Some((true, sp_expect(s, i, "true"@).unwrap()))
    } else if sp_expect(s, i, "false"@) is Some {
        Some((false, sp_expect(s, i, "false"@).unwrap()))
    } else {
        None
    }
}

/// A boolean written by `enc_bool` reads back as itself.
pub proof fn lemma_bool_rt(s: Seq<char>, i: int, b: bool)
    requires
        prefix_at(s, i, enc_bool(b)),
    ensures
        sp_parse_bool(s, i) == Some((b, i + enc_bool(b).len() as int)),
{
    reveal_strlit("true");
    reveal_strlit("false");
    if b {
    } else {
        assert(s[i] == 'f') by {
            assert(s.subrange(i, i + "false"@.len() as int)[0] == s[i]);
        }
        assert(!prefix_at(s, i, "true"@)) by {
            if prefix_at(s, i, "true"@) {
                assert(s.subrange(i, i + "true"@.len() as int)[0] == s[i]);
            }
        }
    }
}

/// Writes a boolean value.
pub fn push_bool(out: &mut String, b: bool)
    ensures
        final(out)@ == old(out)@ + enc_bool(b),
{
    if b {
        out.append("true");
    } else {
        out.append("false");
    }
}

/// Reads a boolean value.
pub fn parse_bool(s: &str, i: usize) -> (r: Option<(bool, usize)>)
    ensures
        r matches Some(p) ==> sp_parse_bool(s@, i as int) == Some((p.0, p.1 as int)) && p.1
            <= s@.len(),
        r is None ==> sp_parse_bool(s@, i as int) is None,
{
    match expect_lit(s, i, "true") {
        Some(j) => Some((true, j)),
        None => match expect_lit(s, i, "false") {
            Some(j) => Some((false, j)),
            None => None,
        },
    }
}

/// An optional string: `null` when absent, a quoted string when present.
pub open spec fn enc_opt_string(o: Option<Seq<char>>) -> Seq<char> {
    match o {
        None => "null"@,
        Some(v) => enc_string(v),
    }
}

/// Reads an optional string value.
pub open spec fn sp_parse_opt_string(s: Seq<char>, i: int) -> Option<(Option<Seq<char>>, int)> {
    if sp_expect(s, i, "null"@) is Some {
        Some((None, sp_expect(s, i, "null"@).unwrap()))
    } else {
        match sp_parse_string(s, i) {
            Some(p) => Some((Some(p.0), p.1)),
            None => None,
        }
    }
}

/// An optional string written by `enc_opt_string` reads back as itself.
pub proof fn lemma_opt_string_rt(s: Seq<char>, i: int, o: Option<Seq<char>>)
    requires
        prefix_at(s, i, enc_opt_string(o)),
    ensures
        sp_parse_opt_string(s, i) == Some((o, i + enc_opt_string(o).len() as int)),
{
    reveal_strlit("null");
    match o {
        None => {},
        Some(v) => {
            assert(s[i] == '"') by {
                assert(s.subrange(i, i + enc_string(v).len() as int)[0] == s[i]);
                assert(enc_string(v)[0] == '"');
            }
            assert(!prefix_at(s, i, "null"@)) by {
                if prefix_at(s, i, "null"@) {
                    assert(s.subrange(i, i + "null"@.len() as int)[0] == s[i]);
                }
            }
            lemma_string_rt(s, i, v);
        },
    }
}

/// Writes an optional string value.
pub fn push_opt_string(out: &mut String, o: &Option<String>)
    ensures
        final(out)@ == old(out)@ + enc_opt_string(match o {
            Some(v) => Some(v@),
            None => None,
        }),
{
    match o {
        None => out.append("null"),
        Some(v) => push_quoted(out, v.as_str()),
    }
}

/// Reads an optional string value.
pub fn parse_opt_string(s: &str, i: usize) -> (r: Option<(Option<String>, usize)>)
    ensures
        r matches Some(p) ==> sp_parse_opt_string(s@, i as int) == Some(
            (
                match p.0 {
                    Some(v) => Some(v@),
                    None => None,
                },
                p.1 as int,
            ),
        ) && p.1 <= s@.len(),
        r is None ==> sp_parse_opt_string(s@, i as int) is None,
{
    match expect_lit(s, i, "null") {
        Some(j) => Some((None, j)),
        None => match parse_string(s, i) {
            Some(p) => Some((Some(p.0), p.1)),
            None => None,
        },
    }
}

// ------------------------------------------------------------------
// integers and integer arrays
// ------------------------------------------------------------------

/// A signed decimal integer value.
pub open spec fn enc_i32(v: int) -> Seq<char> {
    if v < 0 {
        seq!['-'] + dec_digits((-v) as nat)
    } else {
        dec_digits(v as nat)
    }
}

/// Scans a run of digits left to right, accumulating their value; fails on
/// values beyond the scanner's range.
pub open spec fn sp_scan(s: Seq<char>, i: int, acc: int) -> Option<(int, int)>
    decreases s.len() - i,
{
    if 0 <= i < s.len() && is_digit(s[i]) {
        if acc * 10 + digit_val(s[i]) > 0xFFFF_FFFF {
            None
        } else {
            sp_scan(s, i + 1, acc * 10 + digit_val(s[i]))
        }
    } else {
        Some((acc, i))
    }
}

/// Reads an unsigned decimal number: one or more digits.
pub open spec fn sp_parse_u(s: Seq<char>, i: int) -> Option<(int, int)> {
    if 0 <= i < s.len() && is_digit(s[i]) {
        sp_scan(s, i, 0)
    } else {
        None
    }
}

/// Reads a signed decimal number within the 32-bit range.
pub open spec fn sp_parse_i32(s: Seq<char>, i: int) -> Option<(int, int)> {
    if 0 <= i < s.len() && s[i] == '-' {
        match sp_parse_u(s, i + 1) {
            Some((v, j)) => if v <= 2147483648 {
                Some((-v, j))
            } else {
                None
            },
            None => None,
        }
    } else {
        match sp_parse_u(s, i) {
            Some((v, j)) => if v <= 2147483647 {
                Some((v, j))
            } else {
                None
            },
            None => None,
        }
    }
}

/// A digit sequence's value splits at its first digit.
pub proof fn lemma_dec_value_front(ds: Seq<char>)
    requires
        ds.len() >= 1,
        all_digits(ds),
    ensures
        dec_value(ds) == digit_val(ds[0]) * pow10((ds.len() - 1) as nat) + dec_value(
            ds.subrange(1, ds.len() as int),
        ),
    decreases ds.len(),
{
    if ds.len() == 1 {
        assert(ds.subrange(1, 1) =~= Seq::<char>::empty());
        assert(ds.drop_last() =~= Seq::<char>::empty());
    } else {
        let head = ds.drop_last();
        assert(all_digits(head)) by {
            assert(forall|k: int| 0 <= k < head.len() ==> head[k] == ds[k]);
        }
        lemma_dec_value_front(head);
        let ds2 = ds.subrange(1, ds.len() as int);
        assert(ds2.drop_last() =~= head.subrange(1, head.len() as int));
        assert(ds2.last() == ds.last());
        let l1 = (ds.len() - 1) as nat;
        let l2 = (ds.len() - 2) as nat;
        assert(pow10(l1) == 10 * pow10(l2));
        assert(digit_val(ds[0]) * pow10(l2) * 10 == digit_val(ds[0]) * pow10(l1)) by (nonlinear_arith)
            requires
                pow10(l1) == 10 * pow10(l2),
        ;
    }
}

/// The scanner inverts the decimal writer: digits written at `i`, followed by
/// a non-digit (or the end), read back as their value.
pub proof fn lemma_scan_rt(s: Seq<char>, i: int, acc: int, ds: Seq<char>)
    requires
        prefix_at(s, i, ds),
        all_digits(ds),
        acc >= 0,
        acc * pow10(ds.len() as nat) + dec_value(ds) <= 0xFFFF_FFFF,
        i + ds.len() >= s.len() || !is_digit(s[i + ds.len()]),
    ensures
        sp_scan(s, i, acc) == Some((acc * pow10(ds.len() as nat) + dec_value(ds), i + ds.len())),
    decreases ds.len(),
{
    lemma_dec_value_bound(ds);
    if ds.len() == 0 {
        assert(pow10(0nat) == 1);
    } else {
        let ds2 = ds.subrange(1, ds.len() as int);
        assert(ds =~= seq![ds[0]] + ds2);
        lemma_split(s, i, seq![ds[0]], ds2);
        assert(s[i] == ds[0]) by {
            assert(s.subrange(i, i + 1)[0] == s[i]);
        }
        assert(all_digits(ds2));
        lemma_dec_value_front(ds);
        lemma_dec_value_bound(ds2);
        let d0 = digit_val(ds[0]);
        let a2 = acc * 10 + d0;
        let l1 = (ds.len() - 1) as nat;
        assert(pow10(ds.len() as nat) == 10 * pow10(l1));
        assert(a2 * pow10(l1) == acc * pow10(ds.len() as nat) + d0 * pow10(l1)) by (nonlinear_arith)
            requires
                a2 == acc * 10 + d0,
                pow10(ds.len() as nat) == 10 * pow10(l1),
        ;
        assert(a2 * pow10(l1) + dec_value(ds2) == acc * pow10(ds.len() as nat) + dec_value(ds));
        lemma_pow10_monotone(0, l1);
        assert(a2 <= a2 * pow10(l1)) by (nonlinear_arith)
            requires
                a2 >= 0,
                pow10(l1) >= 1,
        ;
        assert(dec_value(ds2) >= 0);
        assert(a2 <= 0xFFFF_FFFF);
        lemma_scan_rt(s, i + 1, a2, ds2);
    }
}

/// An unsigned number written canonically reads back as itself.
pub proof fn lemma_u_rt(s: Seq<char>, i: int, n: nat)
    requires
        prefix_at(s, i, dec_digits(n)),
        n <= 0xFFFF_FFFF,
        i + dec_digits(n).len() >= s.len() || !is_digit(s[i + dec_digits(n).len()]),
    ensures
        sp_parse_u(s, i) == Some((n as int, i + dec_digits(n).len())),
{
    lemma_dec_digits_value(n);
    assert(s[i] == dec_digits(n)[0]) by {
        assert(s.subrange(i, i + dec_digits(n).len() as int)[0] == s[i]);
    }
    lemma_scan_rt(s, i, 0, dec_digits(n));
}

/// A signed number written by `enc_i32` reads back as itself.
pub proof fn lemma_i32_rt(s: Seq<char>, i: int, v: int)
    requires
        -2147483648 <= v <= 2147483647,
        prefix_at(s, i, enc_i32(v)),
        i + enc_i32(v).len() >= s.len() || !is_digit(s[i + enc_i32(v).len()]),
    ensures
        sp_parse_i32(s, i) == Some((v, i + enc_i32(v).len())),
{
    if v < 0 {
        lemma_split(s, i, seq!['-'], dec_digits((-v) as nat));
        assert(s[i] == '-') by {
            assert(s.subrange(i, i + 1)[0] == s[i]);
        }
        lemma_u_rt(s, i + 1, (-v) as nat);
    } else {
        lemma_dec_digits_value(v as nat);
        assert(s[i] == dec_digits(v as nat)[0]) by {
            assert(s.subrange(i, i + enc_i32(v).len() as int)[0] == s[i]);
        }
        lemma_u_rt(s, i, v as nat);
    }
}

/// Writes a signed decimal integer value.
pub fn push_i32(out: &mut String, v: i32)
    ensures
        final(out)@ == old(out)@ + enc_i32(v as int),
{
    if v < 0 {
        push_char(out, '-');
        let mag: u128 = (-(v as i64)) as u128;
        crate::digits::push_dec(out, mag);
        proof {
            assert(final(out)@ =~= old(out)@ + enc_i32(v as int));
        }
    } else {
        crate::digits::push_dec(out, v as u128);
    }
}

/// Scans a run of digits left to right, accumulating their value.
fn scan_exec(s: &str, i: usize, acc: u64) -> (r: Option<(u64, usize)>)
    requires
        i <= s@.len(),
        acc <= 0xFFFF_FFFF,
    ensures
        r matches Some(p) ==> sp_scan(s@, i as int, acc as int) == Some(
            (p.0 as int, p.1 as int),
        ) && p.0 <= 0xFFFF_FFFF && p.1 <= s@.len(),
        r is None ==> sp_scan(s@, i as int, acc as int) is None,
    decreases s@.len() - i,
{
    let n = s.unicode_len();
    if i < n {
        let c = s.get_char(i);
        if crate::digits::digit(c) {
            let d = crate::digits::digit_val_of(c);
            let a2: u64 = acc * 10 + (d as u64);
            if a2 > 0xFFFF_FFFF {
                return None;
            }
            return scan_exec(s, i + 1, a2);
        }
    }
    Some((acc, i))
}

/// Reads a signed decimal number within the 32-bit range.
pub fn parse_i32(s: &str, i: usize) -> (r: Option<(i32, usize)>)
    ensures
        r matches Some(p) ==> sp_parse_i32(s@, i as int) == Some((p.0 as int, p.1 as int)) && p.1
            <= s@.len(),
        r is None ==> sp_parse_i32(s@, i as int) is None,
{
    let n = s.unicode_len();
    let neg = i < n && s.get_char(i) == '-';
    let start = if neg {
        i + 1
    } else {
        i
    };
    if start >= n || !crate::digits::digit(s.get_char(start)) {
        return None;
    }
    let Some((acc, j)) = scan_exec(s, start, 0) else { return None };
    if neg {
        if acc > 2147483648 {
            return None;
        }
        let m: i64 = -(acc as i64);
        Some((m as i32, j))
    } else {
        if acc > 2147483647 {
            return None;
        }
        Some((acc as i32, j))
    }
}

/// The comma-separated items of an integer array.
pub open spec fn enc_arr_items(vs: Seq<i32>) -> Seq<char>
    decreases vs.len(),
{
    if vs.len() == 0 {
        Seq::empty()
    } else if vs.len() == 1 {
        enc_i32(vs[0] as int)
    } else {
        enc_i32(vs[0] as int) + (seq![','] + enc_arr_items(vs.subrange(1, vs.len() as int)))
    }
}

/// A bracketed integer array value.
pub open spec fn enc_arr_i32(vs: Seq<i32>) -> Seq<char> {
    seq!['['] + enc_arr_items(vs) + seq![']']
}

/// Reads integer items separated by commas, up to and over the closing
/// bracket.
pub open spec fn sp_arr_items(s: Seq<char>, i: int) -> Option<(Seq<i32>, int)>
    decreases s.len() - i,
{
    match sp_parse_i32(s, i) {
        None => None,
        Some((v, j)) => if !(-2147483648 <= v <= 2147483647) || j <= i || j >= s.len() {
            None
        } else if s[j] == ']' {
            Some((seq![v as i32], j + 1))
        } else if s[j] == ',' {
            match sp_arr_items(s, j + 1) {
                None => None,
                Some((vs, k)) => Some((seq![v as i32] + vs, k)),
            }
        } else {
            None
        },
    }
}

/// Reads a bracketed integer array value.
pub open spec fn sp_parse_arr(s: Seq<char>, i: int) -> Option<(Seq<i32>, int)> {
    if !(0 <= i < s.len()) || s[i] != '[' {
        None
    } else if i + 1 < s.len() && s[i + 1] == ']' {
        Some((Seq::empty(), i + 2))
    } else {
        sp_arr_items(s, i + 1)
    }
}

/// Array items written with commas and a closing bracket read back as
/// themselves.
pub proof fn lemma_arr_items_rt(s: Seq<char>, i: int, vs: Seq<i32>)
    requires
        vs.len() >= 1,
        prefix_at(s, i, enc_arr_items(vs) + seq![']']),
    ensures
        sp_arr_items(s, i) == Some((vs, i + enc_arr_items(vs).len() + 1)),
    decreases vs.len(),
{
    crate::digits::lemma_dec_digits_value(
        if vs[0] < 0 {
            (-vs[0]) as nat
        } else {
            vs[0] as nat
        },
    );
    if vs.len() == 1 {
        assert(enc_arr_items(vs) == enc_i32(vs[0] as int));
        lemma_split(s, i, enc_i32(vs[0] as int), seq![']']);
        let j = i + enc_i32(vs[0] as int).len();
        assert(s[j] == ']') by {
            assert(s.subrange(j, j + 1)[0] == s[j]);
        }
        lemma_i32_rt(s, i, vs[0] as int);
        assert(seq![vs[0]] =~= vs);
    } else {
        let vs2 = vs.subrange(1, vs.len() as int);
        assert(enc_arr_items(vs) == enc_i32(vs[0] as int) + (seq![','] + enc_arr_items(vs2)));
        assert((enc_i32(vs[0] as int) + (seq![','] + enc_arr_items(vs2))) + seq![']'] =~= enc_i32(
            vs[0] as int,
        ) + (seq![','] + (enc_arr_items(vs2) + seq![']'])));
        lemma_split(s, i, enc_i32(vs[0] as int), seq![','] + (enc_arr_items(vs2) + seq![']']));
        let j = i + enc_i32(vs[0] as int).len();
        lemma_split(s, j, seq![','], enc_arr_items(vs2) + seq![']']);
        assert(s[j] == ',') by {
            assert(s.subrange(j, j + 1)[0] == s[j]);
        }
        lemma_i32_rt(s, i, vs[0] as int);
        lemma_arr_items_rt(s, j + 1, vs2);
        assert(seq![vs[0]] + vs2 =~= vs);
    }
}

/// An array written by `enc_arr_i32` reads back as itself.
pub proof fn lemma_arr_rt(s: Seq<char>, i: int, vs: Seq<i32>)
    requires
        prefix_at(s, i, enc_arr_i32(vs)),
    ensures
        sp_parse_arr(s, i) == Some((vs, i + enc_arr_i32(vs).len() as int)),
{
    assert(enc_arr_i32(vs) =~= seq!['['] + (enc_arr_items(vs) + seq![']']));
    lemma_split(s, i, seq!['['], enc_arr_items(vs) + seq![']']);
    assert(s[i] == '[') by {
        assert(s.subrange(i, i + 1)[0] == s[i]);
    }
    if vs.len() == 0 {
        assert(enc_arr_items(vs) + seq![']'] =~= seq![']']);
        assert(s[i + 1] == ']') by {
            assert(s.subrange(i + 1, i + 2)[0] == s[i + 1]);
        }
    } else {
        crate::digits::lemma_dec_digits_value(
            if vs[0] < 0 {
                (-vs[0]) as nat
            } else {
                vs[0] as nat
            },
        );
        let body = enc_arr_items(vs) + seq![']'];
        assert(enc_arr_items(vs)[0] == enc_i32(vs[0] as int)[0]);
        assert(s[i + 1] == enc_i32(vs[0] as int)[0]) by {
            assert(s.subrange(i + 1, i + 1 + body.len() as int)[0] == s[i + 1]);
        }
        assert(s[i + 1] != ']');
        lemma_arr_items_rt(s, i + 1, vs);
    }
}

/// Writes the items of an integer array from index `k` on.
pub fn push_arr_items(out: &mut String, vs: &Vec<i32>, k: usize)
    requires
        k <= vs@.len(),
    ensures
        final(out)@ == old(out)@ + enc_arr_items(vs@.subrange(k as int, vs@.len() as int)),
    decreases vs@.len() - k,
{
    let ghost tail = vs@.subrange(k as int, vs@.len() as int);
    if k < vs.len() {
        push_i32(out, vs[k]);
        if k + 1 < vs.len() {
            push_char(out, ',');
            push_arr_items(out, vs, k + 1);
            proof {
                assert(tail.subrange(1, tail.len() as int) =~= vs@.subrange(
                    k + 1 as int,
                    vs@.len() as int,
                ));
                assert(final(out)@ =~= old(out)@ + enc_arr_items(tail));
            }
        } else {
            proof {
                assert(tail.len() == 1);
                assert(final(out)@ =~= old(out)@ + enc_arr_items(tail));
            }
        }
    } else {
        proof {
            assert(tail =~= Seq::<i32>::empty());
            assert(final(out)@ =~= old(out)@ + enc_arr_items(tail));
        }
    }
}

/// Writes a bracketed integer array value.
pub fn push_arr_i32(out: &mut String, vs: &Vec<i32>)
    ensures
        final(out)@ == old(out)@ + enc_arr_i32(vs@),
{
    push_char(out, '[');
    push_arr_items(out, vs, 0);
    push_char(out, ']');
    proof {
        assert(vs@.subrange(0, vs@.len() as int) =~= vs@);
        assert(final(out)@ =~= old(out)@ + enc_arr_i32(vs@));
    }
}

/// Reads integer items separated by commas, pushing them onto `acc`.
fn parse_arr_items(s: &str, i: usize, acc: &mut Vec<i32>) -> (r: Option<usize>)
    ensures
        r matches Some(j) ==> sp_arr_items(s@, i as int) matches Some(p) && final(acc)@ == old(
            acc,
        )@ + p.0 && p.1 == j as int,
        r is None ==> sp_arr_items(s@, i as int) is None,
    decreases s@.len() - i,
{
    let n = s.unicode_len();
    let Some((v, j)) = parse_i32(s, i) else { return None };
    if j <= i || j >= n {
        return None;
    }
    let c = s.get_char(j);
    if c == ']' {
        acc.push(v);
        proof {
            assert(final(acc)@ =~= old(acc)@ + seq![v]);
        }
        Some(j + 1)
    } else if c == ',' {
        acc.push(v);
        let r = parse_arr_items(s, j + 1, acc);
        proof {
            if r is Some {
                let p = sp_arr_items(s@, j + 1 as int).unwrap();
                assert(final(acc)@ =~= old(acc)@ + (seq![v] + p.0));
            }
        }
        r
    } else {
        None
    }
}

/// Reads a bracketed integer array value.
pub fn parse_arr_i32(s: &str, i: usize) -> (r: Option<(Vec<i32>, usize)>)
    ensures
        r matches Some(p) ==> sp_parse_arr(s@, i as int) == Some((p.0@, p.1 as int)) && p.1
            <= s@.len(),
        r is None ==> sp_parse_arr(s@, i as int) is None,
{
    let n = s.unicode_len();
    if i >= n {
        return None;
    }
    if s.get_char(i) != '[' {
        return None;
    }
    if i + 1 < n && s.get_char(i + 1) == ']' {
        let empty: Vec<i32> = Vec::new();
        proof {
            assert(empty@ =~= Seq::<i32>::empty());
        }
        return Some((empty, i + 2));
    }
    let mut acc: Vec<i32> = Vec::new();
    match parse_arr_items(s, i + 1, &mut acc) {
        Some(j) => {
            proof {
                let p = sp_arr_items(s@, i + 1 as int).unwrap();
                assert(acc@ =~= Seq::<i32>::empty() + p.0);
                assert(p.1 <= s@.len()) by {
                    lemma_arr_items_pos(s@, i + 1 as int);
                }
            }
            Some((acc, j))
        },
        None => None,
    }
}

/// A successful item read never runs past the text.
proof fn lemma_arr_items_pos(s: Seq<char>, i: int)
    ensures
        sp_arr_items(s, i) matches Some(p) ==> p.1 <= s.len(),
    decreases s.len() - i,
{
    match sp_parse_i32(s, i) {
        None => {},
        Some((v, j)) => {
            if -2147483648 <= v <= 2147483647 && j > i && j < s.len() && s[j] == ','
                && !(s[j] == ']') {
                lemma_arr_items_pos(s, j + 1);
            }
        },
    }
}

// ------------------------------------------------------------------
// keyed fields
// ------------------------------------------------------------------

/// A key fragment followed by a quoted string value.
pub open spec fn sp_field_str(s: Seq<char>, i: int, key: Seq<char>) -> Option<(Seq<char>, int)> {
    match sp_expect(s, i, key) {
        Some(j) => sp_parse_string(s, j),
        None => None,
    }
}

/// A key fragment followed by a boolean value.
pub open spec fn sp_field_bool(s: Seq<char>, i: int, key: Seq<char>) -> Option<(bool, int)> {
    match sp_expect(s, i, key) {
        Some(j) => sp_parse_bool(s, j),
        None => None,
    }
}

/// A key fragment followed by an optional string value.
pub open spec fn sp_field_opt(s: Seq<char>, i: int, key: Seq<char>) -> Option<
    (Option<Seq<char>>, int),
> {
    match sp_expect(s, i, key) {
        Some(j) => sp_parse_opt_string(s, j),
        None => None,
    }
}

/// An optional integer: `null` when absent, a signed number when present.
pub open spec fn enc_opt_i32(o: Option<i32>) -> Seq<char> {
    match o {
        None => "null"@,
        Some(v) => enc_i32(v as int),
    }
}

/// Reads an optional integer value.
pub open spec fn sp_parse_opt_i32(s: Seq<char>, i: int) -> Option<(Option<i32>, int)> {
    if sp_expect(s, i, "null"@) is Some {
        Some((None, sp_expect(s, i, "null"@).unwrap()))
    } else {
        match sp_parse_i32(s, i) {
            Some((v, j)) => if -2147483648 <= v <= 2147483647 {
                Some((Some(v as i32), j))
            } else {
                None
            },
            None => None,
        }
    }
}

/// An optional integer written by `enc_opt_i32` reads back as itself.
pub proof fn lemma_opt_i32_rt(s: Seq<char>, i: int, o: Option<i32>)
    requires
        prefix_at(s, i, enc_opt_i32(o)),
        i + enc_opt_i32(o).len() >= s.len() || !is_digit(s[i + enc_opt_i32(o).len()]),
    ensures
        sp_parse_opt_i32(s, i) == Some((o, i + enc_opt_i32(o).len() as int)),
{
    reveal_strlit("null");
    match o {
        None => {},
        Some(v) => {
            lemma_dec_digits_value(
                if v < 0 {
                    (-v) as nat
                } else {
                    v as nat
                },
            );
            assert(s[i] == enc_i32(v as int)[0]) by {
                assert(s.subrange(i, i + enc_i32(v as int).len() as int)[0] == s[i]);
            }
            assert(!prefix_at(s, i, "null"@)) by {
                if prefix_at(s, i, "null"@) {
                    assert(s.subrange(i, i + "null"@.len() as int)[0] == s[i]);
                }
            }
            lemma_i32_rt(s, i, v as int);
        },
    }
}

/// Writes an optional integer value.
pub fn push_opt_i32(out: &mut String, o: &Option<i32>)
    ensures
        final(out)@ == old(out)@ + enc_opt_i32(*o),
{
    match o {
        None => out.append("null"),
        Some(v) => push_i32(out, *v),
    }
}

/// Reads an optional integer value.
pub fn parse_opt_i32(s: &str, i: usize) -> (r: Option<(Option<i32>, usize)>)
    ensures
        r matches Some(p) ==> sp_parse_opt_i32(s@, i as int) == Some((p.0, p.1 as int)) && p.1
            <= s@.len(),
        r is None ==> sp_parse_opt_i32(s@, i as int) is None,
{
    match expect_lit(s, i, "null") {
        Some(j) => Some((None, j)),
        None => match parse_i32(s, i) {
            Some((v, j)) => Some((Some(v), j)),
            None => None,
        },
    }
}

/// A key and string value written together read back as themselves.
pub proof fn lemma_field_str_rt(s: Seq<char>, i: int, key: Seq<char>, v: Seq<char>)
    requires
        prefix_at(s, i, key + enc_string(v)),
    ensures
        sp_field_str(s, i, key) == Some((v, i + key.len() + enc_string(v).len())),
{
    lemma_split(s, i, key, enc_string(v));
    lemma_string_rt(s, i + key.len(), v);
}

/// A key and boolean value written together read back as themselves.
pub proof fn lemma_field_bool_rt(s: Seq<char>, i: int, key: Seq<char>, b: bool)
    requires
        prefix_at(s, i, key + enc_bool(b)),
    ensures
        sp_field_bool(s, i, key) == Some((b, i + key.len() + enc_bool(b).len())),
{
    lemma_split(s, i, key, enc_bool(b));
    lemma_bool_rt(s, i + key.len(), b);
}

/// A key and optional string value written together read back as themselves.
pub proof fn lemma_field_opt_rt(s: Seq<char>, i: int, key: Seq<char>, o: Option<Seq<char>>)
    requires
        prefix_at(s, i, key + enc_opt_string(o)),
    ensures
        sp_field_opt(s, i, key) == Some((o, i + key.len() + enc_opt_string(o).len())),
{
    lemma_split(s, i, key, enc_opt_string(o));
    lemma_opt_string_rt(s, i + key.len(), o);
}

/// A key fragment followed by a signed integer value.
pub open spec fn sp_field_i32(s: Seq<char>, i: int, key: Seq<char>) -> Option<(int, int)> {
    match sp_expect(s, i, key) {
        Some(j) => sp_parse_i32(s, j),
        None => None,
    }
}

/// A key fragment followed by an optional integer value.
pub open spec fn sp_field_opt_i32(s: Seq<char>, i: int, key: Seq<char>) -> Option<
    (Option<i32>, int),
> {
    match sp_expect(s, i, key) {
        Some(j) => sp_parse_opt_i32(s, j),
        None => None,
    }
}

/// A key fragment followed by an integer array value.
pub open spec fn sp_field_arr(s: Seq<char>, i: int, key: Seq<char>) -> Option<(Seq<i32>, int)> {
    match sp_expect(s, i, key) {
        Some(j) => sp_parse_arr(s, j),
        None => None,
    }
}

/// A key and integer value written together read back as themselves.
pub proof fn lemma_field_i32_rt(s: Seq<char>, i: int, key: Seq<char>, v: i32)
    requires
        prefix_at(s, i, key + enc_i32(v as int)),
        i + key.len() + enc_i32(v as int).len() >= s.len() || !is_digit(
            s[i + key.len() + enc_i32(v as int).len()],
        ),
    ensures
        sp_field_i32(s, i, key) == Some((v as int, i + key.len() + enc_i32(v as int).len())),
{
    lemma_split(s, i, key, enc_i32(v as int));
    lemma_i32_rt(s, i + key.len(), v as int);
}

/// A key and optional integer value written together read back as themselves.
pub proof fn lemma_field_opt_i32_rt(s: Seq<char>, i: int, key: Seq<char>, o: Option<i32>)
    requires
        prefix_at(s, i, key + enc_opt_i32(o)),
        i + key.len() + enc_opt_i32(o).len() >= s.len() || !is_digit(
            s[i + key.len() + enc_opt_i32(o).len()],
        ),
    ensures
        sp_field_opt_i32(s, i, key) == Some((o, i + key.len() + enc_opt_i32(o).len())),
{
    lemma_split(s, i, key, enc_opt_i32(o));
    lemma_opt_i32_rt(s, i + key.len(), o);
}

/// A key and array value written together read back as themselves.
pub proof fn lemma_field_arr_rt(s: Seq<char>, i: int, key: Seq<char>, vs: Seq<i32>)
    requires
        prefix_at(s, i, key + enc_arr_i32(vs)),
    ensures
        sp_field_arr(s, i, key) == Some((vs, i + key.len() + enc_arr_i32(vs).len())),
{
    lemma_split(s, i, key, enc_arr_i32(vs));
    lemma_arr_rt(s, i + key.len(), vs);
}

/// Reads a key fragment and its signed integer value.
pub fn parse_field_i32(s: &str, i: usize, key: &str) -> (r: Option<(i32, usize)>)
    ensures
        r matches Some(p) ==> sp_field_i32(s@, i as int, key@) == Some(
            (p.0 as int, p.1 as int),
        ) && p.1 <= s@.len(),
        r is None ==> sp_field_i32(s@, i as int, key@) is None,
{
    match expect_lit(s, i, key) {
        Some(j) => parse_i32(s, j),
        None => None,
    }
}

/// Reads a key fragment and its optional integer value.
pub fn parse_field_opt_i32(s: &str, i: usize, key: &str) -> (r: Option<(Option<i32>, usize)>)
    ensures
        r matches Some(p) ==> sp_field_opt_i32(s@, i as int, key@) == Some((p.0, p.1 as int))
            && p.1 <= s@.len(),
        r is None ==> sp_field_opt_i32(s@, i as int, key@) is None,
{
    match expect_lit(s, i, key) {
        Some(j) => parse_opt_i32(s, j),
        None => None,
    }
}

/// Reads a key fragment and its integer array value.
pub fn parse_field_arr(s: &str, i: usize, key: &str) -> (r: Option<(Vec<i32>, usize)>)
    ensures
        r matches Some(p) ==> sp_field_arr(s@, i as int, key@) == Some((p.0@, p.1 as int)) && p.1
            <= s@.len(),
        r is None ==> sp_field_arr(s@, i as int, key@) is None,
{
    match expect_lit(s, i, key) {
        Some(j) => parse_arr_i32(s, j),
        None => None,
    }
}

/// Reads a key fragment and its quoted string value.
pub fn parse_field_str(s: &str, i: usize, key: &str) -> (r: Option<(String, usize)>)
    ensures
        r matches Some(p) ==> sp_field_str(s@, i as int, key@) == Some((p.0@, p.1 as int)) && p.1
            <= s@.len(),
        r is None ==> sp_field_str(s@, i as int, key@) is None,
{
    match expect_lit(s, i, key) {
        Some(j) => parse_string(s, j),
        None => None,
    }
}

/// Reads a key fragment and its boolean value.
pub fn parse_field_bool(s: &str, i: usize, key: &str) -> (r: Option<(bool, usize)>)
    ensures
        r matches Some(p) ==> sp_field_bool(s@, i as int, key@) == Some((p.0, p.1 as int)) && p.1
            <= s@.len(),
        r is None ==> sp_field_bool(s@, i as int, key@) is None,
{
    match expect_lit(s, i, key) {
        Some(j) => parse_bool(s, j),
        None => None,
    }
}

/// Reads a key fragment and its optional string value.
pub fn parse_field_opt(s: &str, i: usize, key: &str) -> (r: Option<(Option<String>, usize)>)
    ensures
        r matches Some(p) ==> sp_field_opt(s@, i as int, key@) == Some(
            (
                match p.0 {
                    Some(v) => Some(v@),
                    None => None,
                },
                p.1 as int,
            ),
        ) && p.1 <= s@.len(),
        r is None ==> sp_field_opt(s@, i as int, key@) is None,
{
    match expect_lit(s, i, key) {
        Some(j) => parse_opt_string(s, j),
        None => None,
    }
}

} // verus!
