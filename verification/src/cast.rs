//! Value type-inference: a total, deterministic mapping from an untyped
//! filter value to the SQL cast suffix appended after its placeholder.

use crate::text::{
    chars_eq_str, chars_to_string, digit_char, hex_char, is_digit_char, is_hex_char,
    lemma_split_nonempty, lower_char, lower_chars, split_chars, split_spec, starts_with_chars,
    starts_with_spec, str_to_chars, subrange_chars, trim_chars, trim_spec,
};
use vstd::prelude::*;

verus! {

// ---------------------------------------------------------------------------
// Trusted recognisers for formats whose grammars live in outside crates.
// ---------------------------------------------------------------------------
/// Whether the JSON parser accepts the string.
pub uninterp spec fn json_parses(s: Seq<char>) -> bool;

/// Relies on `serde_json::from_str::<serde_json::Value>`: acceptance depends
/// on the characters alone.
#[verifier::external_body]
fn json_is_valid(s: &str) -> (r: bool)
    ensures
        r == json_parses(s@),
{
    serde_json::from_str::<serde_json::Value>(s).is_ok()
}

/// Some character of `s` is `c`.
pub open spec fn has_char(s: Seq<char>, c: char) -> bool {
    exists|i: int| 0 <= i < s.len() && s[i] == c
}

/// Whether `YYYY-MM-DD HH:MM:SS` date-time parsing accepts the string.
pub uninterp spec fn naive_datetime_parses(s: Seq<char>) -> bool;

/// Relies on `chrono::NaiveDateTime::parse_from_str` with format
/// `%Y-%m-%d %H:%M:%S`: the format's literal `-` and `:` separators appear in
/// every accepted string.
#[verifier::external_body]
fn naive_datetime_valid(s: &str) -> (r: bool)
    ensures
        r == (has_char(s@, '-') && has_char(s@, ':') && naive_datetime_parses(s@)),
{
    chrono::NaiveDateTime::parse_from_str(s, "%Y-%m-%d %H:%M:%S").is_ok()
}

/// Whether `YYYY-MM-DD` date parsing accepts the string.
pub uninterp spec fn naive_date_parses(s: Seq<char>) -> bool;

/// Relies on `chrono::NaiveDate::parse_from_str` with format `%Y-%m-%d`: the
/// format's literal `-` separators appear in every accepted string.
#[verifier::external_body]
fn naive_date_valid(s: &str) -> (r: bool)
    ensures
        r == (has_char(s@, '-') && naive_date_parses(s@)),
{
    chrono::NaiveDate::parse_from_str(s, "%Y-%m-%d").is_ok()
}

/// Whether `HH:MM:SS` time parsing accepts the string.
pub uninterp spec fn naive_time_parses(s: Seq<char>) -> bool;

/// Relies on `chrono::NaiveTime::parse_from_str` with format `%H:%M:%S`: the
/// format's literal `:` separators appear in every accepted string.
#[verifier::external_body]
fn naive_time_valid(s: &str) -> (r: bool)
    ensures
        r == (has_char(s@, ':') && naive_time_parses(s@)),
{
    chrono::NaiveTime::parse_from_str(s, "%H:%M:%S").is_ok()
}

/// Whether RFC 3339 date-time parsing accepts the string.
pub uninterp spec fn rfc3339_parses(s: Seq<char>) -> bool;

/// Relies on `chrono::DateTime::parse_from_rfc3339`: an RFC 3339 date-time
/// always carries `-` date separators and `:` time separators.
#[verifier::external_body]
fn rfc3339_valid(s: &str) -> (r: bool)
    ensures
        r == (has_char(s@, '-') && has_char(s@, ':') && rfc3339_parses(s@)),
{
    chrono::DateTime::parse_from_rfc3339(s).is_ok()
}

/// Whether UUID parsing accepts the string.
pub uninterp spec fn uuid_parses(s: Seq<char>) -> bool;

/// Relies on `sqlx::types::Uuid::parse_str`: it accepts only the simple,
/// hyphenated, braced and URN forms, whose lengths are 32, 36, 38 and 45.
#[verifier::external_body]
fn uuid_valid(s: &str) -> (r: bool)
    ensures
        r == (32 <= s@.len() <= 45 && uuid_parses(s@)),
{
    sqlx::types::Uuid::parse_str(s).is_ok()
}

// ---------------------------------------------------------------------------
// Integers.
// ---------------------------------------------------------------------------
/// Every character is an ASCII digit.
pub open spec fn all_digits(s: Seq<char>) -> bool {
    forall|i: int| 0 <= i < s.len() ==> is_digit_char(#[trigger] s[i])
}

/// The numeric value of a digit string.
pub open spec fn digits_value(s: Seq<char>) -> int
    decreases s.len(),
{
    if s.len() == 0 {
        0
    } else {
        digits_value(s.drop_last()) * 10 + (s.last() as int - 48)
    }
}

/// The shape of a decimal integer literal: optional sign, then digits.
pub open spec fn is_int_literal(s: Seq<char>) -> bool {
    if s.len() == 0 {
        false
    } else if s[0] == '+' || s[0] == '-' {
        s.len() >= 2 && all_digits(s.drop_first())
    } else {
        all_digits(s)
    }
}

/// The value of a decimal integer literal.
pub open spec fn int_literal_value(s: Seq<char>) -> int {
    if s.len() > 0 && s[0] == '-' {
        -digits_value(s.drop_first())
    } else if s.len() > 0 && s[0] == '+' {
        digits_value(s.drop_first())
    } else {
        digits_value(s)
    }
}

/// The narrowest machine integer width that holds the literal: 16, 32 or 64
/// bits, or 0 when the string is no integer literal or overflows 64 bits.
pub open spec fn int_width(s: Seq<char>) -> int {
    if !is_int_literal(s) {
        0
    } else {
        let x = int_literal_value(s);
        if -32768 <= x <= 32767 {
            16
        } else if -2147483648 <= x <= 2147483647 {
            32
        } else if -9223372036854775808 <= x <= 9223372036854775807 {
            64
        } else {
            0
        }
    }
}

/// Executable check matching `is_int_literal`.
fn int_literal_chars(v: &Vec<char>) -> (r: bool)
    ensures
        r == is_int_literal(v@),
{
    if v.len() == 0 {
        return false;
    }
    let c0 = v[0];
    let signed = c0 == '+' || c0 == '-';
    let start: usize = if signed {
        1
    } else {
        0
    };
    if v.len() == start {
        return false;
    }
    let ghost digs = v@.subrange(start as int, v@.len() as int);
    proof {
        if start == 1 {
            assert(v@.drop_first() =~= digs);
        } else {
            assert(digs =~= v@);
        }
    }
    let mut i: usize = start;
    while i < v.len()
        invariant
            start <= i <= v@.len(),
            start <= 1,
            v@.len() > start,
            start == 1 <==> (v@[0] == '+' || v@[0] == '-'),
            digs == v@.subrange(start as int, v@.len() as int),
            start == 1 ==> v@.drop_first() == digs,
            start == 0 ==> digs == v@,
            forall|j: int| 0 <= j < i - start ==> is_digit_char(#[trigger] digs[j]),
        decreases v@.len() - i,
    {
        if !digit_char(v[i]) {
            assert(!is_digit_char(digs[i - start as int]));
            return false;
        }
        i += 1;
    }
    assert(all_digits(digs));
    true
}

/// Classifies a (possibly signed) digit vector. Returns the narrowest width
/// as `int_width` gives it.
fn classify_int(v: &Vec<char>) -> (r: u8)
    ensures
        r as int == int_width(v@),
{
    if v.len() == 0 {
        return 0;
    }
    let c0 = v[0];
    let signed = c0 == '+' || c0 == '-';
    let neg = c0 == '-';
    let start: usize = if signed {
        1
    } else {
        0
    };
    if v.len() == start {
        return 0;
    }
    let ghost digs = v@.subrange(start as int, v@.len() as int);
    // check all digits
    let mut i: usize = start;
    while i < v.len()
        invariant
            start <= i <= v@.len(),
            start <= 1,
            v@.len() > start,
            start == 1 <==> (v@[0] == '+' || v@[0] == '-'),
            digs == v@.subrange(start as int, v@.len() as int),
            forall|j: int| 0 <= j < i - start ==> is_digit_char(#[trigger] digs[j]),
        decreases v@.len() - i,
    {
        if !digit_char(v[i]) {
            assert(!is_digit_char(digs[i - start as int]));
            assert(!all_digits(digs));
            proof {
                if start == 1 {
                    assert(v@.drop_first() =~= digs);
                } else {
                    assert(digs =~= v@);
                }
            }
            return 0;
        }
        i += 1;
    }
    assert(all_digits(digs));
    proof {
        if start == 1 {
            assert(v@.drop_first() =~= digs);
        } else {
            assert(digs =~= v@);
        }
        assert(is_int_literal(v@));
    }

    // accumulate the magnitude, detecting 64-bit overflow
    let cap: u64 = 9223372036854775807;
    let mut mag: u64 = 0;
    let mut big = false;
    let mut k: usize = start;
    while k < v.len()
        invariant
            start <= k <= v@.len(),
            start <= 1,
            v@.len() > start,
            start == 1 <==> (v@[0] == '+' || v@[0] == '-'),
            digs == v@.subrange(start as int, v@.len() as int),
            all_digits(digs),
            cap == 9223372036854775807u64,
            !big ==> mag as int == digits_value(digs.subrange(0, k - start as int)) && mag as int
                <= cap + 2,
            big ==> digits_value(digs.subrange(0, k - start as int)) > cap as int + 1,
        decreases v@.len() - k,
    {
        let ghost pre = digs.subrange(0, k - start as int);
        let ghost post = digs.subrange(0, k + 1 - start as int);
        let cu = #[verifier::truncate] (v[k] as u32);
        proof {
            assert(post.drop_last() =~= pre);
            assert(post.last() == digs[k - start as int]);
            assert(is_digit_char(digs[k - start as int]));
            assert(digits_value(post) == digits_value(pre) * 10 + (digs[k - start as int] as int
                - 48));
            assert(48 <= cu <= 57);
        }
        let d = cu - 48;
        if big {
        } else if mag > cap / 10 {
            big = true;
        } else {
            mag = mag * 10 + (d as u64);
        }
        k += 1;
    }
    proof {
        assert(digs.subrange(0, digs.len() as int) =~= digs);
    }

    if big {
        proof {
            if v@[0] == '-' {
                assert(int_literal_value(v@) == -digits_value(digs));
            }
        }
        return 0;
    }
    proof {
        if neg {
            assert(int_literal_value(v@) == -digits_value(digs));
        } else if signed {
            assert(int_literal_value(v@) == digits_value(digs));
        } else {
            assert(digs =~= v@);
        }
    }
    if neg {
        if mag <= 32768 {
            16
        } else if mag <= 2147483648 {
            32
        } else if mag <= 9223372036854775808 {
            64
        } else {
            0
        }
    } else {
        if mag <= 32767 {
            16
        } else if mag <= 2147483647 {
            32
        } else if mag <= 9223372036854775807 {
            64
        } else {
            0
        }
    }
}

// ---------------------------------------------------------------------------
// Floating-point literal syntax (the four-byte float parser's grammar, for
// already-lowercased input): optional sign, then `inf`, `infinity`, `nan`,
// or a mantissa with at most one dot and an optional signed exponent.
// ---------------------------------------------------------------------------
/// Exponent marker.
pub open spec fn is_exp_char(c: char) -> bool {
    c == 'e' || c == 'E'
}

/// Index of the first exponent marker, or the length when there is none.
pub open spec fn find_exp(s: Seq<char>) -> int
    decreases s.len(),
{
    if s.len() == 0 {
        0
    } else if is_exp_char(s[0]) {
        0
    } else {
        1 + find_exp(s.drop_first())
    }
}

proof fn lemma_find_exp_at(s: Seq<char>, k: int)
    requires
        0 <= k <= s.len(),
        forall|j: int| 0 <= j < k ==> !is_exp_char(s[j]),
        k < s.len() ==> is_exp_char(s[k]),
    ensures
        find_exp(s) == k,
    decreases k,
{
    if k > 0 {
        lemma_find_exp_at(s.drop_first(), k - 1);
    }
}

/// At most one dot occurs.
pub open spec fn at_most_one_dot(m: Seq<char>) -> bool {
    forall|i: int, j: int| 0 <= i < j < m.len() ==> !(m[i] == '.' && m[j] == '.')
}

/// A mantissa: digits with at most one dot, and at least one digit.
pub open spec fn is_mantissa(m: Seq<char>) -> bool {
    &&& m.len() >= 1
    &&& forall|i: int| 0 <= i < m.len() ==> is_digit_char(#[trigger] m[i]) || m[i] == '.'
    &&& exists|i: int| 0 <= i < m.len() && is_digit_char(#[trigger] m[i])
    &&& at_most_one_dot(m)
}

/// A float literal body, after the optional leading sign.
pub open spec fn is_float_body(b: Seq<char>) -> bool {
    ||| b == "inf"@
    ||| b == "infinity"@
    ||| b == "nan"@
    ||| {
        let k = find_exp(b);
        if k == b.len() {
            is_mantissa(b)
        } else {
            is_mantissa(b.subrange(0, k)) && is_int_literal(b.subrange(k + 1, b.len() as int))
        }
    }
}

/// A float literal: optional sign, then a float body.
pub open spec fn is_float_literal(s: Seq<char>) -> bool {
    if s.len() > 0 && (s[0] == '+' || s[0] == '-') {
        is_float_body(s.drop_first())
    } else {
        is_float_body(s)
    }
}

/// Executable check matching `is_mantissa`.
fn mantissa_chars(m: &Vec<char>) -> (r: bool)
    ensures
        r == is_mantissa(m@),
{
    if m.len() == 0 {
        return false;
    }
    let mut saw_digit = false;
    let mut saw_dot = false;
    let mut i: usize = 0;
    while i < m.len()
        invariant
            i <= m@.len(),
            forall|j: int| 0 <= j < i ==> is_digit_char(#[trigger] m@[j]) || m@[j] == '.',
            saw_digit <==> (exists|j: int| 0 <= j < i && is_digit_char(#[trigger] m@[j])),
            saw_dot <==> (exists|j: int| 0 <= j < i && m@[j] == '.'),
            forall|a: int, b: int| 0 <= a < b < i ==> !(m@[a] == '.' && m@[b] == '.'),
        decreases m@.len() - i,
    {
        let c = m[i];
        if digit_char(c) {
            saw_digit = true;
        } else if c == '.' {
            if saw_dot {
                assert(!at_most_one_dot(m@)) by {
                    let a = choose|j: int| 0 <= j < i && m@[j] == '.';
                    assert(m@[a] == '.' && m@[i as int] == '.');
                }
                return false;
            }
            saw_dot = true;
        } else {
            assert(!(is_digit_char(m@[i as int]) || m@[i as int] == '.'));
            return false;
        }
        i += 1;
    }
    saw_digit
}

/// Executable check matching `is_float_body`.
fn float_body_chars(b: &Vec<char>) -> (r: bool)
    ensures
        r == is_float_body(b@),
{
    if chars_eq_str(b, "inf") || chars_eq_str(b, "infinity") || chars_eq_str(b, "nan") {
        return true;
    }
    let mut k: usize = 0;
    while k < b.len() && !(b[k] == 'e' || b[k] == 'E')
        invariant
            k <= b@.len(),
            forall|j: int| 0 <= j < k ==> !is_exp_char(b@[j]),
        decreases b@.len() - k,
    {
        k += 1;
    }
    proof {
        lemma_find_exp_at(b@, k as int);
    }
    if k == b.len() {
        mantissa_chars(b)
    } else {
        let mant = subrange_chars(b, 0, k);
        let exp = subrange_chars(b, k + 1, b.len());
        let ok = mantissa_chars(&mant) && int_literal_chars(&exp);
        ok
    }
}

/// Executable check matching `is_float_literal`.
fn float_literal_chars(v: &Vec<char>) -> (r: bool)
    ensures
        r == is_float_literal(v@),
{
    if v.len() > 0 && (v[0] == '+' || v[0] == '-') {
        let body = subrange_chars(v, 1, v.len());
        proof {
            assert(body@ =~= v@.drop_first());
        }
        float_body_chars(&body)
    } else {
        float_body_chars(v)
    }
}

// ---------------------------------------------------------------------------
// Network addresses.
// ---------------------------------------------------------------------------
/// A dotted-quad octet: one to three digits, no leading zero, value at most
/// 255.
pub open spec fn is_octet(p: Seq<char>) -> bool {
    &&& 1 <= p.len() <= 3
    &&& all_digits(p)
    &&& (p.len() == 1 || p[0] != '0')
    &&& digits_value(p) <= 255
}

/// A dotted-quad address: four octets.
pub open spec fn is_ipv4(s: Seq<char>) -> bool {
    let parts = split_spec(s, '.');
    parts.len() == 4 && (forall|i: int| 0 <= i < 4 ==> is_octet(#[trigger] parts[i]))
}

spec fn tenpow(n: nat) -> int
    decreases n,
{
    if n == 0 {
        1
    } else {
        10 * tenpow((n - 1) as nat)
    }
}

proof fn lemma_digits_value_bound(s: Seq<char>)
    requires
        all_digits(s),
    ensures
        0 <= digits_value(s) < tenpow(s.len()),
    decreases s.len(),
{
    if s.len() > 0 {
        assert(all_digits(s.drop_last()));
        lemma_digits_value_bound(s.drop_last());
    }
}

/// Executable check matching `is_octet`.
fn octet_chars(p: &Vec<char>) -> (r: bool)
    ensures
        r == is_octet(p@),
{
    if p.len() == 0 || p.len() > 3 {
        return false;
    }
    let mut i: usize = 0;
    while i < p.len()
        invariant
            i <= p@.len(),
            forall|j: int| 0 <= j < i ==> is_digit_char(#[trigger] p@[j]),
        decreases p@.len() - i,
    {
        if !digit_char(p[i]) {
            return false;
        }
        i += 1;
    }
    assert(all_digits(p@));
    if p.len() > 1 && p[0] == '0' {
        return false;
    }
    let mut val: u32 = 0;
    let mut k: usize = 0;
    while k < p.len()
        invariant
            k <= p@.len(),
            p@.len() <= 3,
            all_digits(p@),
            val as int == digits_value(p@.subrange(0, k as int)),
            val <= 999,
        decreases p@.len() - k,
    {
        let ghost pre = p@.subrange(0, k as int);
        let ghost post = p@.subrange(0, k + 1 as int);
        proof {
            assert(post.drop_last() =~= pre);
            assert(post.last() == p@[k as int]);
            assert(is_digit_char(p@[k as int]));
            assert(all_digits(pre));
            lemma_digits_value_bound(pre);
            if k >= 2 {
                assert(pre.len() == k);
            }
        }
        let cu = #[verifier::truncate] (p[k] as u32);
        assert(48 <= cu <= 57);
        proof {
            assert(tenpow(0) == 1);
            assert(tenpow(1) == 10);
            assert(tenpow(2) == 100);
            assert(pre.len() == k as nat && k <= 2);
            assert(digits_value(pre) < 100);
        }
        val = val * 10 + (cu - 48);
        k += 1;
    }
    proof {
        assert(p@.subrange(0, p@.len() as int) =~= p@);
    }
    val <= 255
}

/// Executable check matching `is_ipv4`.
pub fn ipv4_chars(v: &Vec<char>) -> (r: bool)
    ensures
        r == is_ipv4(v@),
{
    let parts = split_chars(v, '.');
    let ghost ps = split_spec(v@, '.');
    proof {
        assert(ps.len() == parts@.map_values(|p: Vec<char>| p@).len());
        assert(ps.len() == parts@.len());
    }
    if parts.len() != 4 {
        return false;
    }
    let mut i: usize = 0;
    while i < 4
        invariant
            i <= 4,
            ps == split_spec(v@, '.'),
            parts@.map_values(|p: Vec<char>| p@) == ps,
            parts@.len() == 4,
            forall|j: int| 0 <= j < i ==> is_octet(#[trigger] ps[j]),
        decreases 4 - i,
    {
        proof {
            assert(ps[i as int] == parts@.map_values(|p: Vec<char>| p@)[i as int]);
        }
        if !octet_chars(&parts[i]) {
            assert(!is_octet(ps[i as int]));
            return false;
        }
        i += 1;
    }
    true
}

/// A 16-bit group of an IPv6 address: one to four hexadecimal digits.
pub open spec fn is_hex_group(p: Seq<char>) -> bool {
    1 <= p.len() <= 4 && (forall|i: int| 0 <= i < p.len() ==> is_hex_char(#[trigger] p[i]))
}

/// All parts in `[from, to)` are hexadecimal groups.
pub open spec fn groups_all_hex(parts: Seq<Seq<char>>, from: int, to: int) -> bool {
    forall|i: int| from <= i < to ==> is_hex_group(#[trigger] parts[i])
}

/// No part in `[from, to)` is empty.
pub open spec fn no_empty(parts: Seq<Seq<char>>, from: int, to: int) -> bool {
    forall|i: int| from <= i < to ==> (#[trigger] parts[i]).len() > 0
}

/// The parts in `[from, to)` form a valid group tail: hexadecimal groups,
/// except that the final part may be an embedded dotted-quad address.
pub open spec fn tail_valid(parts: Seq<Seq<char>>, from: int, to: int) -> bool {
    from >= to || (groups_all_hex(parts, from, to - 1) && (is_hex_group(parts[to - 1]) || is_ipv4(
        parts[to - 1],
    )))
}

/// How many 16-bit groups the tail stands for; an embedded dotted-quad
/// counts as two.
pub open spec fn tail_count(parts: Seq<Seq<char>>, from: int, to: int) -> int {
    if from >= to {
        0
    } else if is_ipv4(parts[to - 1]) {
        to - from + 1
    } else {
        to - from
    }
}

/// An uncompressed address: eight groups in all.
pub open spec fn ipv6_no_compress(parts: Seq<Seq<char>>) -> bool {
    let n = parts.len() as int;
    no_empty(parts, 0, n) && tail_valid(parts, 0, n) && tail_count(parts, 0, n) == 8
}

/// A `::` between two non-empty runs of groups (one empty part at `k`).
pub open spec fn ipv6_mid(parts: Seq<Seq<char>>, k: int) -> bool {
    let n = parts.len() as int;
    &&& 1 <= k <= n - 2
    &&& parts[k].len() == 0
    &&& no_empty(parts, 0, k)
    &&& no_empty(parts, k + 1, n)
    &&& groups_all_hex(parts, 0, k)
    &&& tail_valid(parts, k + 1, n)
    &&& k + tail_count(parts, k + 1, n) <= 7
}

/// A leading `::` (two empty parts at the front).
pub open spec fn ipv6_lead(parts: Seq<Seq<char>>) -> bool {
    let n = parts.len() as int;
    &&& n >= 3
    &&& parts[0].len() == 0
    &&& parts[1].len() == 0
    &&& no_empty(parts, 2, n)
    &&& tail_valid(parts, 2, n)
    &&& tail_count(parts, 2, n) <= 7
}

/// A trailing `::` (two empty parts at the back).
pub open spec fn ipv6_trail(parts: Seq<Seq<char>>) -> bool {
    let n = parts.len() as int;
    &&& n >= 3
    &&& parts[n - 1].len() == 0
    &&& parts[n - 2].len() == 0
    &&& no_empty(parts, 0, n - 2)
    &&& groups_all_hex(parts, 0, n - 2)
    &&& n - 2 <= 7
}

/// The bare `::` address.
pub open spec fn ipv6_unspecified(parts: Seq<Seq<char>>) -> bool {
    parts.len() == 3 && parts[0].len() == 0 && parts[1].len() == 0 && parts[2].len() == 0
}

/// A colon-separated IPv6 address: eight groups, or one `::` standing for at
/// least one zero group, with an optional embedded dotted-quad at the end.
pub open spec fn is_ipv6(s: Seq<char>) -> bool {
    let parts = split_spec(s, ':');
    ||| ipv6_no_compress(parts)
    ||| exists|k: int| ipv6_mid(parts, k)
    ||| ipv6_lead(parts)
    ||| ipv6_trail(parts)
    ||| ipv6_unspecified(parts)
}

/// Executable check matching `is_hex_group`.
fn hex_group_chars(p: &Vec<char>) -> (r: bool)
    ensures
        r == is_hex_group(p@),
{
    if p.len() == 0 || p.len() > 4 {
        return false;
    }
    let mut i: usize = 0;
    while i < p.len()
        invariant
            i <= p@.len(),
            forall|j: int| 0 <= j < i ==> is_hex_char(#[trigger] p@[j]),
        decreases p@.len() - i,
    {
        if !hex_char(p[i]) {
            return false;
        }
        i += 1;
    }
    true
}

/// Checks `groups_all_hex` over a range.
fn hex_range_chars(parts: &Vec<Vec<char>>, from: usize, to: usize) -> (r: bool)
    requires
        from <= to <= parts@.len(),
    ensures
        r == groups_all_hex(parts@.map_values(|p: Vec<char>| p@), from as int, to as int),
{
    let ghost ps = parts@.map_values(|p: Vec<char>| p@);
    let mut i: usize = from;
    while i < to
        invariant
            from <= i <= to <= parts@.len(),
            ps == parts@.map_values(|p: Vec<char>| p@),
            forall|j: int| from <= j < i ==> is_hex_group(#[trigger] ps[j]),
        decreases to - i,
    {
        proof {
            assert(ps[i as int] == parts@[i as int]@);
        }
        if !hex_group_chars(&parts[i]) {
            assert(!is_hex_group(ps[i as int]));
            return false;
        }
        i += 1;
    }
    true
}

/// Checks `tail_valid` and computes `tail_count` over `[from, n)`.
fn tail_chars(parts: &Vec<Vec<char>>, from: usize) -> (r: (bool, usize))
    requires
        from <= parts@.len(),
    ensures
        r.0 == tail_valid(parts@.map_values(|p: Vec<char>| p@), from as int, parts@.len() as int),
        r.0 ==> {
            let c = tail_count(parts@.map_values(|p: Vec<char>| p@), from as int, parts@.len() as int);
            r.1 as int == c || (r.1 >= 9 && c >= 9)
        },
{
    let ghost ps = parts@.map_values(|p: Vec<char>| p@);
    let n = parts.len();
    if from >= n {
        return (true, 0);
    }
    if !hex_range_chars(parts, from, n - 1) {
        return (false, 0);
    }
    proof {
        assert(ps[n - 1] == parts@[n - 1 as int]@);
    }
    if hex_group_chars(&parts[n - 1]) {
        proof {
            if is_ipv4(ps[n - 1]) {
                let q = split_spec(ps[n - 1], '.');
                // a hex group has no dot, so it splits into itself alone
                lemma_split_single(ps[n - 1], '.');
                assert(q.len() == 1);
            }
        }
        (true, n - from)
    } else if ipv4_chars(&parts[n - 1]) {
        if n - from >= 9 {
            (true, 9)
        } else {
            (true, n - from + 1)
        }
    } else {
        (false, 0)
    }
}

/// A sequence without the separator splits into exactly itself.
proof fn lemma_split_single(s: Seq<char>, sep: char)
    requires
        forall|i: int| 0 <= i < s.len() ==> s[i] != sep,
    ensures
        split_spec(s, sep).len() == 1,
    decreases s.len(),
{
    if s.len() > 0 {
        assert(forall|i: int| 0 <= i < s.drop_first().len() ==> s.drop_first()[i] != sep);
        lemma_split_single(s.drop_first(), sep);
    }
}

/// Executable check matching `is_ipv6`.
pub fn ipv6_chars(v: &Vec<char>) -> (r: bool)
    ensures
        r == is_ipv6(v@),
{
    let parts = split_chars(v, ':');
    let ghost ps = split_spec(v@, ':');
    let n = parts.len();
    proof {
        lemma_split_nonempty(v@, ':');
    }

    // index of the first empty part, or n
    let mut fe: usize = 0;
    while fe < n && parts[fe].len() > 0
        invariant
            fe <= n,
            n == parts@.len(),
            ps == parts@.map_values(|p: Vec<char>| p@),
            no_empty(ps, 0, fe as int),
        decreases n - fe,
    {
        fe += 1;
    }

    if fe == n {
        // no empty part anywhere: only the uncompressed form can hold
        let (ok, cnt) = tail_chars(&parts, 0);
        proof {
            assert(forall|k: int| !ipv6_mid(ps, k));
            assert(!ipv6_lead(ps));
            assert(!ipv6_trail(ps));
            assert(!ipv6_unspecified(ps));
        }
        return ok && cnt == 8;
    }
    assert(ps[fe as int].len() == 0);

    if fe == 0 {
        proof {
            assert(forall|k: int| ipv6_mid(ps, k) ==> no_empty(ps, 0, k) && 1 <= k);
            assert(forall|k: int| !ipv6_mid(ps, k));
            assert(!ipv6_no_compress(ps));
            assert(!ipv6_trail(ps) || ps[0].len() > 0 || ps.len() <= 3);
        }
        if n < 3 {
            proof {
                assert(!ipv6_lead(ps) && !ipv6_unspecified(ps));
                if ipv6_trail(ps) {
                    assert(ps.len() == 3);
                }
            }
            return false;
        }
        if parts[1].len() != 0 {
            proof {
                assert(!ipv6_lead(ps) && !ipv6_unspecified(ps));
                if ipv6_trail(ps) {
                    assert(no_empty(ps, 0, ps.len() - 2));
                    assert(ps[0].len() > 0);
                }
            }
            return false;
        }
        // find an empty part in [2, n)
        let mut g: usize = 2;
        while g < n && parts[g].len() > 0
            invariant
                2 <= g <= n,
                n == parts@.len(),
                ps == parts@.map_values(|p: Vec<char>| p@),
                no_empty(ps, 2, g as int),
            decreases n - g,
        {
            g += 1;
        }
        if g == n {
            let (ok, cnt) = tail_chars(&parts, 2);
            proof {
                assert(!ipv6_unspecified(ps));
                if ipv6_trail(ps) {
                    assert(ps[ps.len() - 2].len() == 0);
                    assert(false);
                }
                if ok {
                    let tc = tail_count(ps, 2, ps.len() as int);
                    assert((cnt <= 7) == (tc <= 7));
                }
            }
            return ok && cnt <= 7;
        }
        assert(ps[g as int].len() == 0);
        if n == 3 && g == 2 {
            assert(ipv6_unspecified(ps));
            return true;
        }
        proof {
            if ipv6_unspecified(ps) {
                assert(ps.len() == 3);
                assert(ps[2].len() == 0);
                assert(g as int == 2);
            }
            if ipv6_lead(ps) {
                assert(no_empty(ps, 2, ps.len() as int));
                assert(false);
            }
            if ipv6_trail(ps) {
                assert(no_empty(ps, 0, ps.len() - 2));
                assert(ps[0].len() == 0);
                assert(ps.len() - 2 <= 0);
                assert(ps.len() == 3 && g as int == 2);
            }
        }
        return false;
    }

    // fe >= 1: find a second empty part after fe
    let mut g: usize = fe + 1;
    while g < n && parts[g].len() > 0
        invariant
            fe + 1 <= g <= n,
            n == parts@.len(),
            ps == parts@.map_values(|p: Vec<char>| p@),
            no_empty(ps, fe + 1 as int, g as int),
        decreases n - g,
    {
        g += 1;
    }
    proof {
        assert(!ipv6_lead(ps));
        assert(!ipv6_unspecified(ps));
        assert(!ipv6_no_compress(ps));
    }
    if g == n {
        // exactly one empty part, at fe
        if fe <= n - 2 {
            let head_ok = hex_range_chars(&parts, 0, fe);
            let (ok, cnt) = tail_chars(&parts, fe + 1);
            let fits = fe <= 7 && cnt <= 7 - fe;
            proof {
                assert(!ipv6_trail(ps) || ps[ps.len() - 1].len() > 0 || fe as int >= ps.len() - 1);
                if ok {
                    let tc = tail_count(ps, fe + 1 as int, ps.len() as int);
                    assert(fits == (fe as int + tc <= 7));
                }
                if head_ok && ok && fits {
                    assert(ipv6_mid(ps, fe as int));
                }
                if ipv6_mid(ps, fe as int) && !(head_ok && ok) {
                    assert(false);
                }
                assert(forall|k: int| ipv6_mid(ps, k) ==> k == fe as int) by {
                    assert forall|k: int| ipv6_mid(ps, k) implies k == fe as int by {
                        if k < fe {
                            assert(no_empty(ps, 0, fe as int));
                        }
                        if k > fe {
                            assert(no_empty(ps, 0, k));
                        }
                    }
                }
            }
            return head_ok && ok && fits;
        }
        proof {
            assert(fe as int == ps.len() - 1);
            assert(forall|k: int| ipv6_mid(ps, k) ==> k == fe as int || k < fe as int || k > fe as int);
            assert forall|k: int| !ipv6_mid(ps, k) by {
                if ipv6_mid(ps, k) {
                    if k < fe {
                        assert(no_empty(ps, 0, fe as int));
                        assert(ps[k].len() > 0);
                    } else {
                        assert(k <= ps.len() - 2);
                    }
                }
            }
            if ipv6_trail(ps) {
                assert(ps[ps.len() - 1].len() == 0);
                assert(ps[ps.len() - 2].len() == 0);
                assert(no_empty(ps, 0, ps.len() - 2));
                assert(fe as int >= ps.len() - 2);
            }
        }
        return false;
    }
    assert(ps[g as int].len() == 0);
    if g == fe + 1 && g == n - 1 {
        // a trailing `::`
        let head_ok = hex_range_chars(&parts, 0, fe);
        proof {
            if head_ok && fe <= 7 {
                assert(ipv6_trail(ps));
            }
            if ipv6_trail(ps) {
                assert(no_empty(ps, 0, ps.len() - 2));
                assert(groups_all_hex(ps, 0, ps.len() - 2));
            }
            assert forall|k: int| !ipv6_mid(ps, k) by {
                if ipv6_mid(ps, k) {
                    if k == fe {
                        assert(no_empty(ps, k + 1, ps.len() as int));
                        assert(ps[g as int].len() > 0);
                    } else if k < fe {
                        assert(no_empty(ps, 0, fe as int));
                        assert(ps[k].len() > 0);
                    } else {
                        assert(no_empty(ps, 0, k));
                        assert(ps[fe as int].len() > 0);
                    }
                }
            }
        }
        return head_ok && fe <= 7;
    }
    proof {
        assert forall|k: int| !ipv6_mid(ps, k) by {
            if ipv6_mid(ps, k) {
                if k == fe {
                    assert(no_empty(ps, k + 1, ps.len() as int));
                    assert(ps[g as int].len() > 0);
                } else if k < fe {
                    assert(no_empty(ps, 0, fe as int));
                    assert(ps[k].len() > 0);
                } else {
                    assert(no_empty(ps, 0, k));
                    assert(ps[fe as int].len() > 0);
                }
            }
        }
        if ipv6_trail(ps) {
            assert(no_empty(ps, 0, ps.len() - 2));
            assert(fe as int >= ps.len() - 2);
            assert(g as int == ps.len() - 1 && g as int == fe + 1);
        }
    }
    false
}

// ---------------------------------------------------------------------------
// The cast chain.
// ---------------------------------------------------------------------------
/// A hex-encoded binary blob: `\\x` followed by hexadecimal digits only.
pub open spec fn is_hex_blob(t: Seq<char>) -> bool {
    &&& t.len() >= 2
    &&& t[0] == '\\'
    &&& t[1] == 'x'
    &&& forall|i: int| 2 <= i < t.len() ==> is_hex_char(#[trigger] t[i])
}

/// The cast suffix for an already trimmed and lowercased value. The branches
/// are ordered; the first that matches decides. A float literal accepted by
/// the eight-byte parser is accepted by the four-byte parser too, so only the
/// four-byte suffix is reachable and no wider one is produced.
pub open spec fn cast_of_norm(t: Seq<char>) -> Seq<char> {
    if t == "null"@ || t == "nan"@ || t == "infinity"@ || t == "-infinity"@ {
        Seq::<char>::empty()
    } else if is_hex_blob(t) {
        "::bytea"@
    } else if t.len() > 0 && (t[0] == '{' || t[0] == '[') {
        if json_parses(t) {
            "::jsonb"@
        } else {
            Seq::<char>::empty()
        }
    } else if starts_with_spec(t, "<?xml"@) || (t.len() > 0 && t[0] == '<' && t.last() == '>') {
        "::xml"@
    } else if is_ipv4(t) || is_ipv6(t) {
        "::inet"@
    } else if 32 <= t.len() <= 45 && uuid_parses(t) {
        "::uuid"@
    } else if has_char(t, '-') && has_char(t, ':') && naive_datetime_parses(t) {
        "::timestamp without time zone"@
    } else if has_char(t, '-') && naive_date_parses(t) {
        "::date"@
    } else if has_char(t, ':') && naive_time_parses(t) {
        "::time"@
    } else if has_char(t, '-') && has_char(t, ':') && rfc3339_parses(t) {
        "::timestamp with time zone"@
    } else if t == "t"@ || t == "f"@ || t == "true"@ || t == "false"@ {
        "::boolean"@
    } else if int_width(t) == 16 {
        "::smallint"@
    } else if int_width(t) == 32 {
        "::integer"@
    } else if int_width(t) == 64 {
        "::bigint"@
    } else if is_float_literal(t) {
        "::real"@
    } else {
        Seq::<char>::empty()
    }
}

/// The cast suffix for a raw value: it is trimmed and lowercased first.
pub open spec fn cast_of(s: Seq<char>) -> Seq<char> {
    cast_of_norm(trim_spec(s).map_values(|c: char| lower_char(c)))
}

/// Finds one occurrence of a character.
fn has_char_chars(v: &Vec<char>, c: char) -> (r: bool)
    ensures
        r == has_char(v@, c),
{
    let mut i: usize = 0;
    while i < v.len()
        invariant
            i <= v@.len(),
            forall|j: int| 0 <= j < i ==> v@[j] != c,
        decreases v@.len() - i,
    {
        if v[i] == c {
            return true;
        }
        i += 1;
    }
    false
}

/// Executable check matching `is_hex_blob`.
fn hex_blob_chars(t: &Vec<char>) -> (r: bool)
    ensures
        r == is_hex_blob(t@),
{
    if t.len() < 2 || t[0] != '\\' || t[1] != 'x' {
        return false;
    }
    let mut i: usize = 2;
    while i < t.len()
        invariant
            2 <= i <= t@.len(),
            forall|j: int| 2 <= j < i ==> is_hex_char(#[trigger] t@[j]),
        decreases t@.len() - i,
    {
        if !hex_char(t[i]) {
            return false;
        }
        i += 1;
    }
    true
}

/// The cast suffix appended after a bound value's placeholder so that the
/// backend coerces the untyped literal: the value is trimmed and lowercased,
/// then the first matching rule decides, from sentinels over binary, JSON,
/// XML, network, UUID, date-time and boolean forms down to numbers, trying
/// narrower integer widths before wider ones and floats last.
pub fn get_postgres_type_casting(value: &str) -> (r: String)
    ensures
        r@ == cast_of(value@),
{
    let raw = str_to_chars(value);
    let trimmed = trim_chars(&raw);
    let t = lower_chars(&trimmed);
    let st = chars_to_string(&t);
    if chars_eq_str(&t, "null") || chars_eq_str(&t, "nan") || chars_eq_str(&t, "infinity")
        || chars_eq_str(&t, "-infinity") {
        return String::new();
    }
    if hex_blob_chars(&t) {
        return String::from_str("::bytea");
    }
    if t.len() > 0 && (t[0] == '{' || t[0] == '[') {
        if json_is_valid(st.as_str()) {
            return String::from_str("::jsonb");
        }
        return String::new();
    }
    let xml_prefix = str_to_chars("<?xml");
    if starts_with_chars(&t, &xml_prefix) || (t.len() > 0 && t[0] == '<' && t[t.len() - 1] == '>') {
        return String::from_str("::xml");
    }
    if ipv4_chars(&t) || ipv6_chars(&t) {
        return String::from_str("::inet");
    }
    if 32 <= t.len() && t.len() <= 45 && uuid_valid(st.as_str()) {
        return String::from_str("::uuid");
    }
    let dash = has_char_chars(&t, '-');
    let colon = has_char_chars(&t, ':');
    if dash && colon && naive_datetime_valid(st.as_str()) {
        return String::from_str("::timestamp without time zone");
    }
    if dash && naive_date_valid(st.as_str()) {
        return String::from_str("::date");
    }
    if colon && naive_time_valid(st.as_str()) {
        return String::from_str("::time");
    }
    if dash && colon && rfc3339_valid(st.as_str()) {
        return String::from_str("::timestamp with time zone");
    }
    if chars_eq_str(&t, "t") || chars_eq_str(&t, "f") || chars_eq_str(&t, "true") || chars_eq_str(
        &t,
        "false",
    ) {
        return String::from_str("::boolean");
    }
    let width = classify_int(&t);
    if width == 16 {
        return String::from_str("::smallint");
    }
    if width == 32 {
        return String::from_str("::integer");
    }
    if width == 64 {
        return String::from_str("::bigint");
    }
    if float_literal_chars(&t) {
        return String::from_str("::real");
    }
    String::new()
}

/// An unsigned decimal string of at most four digits is cast to the
/// narrowest integer width: identical literals always resolve before the
/// wider integer and float rules can see them.
pub proof fn lemma_narrow_integer_cast(s: Seq<char>)
    requires
        1 <= s.len() <= 4,
        all_digits(s),
    ensures
        cast_of(s) == "::smallint"@,
{
    assert(forall|i: int| 0 <= i < s.len() ==> !crate::text::is_space_char(#[trigger] s[i]));
    crate::text::lemma_trim_of_clean(s);
    let t = trim_spec(s).map_values(|c: char| lower_char(c));
    assert(t =~= s);
    reveal_strlit("null");
    reveal_strlit("nan");
    reveal_strlit("infinity");
    reveal_strlit("-infinity");
    reveal_strlit("t");
    reveal_strlit("f");
    reveal_strlit("true");
    reveal_strlit("false");
    reveal_strlit("<?xml");
    assert(t != "null"@ && t != "nan"@ && t != "infinity"@ && t != "-infinity"@) by {
        if t == "null"@ {
            assert(t[0] == 'n');
        }
        if t == "nan"@ {
            assert(t[0] == 'n');
        }
        if t == "infinity"@ {
            assert(t[0] == 'i');
        }
        if t == "-infinity"@ {
            assert(t[0] == '-');
        }
    }
    assert(!is_hex_blob(t));
    assert(!(t[0] == '{' || t[0] == '['));
    assert(!starts_with_spec(t, "<?xml"@)) by {
        if starts_with_spec(t, "<?xml"@) {
            assert("<?xml"@.len() == 5);
        }
    }
    assert(t[0] != '<');
    assert(!is_ipv4(t)) by {
        lemma_split_single(t, '.');
    }
    assert(!is_ipv6(t)) by {
        lemma_split_single(t, ':');
        let parts = split_spec(t, ':');
        assert(parts.len() == 1);
        assert(!ipv6_no_compress(parts)) by {
            if ipv6_no_compress(parts) {
                assert(tail_count(parts, 0, 1) <= 2);
            }
        }
        assert(forall|k: int| !ipv6_mid(parts, k));
        assert(!ipv6_lead(parts) && !ipv6_trail(parts) && !ipv6_unspecified(parts));
    }
    assert(t.len() < 32);
    assert(!has_char(t, '-')) by {
        if has_char(t, '-') {
            let i = choose|i: int| 0 <= i < t.len() && t[i] == '-';
            assert(is_digit_char(t[i]));
        }
    }
    assert(!has_char(t, ':')) by {
        if has_char(t, ':') {
            let i = choose|i: int| 0 <= i < t.len() && t[i] == ':';
            assert(is_digit_char(t[i]));
        }
    }
    assert(t != "t"@ && t != "f"@ && t != "true"@ && t != "false"@) by {
        if t == "t"@ {
            assert(t[0] == 't');
        }
        if t == "f"@ {
            assert(t[0] == 'f');
        }
        if t == "true"@ {
            assert(t[0] == 't');
        }
        if t == "false"@ {
            assert(t[0] == 'f');
        }
    }
    assert(is_int_literal(t));
    lemma_digits_value_bound(t);
    assert(tenpow(0) == 1);
    assert(tenpow(1) == 10);
    assert(tenpow(2) == 100);
    assert(tenpow(3) == 1000);
    assert(tenpow(4) == 10000);
    assert(digits_value(t) < 10000);
    assert(int_literal_value(t) == digits_value(t));
    assert(int_width(t) == 16);
    assert(cast_of_norm(t) == "::smallint"@);
}

} // verus!
