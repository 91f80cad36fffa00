//! Character-level string utilities: every algorithm in this crate works on
//! `Vec<char>` so that its behaviour can be stated over `Seq<char>` views.

use vstd::prelude::*;
use vstd::string::StrSliceExecFns;

verus! {

/// ASCII decimal digit.
pub open spec fn is_digit_char(c: char) -> bool {
    '0' <= c && c <= '9'
}

/// ASCII hexadecimal digit, either case.
pub open spec fn is_hex_char(c: char) -> bool {
    is_digit_char(c) || ('a' <= c && c <= 'f') || ('A' <= c && c <= 'F')
}

/// ASCII letter.
pub open spec fn is_alpha_char(c: char) -> bool {
    ('a' <= c && c <= 'z') || ('A' <= c && c <= 'Z')
}

/// ASCII letter or digit.
pub open spec fn is_alnum_char(c: char) -> bool {
    is_alpha_char(c) || is_digit_char(c)
}

/// The whitespace characters that trimming and collapsing recognise.
pub open spec fn is_space_char(c: char) -> bool {
    c == ' ' || c == '\t' || c == '\n' || c == '\r'
}

/// ASCII lowercasing of one character; other characters are unchanged.
pub open spec fn lower_char(c: char) -> char {
    if 'A' <= c && c <= 'Z' {
        ((c as u8) + 32) as char
    } else {
        c
    }
}

/// Executable check matching `is_digit_char`.
pub fn digit_char(c: char) -> (r: bool)
    ensures
        r == is_digit_char(c),
{
    '0' <= c && c <= '9'
}

/// Executable check matching `is_hex_char`.
pub fn hex_char(c: char) -> (r: bool)
    ensures
        r == is_hex_char(c),
{
    digit_char(c) || ('a' <= c && c <= 'f') || ('A' <= c && c <= 'F')
}

/// Executable check matching `is_alnum_char`.
pub fn alnum_char(c: char) -> (r: bool)
    ensures
        r == is_alnum_char(c),
{
    ('a' <= c && c <= 'z') || ('A' <= c && c <= 'Z') || digit_char(c)
}

/// Executable check matching `is_space_char`.
pub fn space_char(c: char) -> (r: bool)
    ensures
        r == is_space_char(c),
{
    c == ' ' || c == '\t' || c == '\n' || c == '\r'
}

/// Executable ASCII lowercasing of one character.
pub fn to_lower_char(c: char) -> (r: char)
    ensures
        r == lower_char(c),
{
    if 'A' <= c && c <= 'Z' {
        ((c as u8) + 32) as char
    } else {
        c
    }
}

/// Collects the characters of a string slice into a vector.
pub fn str_to_chars(s: &str) -> (v: Vec<char>)
    ensures
        v@ == s@,
{
    let n = s.unicode_len();
    let mut v: Vec<char> = Vec::new();
    let mut i: usize = 0;
    while i < n
        invariant
            i <= n,
            n == s@.len(),
            v@ == s@.subrange(0, i as int),
        decreases n - i,
    {
        v.push(s.get_char(i));
        i += 1;
    }
    assert(v@ =~= s@);
    v
}

/// Relies on `String::push`: appends one character at the end.
#[verifier::external_body]
fn push_char(s: &mut String, c: char)
    ensures
        final(s)@ == old(s)@ + seq![c],
{
    s.push(c);
}

/// Builds a string whose characters are exactly those of the vector.
pub fn chars_to_string(v: &Vec<char>) -> (s: String)
    ensures
        s@ == v@,
{
    let mut s = String::new();
    let mut i: usize = 0;
    while i < v.len()
        invariant
            i <= v@.len(),
            s@ == v@.subrange(0, i as int),
        decreases v@.len() - i,
    {
        push_char(&mut s, v[i]);
        assert(s@ =~= v@.subrange(0, i + 1 as int));
        i += 1;
    }
    assert(s@ =~= v@);
    s
}

/// ASCII-lowercases every character of a vector.
pub fn lower_chars(v: &Vec<char>) -> (r: Vec<char>)
    ensures
        r@ == v@.map_values(|c: char| lower_char(c)),
{
    let ghost m = v@.map_values(|c: char| lower_char(c));
    let mut r: Vec<char> = Vec::new();
    let mut i: usize = 0;
    while i < v.len()
        invariant
            i <= v@.len(),
            m == v@.map_values(|c: char| lower_char(c)),
            r@ == m.subrange(0, i as int),
        decreases v@.len() - i,
    {
        r.push(to_lower_char(v[i]));
        assert(r@ =~= m.subrange(0, i + 1 as int));
        i += 1;
    }
    assert(r@ =~= m);
    r
}

/// Keeps only the ASCII decimal digits of a vector, in order.
pub fn digits_of(v: &Vec<char>) -> (r: Vec<char>)
    ensures
        r@ == v@.filter(|c: char| is_digit_char(c)),
{
    let ghost p = |c: char| is_digit_char(c);
    let mut r: Vec<char> = Vec::new();
    let mut i: usize = 0;
    while i < v.len()
        invariant
            i <= v@.len(),
            r@ == v@.subrange(0, i as int).filter(p),
            p == (|c: char| is_digit_char(c)),
        decreases v@.len() - i,
    {
        reveal(Seq::filter);
        assert(v@.subrange(0, i + 1 as int).drop_last() =~= v@.subrange(0, i as int));
        if digit_char(v[i]) {
            r.push(v[i]);
        }
        assert(r@ =~= v@.subrange(0, i + 1 as int).filter(p));
        i += 1;
    }
    assert(v@.subrange(0, v@.len() as int) =~= v@);
    r
}

/// Leading whitespace removed.
pub open spec fn trim_start_spec(s: Seq<char>) -> Seq<char>
    decreases s.len(),
{
    if s.len() > 0 && is_space_char(s[0]) {
        trim_start_spec(s.drop_first())
    } else {
        s
    }
}

/// Trailing whitespace removed.
pub open spec fn trim_end_spec(s: Seq<char>) -> Seq<char>
    decreases s.len(),
{
    if s.len() > 0 && is_space_char(s.last()) {
        trim_end_spec(s.drop_last())
    } else {
        s
    }
}

/// Leading and trailing whitespace removed.
pub open spec fn trim_spec(s: Seq<char>) -> Seq<char> {
    trim_end_spec(trim_start_spec(s))
}

proof fn lemma_trim_start_at(s: Seq<char>, k: int)
    requires
        0 <= k <= s.len(),
        forall|j: int| 0 <= j < k ==> is_space_char(s[j]),
        k < s.len() ==> !is_space_char(s[k]),
    ensures
        trim_start_spec(s) == s.subrange(k, s.len() as int),
    decreases k,
{
    if k == 0 {
        assert(s.subrange(0, s.len() as int) =~= s);
    } else {
        assert(is_space_char(s[0]));
        lemma_trim_start_at(s.drop_first(), k - 1);
        assert(s.drop_first().subrange(k - 1, s.drop_first().len() as int) =~= s.subrange(
            k,
            s.len() as int,
        ));
    }
}

proof fn lemma_trim_end_at(s: Seq<char>, k: int)
    requires
        0 <= k <= s.len(),
        forall|j: int| k <= j < s.len() ==> is_space_char(s[j]),
        k > 0 ==> !is_space_char(s[k - 1]),
    ensures
        trim_end_spec(s) == s.subrange(0, k),
    decreases s.len() - k,
{
    if k == s.len() {
        assert(s.subrange(0, s.len() as int) =~= s);
    } else {
        assert(is_space_char(s.last()));
        lemma_trim_end_at(s.drop_last(), k);
        assert(s.drop_last().subrange(0, k) =~= s.subrange(0, k));
    }
}

/// Trimming leaves a string without whitespace unchanged.
pub proof fn lemma_trim_of_clean(s: Seq<char>)
    requires
        forall|i: int| 0 <= i < s.len() ==> !is_space_char(#[trigger] s[i]),
    ensures
        trim_spec(s) == s,
{
    lemma_trim_start_at(s, 0);
    assert(s.subrange(0, s.len() as int) =~= s);
    lemma_trim_end_at(s, s.len() as int);
}

/// Copies `v[from..to]` into a fresh vector.
pub fn subrange_chars(v: &Vec<char>, from: usize, to: usize) -> (r: Vec<char>)
    requires
        from <= to <= v@.len(),
    ensures
        r@ == v@.subrange(from as int, to as int),
{
    let mut r: Vec<char> = Vec::new();
    let mut i: usize = from;
    while i < to
        invariant
            from <= i <= to <= v@.len(),
            r@ == v@.subrange(from as int, i as int),
        decreases to - i,
    {
        r.push(v[i]);
        assert(r@ =~= v@.subrange(from as int, i + 1 as int));
        i += 1;
    }
    r
}

/// Removes leading and trailing whitespace.
pub fn trim_chars(v: &Vec<char>) -> (r: Vec<char>)
    ensures
        r@ == trim_spec(v@),
{
    let mut a: usize = 0;
    while a < v.len() && space_char(v[a])
        invariant
            a <= v@.len(),
            forall|j: int| 0 <= j < a ==> is_space_char(v@[j]),
        decreases v@.len() - a,
    {
        a += 1;
    }
    proof {
        lemma_trim_start_at(v@, a as int);
    }
    let ghost t = trim_start_spec(v@);
    let mut b: usize = v.len();
    while b > a && space_char(v[b - 1])
        invariant
            a <= b <= v@.len(),
            t == v@.subrange(a as int, v@.len() as int),
            forall|j: int| b <= j < v@.len() ==> is_space_char(v@[j]),
        decreases b,
    {
        b -= 1;
    }
    proof {
        lemma_trim_end_at(t, b - a);
        assert(t.subrange(0, b - a) =~= v@.subrange(a as int, b as int));
    }
    subrange_chars(v, a, b)
}

/// Appends all characters of `src` to `dst`.
pub fn extend_chars(dst: &mut Vec<char>, src: &Vec<char>)
    ensures
        final(dst)@ == old(dst)@ + src@,
{
    let ghost base = dst@;
    let mut i: usize = 0;
    while i < src.len()
        invariant
            i <= src@.len(),
            dst@ == base + src@.subrange(0, i as int),
        decreases src@.len() - i,
    {
        dst.push(src[i]);
        assert(dst@ =~= base + src@.subrange(0, i + 1 as int));
        i += 1;
    }
    assert(src@.subrange(0, src@.len() as int) =~= src@);
}

/// True when the two vectors hold the same characters.
pub fn eq_chars(a: &Vec<char>, b: &Vec<char>) -> (r: bool)
    ensures
        r == (a@ == b@),
{
    if a.len() != b.len() {
        assert(a@.len() != b@.len());
        return false;
    }
    let mut i: usize = 0;
    while i < a.len()
        invariant
            i <= a@.len(),
            a@.len() == b@.len(),
            forall|j: int| 0 <= j < i ==> a@[j] == b@[j],
        decreases a@.len() - i,
    {
        if a[i] != b[i] {
            assert(a@ != b@);
            return false;
        }
        i += 1;
    }
    assert(a@ =~= b@);
    true
}

/// True when the characters of `v` equal the characters of the literal `s`.
pub fn chars_eq_str(v: &Vec<char>, s: &str) -> (r: bool)
    ensures
        r == (v@ == s@),
{
    let w = str_to_chars(s);
    eq_chars(v, &w)
}

/// `needle` occurs in `hay` starting at position `i`.
pub open spec fn matches_at(hay: Seq<char>, needle: Seq<char>, i: int) -> bool {
    0 <= i && i + needle.len() <= hay.len() && hay.subrange(i, i + needle.len()) == needle
}

/// `needle` occurs somewhere in `hay` (every string contains the empty one).
pub open spec fn contains_seq(hay: Seq<char>, needle: Seq<char>) -> bool {
    exists|i: int| matches_at(hay, needle, i)
}

/// Substring search.
pub fn contains_chars(hay: &Vec<char>, needle: &Vec<char>) -> (r: bool)
    ensures
        r == contains_seq(hay@, needle@),
{
    if needle.len() == 0 {
        assert(hay@.subrange(0, 0) =~= needle@);
        assert(matches_at(hay@, needle@, 0));
        return true;
    }
    if needle.len() > hay.len() {
        assert(forall|i: int| !matches_at(hay@, needle@, i));
        return false;
    }
    let last = hay.len() - needle.len();
    let mut i: usize = 0;
    while i <= last
        invariant
            i <= last + 1,
            hay@.len() <= usize::MAX,
            last == hay@.len() - needle@.len(),
            1 <= needle@.len() <= hay@.len(),
            forall|k: int| 0 <= k < i ==> !matches_at(hay@, needle@, k),
        decreases last + 1 - i,
    {
        let mut j: usize = 0;
        let mut hit = true;
        while j < needle.len()
            invariant
                i + needle@.len() <= hay@.len(),
                hay@.len() <= usize::MAX,
                needle@.len() >= 1,
                i <= last,
                last == hay@.len() - needle@.len(),
                j <= needle@.len(),
                hit ==> forall|k: int| 0 <= k < j ==> hay@[i + k] == needle@[k],
                !hit ==> !matches_at(hay@, needle@, i as int),
            decreases needle@.len() - j,
        {
            if hay[i + j] != needle[j] {
                proof {
                    if matches_at(hay@, needle@, i as int) {
                        assert(hay@.subrange(i as int, i + needle@.len())[j as int] == needle@[j as int]);
                    }
                }
                hit = false;
                j = needle.len();
            } else {
                j += 1;
            }
        }
        if hit {
            assert(hay@.subrange(i as int, i + needle@.len()) =~= needle@);
            assert(matches_at(hay@, needle@, i as int));
            return true;
        }
        i += 1;
    }
    assert(forall|k: int| k > last ==> !matches_at(hay@, needle@, k));
    false
}

/// `s` begins with `p`.
pub open spec fn starts_with_spec(s: Seq<char>, p: Seq<char>) -> bool {
    p.len() <= s.len() && s.subrange(0, p.len() as int) == p
}

/// Prefix test.
pub fn starts_with_chars(v: &Vec<char>, p: &Vec<char>) -> (r: bool)
    ensures
        r == starts_with_spec(v@, p@),
{
    if p.len() > v.len() {
        return false;
    }
    let head = subrange_chars(v, 0, p.len());
    eq_chars(&head, p)
}

/// Splitting at every occurrence of `sep`; an empty input gives one empty
/// part, and `n` separators always give `n + 1` parts.
pub open spec fn split_spec(s: Seq<char>, sep: char) -> Seq<Seq<char>>
    decreases s.len(),
{
    if s.len() == 0 {
        seq![Seq::<char>::empty()]
    } else if s[0] == sep {
        seq![Seq::<char>::empty()] + split_spec(s.drop_first(), sep)
    } else {
        let rest = split_spec(s.drop_first(), sep);
        seq![seq![s[0]] + rest[0]] + rest.drop_first()
    }
}

pub proof fn lemma_split_nonempty(s: Seq<char>, sep: char)
    ensures
        split_spec(s, sep).len() >= 1,
    decreases s.len(),
{
    if s.len() > 0 {
        lemma_split_nonempty(s.drop_first(), sep);
    }
}

/// A completed head part `cur` prepended onto the first part of `rest`.
spec fn prepend_first(cur: Seq<char>, rest: Seq<Seq<char>>) -> Seq<Seq<char>> {
    seq![cur + rest[0]] + rest.drop_first()
}

proof fn lemma_split_step_sep(s: Seq<char>, i: int, sep: char, cur: Seq<char>)
    requires
        0 <= i < s.len(),
        s[i] == sep,
    ensures
        prepend_first(cur, split_spec(s.subrange(i, s.len() as int), sep)) == seq![cur]
            + split_spec(s.subrange(i + 1, s.len() as int), sep),
{
    let t = s.subrange(i, s.len() as int);
    let u = s.subrange(i + 1, s.len() as int);
    assert(t.len() > 0 && t[0] == sep);
    assert(t.drop_first() =~= u);
    lemma_split_nonempty(u, sep);
    assert(split_spec(t, sep) == seq![Seq::<char>::empty()] + split_spec(u, sep));
    assert(cur + (seq![Seq::<char>::empty()] + split_spec(u, sep))[0] =~= cur);
    assert((seq![Seq::<char>::empty()] + split_spec(u, sep)).drop_first() =~= split_spec(u, sep));
    assert(prepend_first(cur, split_spec(t, sep)) =~= seq![cur] + split_spec(u, sep));
}

proof fn lemma_split_step_char(s: Seq<char>, i: int, sep: char, cur: Seq<char>)
    requires
        0 <= i < s.len(),
        s[i] != sep,
    ensures
        prepend_first(cur, split_spec(s.subrange(i, s.len() as int), sep)) == prepend_first(
            cur.push(s[i]),
            split_spec(s.subrange(i + 1, s.len() as int), sep),
        ),
{
    let t = s.subrange(i, s.len() as int);
    let u = s.subrange(i + 1, s.len() as int);
    assert(t.len() > 0 && t[0] == s[i] && t[0] != sep);
    assert(t.drop_first() =~= u);
    let rest = split_spec(u, sep);
    lemma_split_nonempty(u, sep);
    assert(split_spec(t, sep) == seq![seq![s[i]] + rest[0]] + rest.drop_first());
    assert(cur + (seq![s[i]] + rest[0]) =~= cur.push(s[i]) + rest[0]);
    if rest.len() == 1 {
        assert(prepend_first(cur, split_spec(t, sep)) =~= prepend_first(cur.push(s[i]), rest));
    } else {
        assert((seq![seq![s[i]] + rest[0]] + rest.drop_first()).drop_first() =~= rest.drop_first());
        assert(prepend_first(cur, split_spec(t, sep)) =~= prepend_first(cur.push(s[i]), rest));
    }
}

proof fn lemma_prepend_first_empty(rest: Seq<Seq<char>>)
    requires
        rest.len() >= 1,
    ensures
        prepend_first(Seq::<char>::empty(), rest) == rest,
{
    assert(Seq::<char>::empty() + rest[0] =~= rest[0]);
    assert(prepend_first(Seq::<char>::empty(), rest) =~= rest);
}

/// Splits a character vector at every occurrence of `sep`.
pub fn split_chars(v: &Vec<char>, sep: char) -> (r: Vec<Vec<char>>)
    ensures
        r@.map_values(|p: Vec<char>| p@) == split_spec(v@, sep),
{
    let ghost vw = |p: Vec<char>| p@;
    let mut parts: Vec<Vec<char>> = Vec::new();
    let mut cur: Vec<char> = Vec::new();
    let mut i: usize = 0;
    proof {
        lemma_split_nonempty(v@, sep);
        lemma_prepend_first_empty(split_spec(v@, sep));
        assert(v@.subrange(0, v@.len() as int) =~= v@);
        assert(parts@.map_values(vw) + prepend_first(cur@, split_spec(v@, sep)) =~= split_spec(
            v@,
            sep,
        ));
    }
    while i < v.len()
        invariant
            i <= v@.len(),
            vw == (|p: Vec<char>| p@),
            split_spec(v@, sep) == parts@.map_values(vw) + prepend_first(
                cur@,
                split_spec(v@.subrange(i as int, v@.len() as int), sep),
            ),
        decreases v@.len() - i,
    {
        let ghost old_parts = parts@;
        let ghost old_cur = cur@;
        if v[i] == sep {
            proof {
                lemma_split_step_sep(v@, i as int, sep, cur@);
            }
            parts.push(cur);
            cur = Vec::new();
            proof {
                let rest = split_spec(v@.subrange(i + 1, v@.len() as int), sep);
                lemma_split_nonempty(v@.subrange(i + 1, v@.len() as int), sep);
                lemma_prepend_first_empty(rest);
                assert(parts@.map_values(vw) =~= old_parts.map_values(vw).push(old_cur));
                assert(old_parts.map_values(vw) + (seq![old_cur] + rest) =~= parts@.map_values(vw)
                    + rest);
            }
        } else {
            proof {
                lemma_split_step_char(v@, i as int, sep, cur@);
            }
            cur.push(v[i]);
            proof {
                assert(cur@ =~= old_cur.push(v@[i as int]));
            }
        }
        i += 1;
    }
    proof {
        let tail = v@.subrange(i as int, v@.len() as int);
        assert(tail =~= Seq::<char>::empty());
        assert(split_spec(tail, sep) == seq![Seq::<char>::empty()]);
        assert(cur@ + Seq::<char>::empty() =~= cur@);
        assert(prepend_first(cur@, split_spec(tail, sep)) =~= seq![cur@]);
    }
    let ghost old_parts = parts@;
    parts.push(cur);
    proof {
        assert(parts@.map_values(vw) =~= old_parts.map_values(vw) + seq![cur@]);
    }
    parts
}

/// The parts joined with `sep` between consecutive parts.
pub open spec fn join_spec(parts: Seq<Seq<char>>, sep: Seq<char>) -> Seq<char>
    decreases parts.len(),
{
    if parts.len() == 0 {
        Seq::<char>::empty()
    } else if parts.len() == 1 {
        parts[0]
    } else {
        parts[0] + sep + join_spec(parts.drop_first(), sep)
    }
}

pub proof fn lemma_join_push(parts: Seq<Seq<char>>, sep: Seq<char>, p: Seq<char>)
    requires
        parts.len() >= 1,
    ensures
        join_spec(parts.push(p), sep) == join_spec(parts, sep) + sep + p,
    decreases parts.len(),
{
    if parts.len() == 1 {
        let q = parts.push(p);
        assert(q.len() == 2);
        assert(q.drop_first() =~= seq![p]);
        assert(join_spec(q, sep) == q[0] + sep + join_spec(seq![p], sep));
        assert(q[0] == parts[0]);
    } else {
        lemma_join_push(parts.drop_first(), sep, p);
        assert(parts.push(p).drop_first() =~= parts.drop_first().push(p));
        assert(join_spec(parts.push(p), sep) == parts[0] + sep + join_spec(
            parts.drop_first().push(p),
            sep,
        ));
        assert(parts[0] + sep + (join_spec(parts.drop_first(), sep) + sep + p) =~= (parts[0] + sep
            + join_spec(parts.drop_first(), sep)) + sep + p);
    }
}

/// Joins parts with a separator.
pub fn join_parts(parts: &Vec<Vec<char>>, sep: &Vec<char>) -> (r: Vec<char>)
    ensures
        r@ == join_spec(parts@.map_values(|p: Vec<char>| p@), sep@),
{
    let ghost vw = |p: Vec<char>| p@;
    let ghost m = parts@.map_values(vw);
    if parts.len() == 0 {
        let r: Vec<char> = Vec::new();
        return r;
    }
    let mut r: Vec<char> = Vec::new();
    let mut k: usize = 0;
    while k < parts[0].len()
        invariant
            parts@.len() >= 1,
            m == parts@.map_values(vw),
            k <= parts@[0]@.len(),
            r@ == parts@[0]@.subrange(0, k as int),
        decreases parts@[0]@.len() - k,
    {
        r.push(parts[0][k]);
        assert(r@ =~= parts@[0]@.subrange(0, k + 1 as int));
        k += 1;
    }
    assert(r@ =~= m.subrange(0, 1).index(0));
    proof {
        assert(m.subrange(0, 1) =~= seq![m[0]]);
        assert(join_spec(m.subrange(0, 1), sep@) == m[0]);
        assert(r@ =~= m[0]);
    }
    let mut i: usize = 1;
    while i < parts.len()
        invariant
            1 <= i <= parts@.len(),
            vw == (|p: Vec<char>| p@),
            m == parts@.map_values(vw),
            r@ == join_spec(m.subrange(0, i as int), sep@),
        decreases parts@.len() - i,
    {
        proof {
            lemma_join_push(m.subrange(0, i as int), sep@, m[i as int]);
            assert(m.subrange(0, i as int).push(m[i as int]) =~= m.subrange(0, i + 1 as int));
        }
        let mut k: usize = 0;
        let ghost base = r@;
        while k < sep.len()
            invariant
                k <= sep@.len(),
                r@ == base + sep@.subrange(0, k as int),
            decreases sep@.len() - k,
        {
            r.push(sep[k]);
            assert(r@ =~= base + sep@.subrange(0, k + 1 as int));
            k += 1;
        }
        assert(sep@.subrange(0, sep@.len() as int) =~= sep@);
        let mut k2: usize = 0;
        let ghost base2 = r@;
        while k2 < parts[i].len()
            invariant
                i < parts@.len(),
                vw == (|p: Vec<char>| p@),
                m == parts@.map_values(vw),
                k2 <= parts@[i as int]@.len(),
                r@ == base2 + parts@[i as int]@.subrange(0, k2 as int),
            decreases parts@[i as int]@.len() - k2,
        {
            r.push(parts[i][k2]);
            assert(r@ =~= base2 + parts@[i as int]@.subrange(0, k2 + 1 as int));
            k2 += 1;
        }
        proof {
            assert(m[i as int] == vw(parts@[i as int]));
            assert(parts@[i as int]@.subrange(0, parts@[i as int]@.len() as int) =~= m[i as int]);
            assert(base2 =~= base + sep@);
            assert(r@ =~= join_spec(m.subrange(0, i as int), sep@) + sep@ + m[i as int]);
        }
        i += 1;
    }
    assert(m.subrange(0, m.len() as int) =~= m);
    r
}

/// The character for a decimal digit value.
pub open spec fn dec_digit(d: int) -> char {
    ((48 + d) as u8) as char
}

/// The decimal representation of a natural number, most significant first.
pub open spec fn dec_spec(n: nat) -> Seq<char>
    decreases n,
{
    if n < 10 {
        seq![dec_digit(n as int)]
    } else {
        dec_spec(n / 10) + seq![dec_digit((n % 10) as int)]
    }
}

/// Renders a number in decimal.
pub fn usize_to_chars(n: usize) -> (r: Vec<char>)
    ensures
        r@ == dec_spec(n as nat),
    decreases n,
{
    if n < 10 {
        let d: u8 = 48 + (n as u8);
        let mut r: Vec<char> = Vec::new();
        r.push(d as char);
        assert(r@ =~= seq![dec_digit(n as int)]);
        r
    } else {
        let mut r = usize_to_chars(n / 10);
        let d: u8 = 48 + ((n % 10) as u8);
        r.push(d as char);
        assert(r@ =~= dec_spec((n / 10) as nat) + seq![dec_digit((n % 10) as int)]);
        r
    }
}

/// Keeps only the non-empty parts.
pub fn keep_nonempty_parts(parts: Vec<Vec<char>>) -> (r: Vec<Vec<char>>)
    ensures
        r@.map_values(|p: Vec<char>| p@) == parts@.map_values(|p: Vec<char>| p@).filter(
            |p: Seq<char>| p.len() > 0,
        ),
{
    let ghost vw = |p: Vec<char>| p@;
    let ghost q = |p: Seq<char>| p.len() > 0;
    let ghost m = parts@.map_values(vw);
    let mut r: Vec<Vec<char>> = Vec::new();
    let mut i: usize = 0;
    while i < parts.len()
        invariant
            i <= parts@.len(),
            vw == (|p: Vec<char>| p@),
            q == (|p: Seq<char>| p.len() > 0),
            m == parts@.map_values(vw),
            r@.map_values(vw) == m.subrange(0, i as int).filter(q),
        decreases parts@.len() - i,
    {
        reveal(Seq::filter);
        assert(m.subrange(0, i + 1 as int).drop_last() =~= m.subrange(0, i as int));
        let ghost old_r = r@;
        let p = &parts[i];
        if p.len() > 0 {
            let copy = subrange_chars(p, 0, p.len());
            assert(copy@ =~= m[i as int]);
            r.push(copy);
            assert(r@.map_values(vw) =~= old_r.map_values(vw).push(m[i as int]));
        }
        assert(r@.map_values(vw) =~= m.subrange(0, i + 1 as int).filter(q));
        i += 1;
    }
    assert(m.subrange(0, m.len() as int) =~= m);
    r
}

/// Trims every part.
pub fn trim_parts(parts: &Vec<Vec<char>>) -> (r: Vec<Vec<char>>)
    ensures
        r@.map_values(|p: Vec<char>| p@) == parts@.map_values(|p: Vec<char>| p@).map_values(
            |p: Seq<char>| trim_spec(p),
        ),
{
    let ghost vw = |p: Vec<char>| p@;
    let ghost t = |p: Seq<char>| trim_spec(p);
    let ghost m = parts@.map_values(vw).map_values(t);
    let mut r: Vec<Vec<char>> = Vec::new();
    let mut i: usize = 0;
    while i < parts.len()
        invariant
            i <= parts@.len(),
            vw == (|p: Vec<char>| p@),
            t == (|p: Seq<char>| trim_spec(p)),
            m == parts@.map_values(vw).map_values(t),
            r@.map_values(vw) == m.subrange(0, i as int),
        decreases parts@.len() - i,
    {
        let ghost old_r = r@;
        let w = trim_chars(&parts[i]);
        r.push(w);
        proof {
            assert(r@.map_values(vw) =~= old_r.map_values(vw).push(w@));
            assert(r@.map_values(vw) =~= m.subrange(0, i + 1 as int));
        }
        i += 1;
    }
    assert(m.subrange(0, m.len() as int) =~= m);
    r
}

} // verus!
