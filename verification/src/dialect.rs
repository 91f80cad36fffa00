//! Backend dialects: identifier quoting, positional placeholders and value
//! casts. Quoting doubles every embedded quote character, so the result is
//! one syntactically closed quoted token whatever the input holds.

use crate::cast::{cast_of, get_postgres_type_casting};
use crate::text::{
    chars_to_string, dec_spec, join_parts, join_spec, split_chars, split_spec, str_to_chars,
    subrange_chars, usize_to_chars,
};
use vstd::prelude::*;
use vstd::string::StringExecFns;

verus! {

/// Every `"` doubled.
pub open spec fn double_quotes_spec(s: Seq<char>) -> Seq<char>
    decreases s.len(),
{
    if s.len() == 0 {
        Seq::<char>::empty()
    } else if s[0] == '"' {
        seq!['"', '"'] + double_quotes_spec(s.drop_first())
    } else {
        seq![s[0]] + double_quotes_spec(s.drop_first())
    }
}

/// A quoted identifier: wrapped in `"` with embedded quotes doubled.
pub open spec fn quote_wrap_spec(s: Seq<char>) -> Seq<char> {
    seq!['"'] + double_quotes_spec(s) + seq!['"']
}

/// Doubled quotes collapsed back to single ones.
pub open spec fn undouble_spec(s: Seq<char>) -> Seq<char>
    decreases s.len(),
{
    if s.len() == 0 {
        Seq::<char>::empty()
    } else if s.len() >= 2 && s[0] == '"' && s[1] == '"' {
        seq!['"'] + undouble_spec(s.subrange(2, s.len() as int))
    } else {
        seq![s[0]] + undouble_spec(s.drop_first())
    }
}

/// Removing the wrapper and un-doubling recovers what was quoted.
pub open spec fn unquote_spec(q: Seq<char>) -> Seq<char> {
    undouble_spec(q.subrange(1, q.len() - 1))
}

proof fn lemma_undouble_double(s: Seq<char>)
    ensures
        undouble_spec(double_quotes_spec(s)) == s,
    decreases s.len(),
{
    if s.len() == 0 {
        assert(double_quotes_spec(s).len() == 0);
        assert(s =~= Seq::<char>::empty());
    } else {
        lemma_undouble_double(s.drop_first());
        let rest = double_quotes_spec(s.drop_first());
        if s[0] == '"' {
            let d = seq!['"', '"'] + rest;
            assert(double_quotes_spec(s) == d);
            assert(d.len() >= 2 && d[0] == '"' && d[1] == '"');
            assert(d.subrange(2, d.len() as int) =~= rest);
            assert(undouble_spec(d) == seq!['"'] + undouble_spec(rest));
            assert(seq!['"'] + s.drop_first() =~= s);
        } else {
            let d = seq![s[0]] + rest;
            assert(double_quotes_spec(s) == d);
            assert(d[0] != '"');
            assert(d.drop_first() =~= rest);
            assert(undouble_spec(d) == seq![s[0]] + undouble_spec(rest));
            assert(seq![s[0]] + s.drop_first() =~= s);
        }
    }
}

/// Quoting round-trips: removing the wrapper and un-doubling the embedded
/// quote characters recovers the original identifier exactly, for every
/// input, however adversarial.
pub proof fn lemma_quote_roundtrip(s: Seq<char>)
    ensures
        unquote_spec(quote_wrap_spec(s)) == s,
{
    let q = quote_wrap_spec(s);
    assert(q.subrange(1, q.len() - 1) =~= double_quotes_spec(s));
    lemma_undouble_double(s);
}

/// Doubles every quote character.
fn double_quotes(v: &Vec<char>) -> (r: Vec<char>)
    ensures
        r@ == double_quotes_spec(v@),
{
    let mut r: Vec<char> = Vec::new();
    let mut i: usize = 0;
    proof {
        assert(v@.subrange(0, v@.len() as int) =~= v@);
        assert(r@ + double_quotes_spec(v@) =~= double_quotes_spec(v@));
    }
    while i < v.len()
        invariant
            i <= v@.len(),
            r@ + double_quotes_spec(v@.subrange(i as int, v@.len() as int)) == double_quotes_spec(
                v@,
            ),
        decreases v@.len() - i,
    {
        let ghost tail = v@.subrange(i as int, v@.len() as int);
        let ghost tail2 = v@.subrange(i + 1 as int, v@.len() as int);
        proof {
            assert(tail.len() > 0 && tail[0] == v@[i as int]);
            assert(tail.drop_first() =~= tail2);
        }
        let ghost before = r@;
        if v[i] == '"' {
            r.push('"');
            r.push('"');
            proof {
                assert(r@ =~= before + seq!['"', '"']);
                assert(r@ + double_quotes_spec(tail2) =~= before + double_quotes_spec(tail));
            }
        } else {
            r.push(v[i]);
            proof {
                assert(r@ =~= before + seq![v@[i as int]]);
                assert(r@ + double_quotes_spec(tail2) =~= before + double_quotes_spec(tail));
            }
        }
        i += 1;
    }
    proof {
        assert(v@.subrange(v@.len() as int, v@.len() as int) =~= Seq::<char>::empty());
        assert(r@ + Seq::<char>::empty() =~= r@);
    }
    r
}

/// Wraps one identifier in quotes, doubling embedded quotes.
pub fn quote_wrap_chars(v: &Vec<char>) -> (r: Vec<char>)
    ensures
        r@ == quote_wrap_spec(v@),
{
    let mut r: Vec<char> = Vec::new();
    r.push('"');
    let d = double_quotes(v);
    let mut i: usize = 0;
    while i < d.len()
        invariant
            i <= d@.len(),
            r@ == seq!['"'] + d@.subrange(0, i as int),
        decreases d@.len() - i,
    {
        r.push(d[i]);
        assert(r@ =~= seq!['"'] + d@.subrange(0, i + 1 as int));
        i += 1;
    }
    r.push('"');
    proof {
        assert(d@.subrange(0, d@.len() as int) =~= d@);
        assert(r@ =~= quote_wrap_spec(v@));
    }
    r
}

/// A dotted identifier quoted part by part: `a.b` becomes `"a"."b"`.
pub open spec fn quote_identifier_spec(s: Seq<char>) -> Seq<char> {
    join_spec(split_spec(s, '.').map_values(|p: Seq<char>| quote_wrap_spec(p)), seq!['.'])
}

/// Quotes a possibly schema-qualified identifier: the input is split at
/// every dot, each part is wrapped in quotes with embedded quotes doubled,
/// and the quoted parts are joined with dots again.
pub fn quote_identifier(identifier: &str) -> (r: String)
    ensures
        r@ == quote_identifier_spec(identifier@),
{
    let chars = str_to_chars(identifier);
    let parts = split_chars(&chars, '.');
    let ghost ps = split_spec(identifier@, '.');
    let ghost qw = |p: Seq<char>| quote_wrap_spec(p);
    let ghost vw = |p: Vec<char>| p@;
    let mut quoted: Vec<Vec<char>> = Vec::new();
    let mut i: usize = 0;
    while i < parts.len()
        invariant
            i <= parts@.len(),
            qw == (|p: Seq<char>| quote_wrap_spec(p)),
            vw == (|p: Vec<char>| p@),
            parts@.map_values(vw) == ps,
            quoted@.map_values(vw) == ps.map_values(qw).subrange(0, i as int),
        decreases parts@.len() - i,
    {
        let ghost before = quoted@;
        let q = quote_wrap_chars(&parts[i]);
        proof {
            assert(ps[i as int] == parts@[i as int]@);
            assert(q@ == ps.map_values(qw)[i as int]);
        }
        quoted.push(q);
        proof {
            assert(quoted@.map_values(vw) =~= before.map_values(vw).push(q@));
            assert(quoted@.map_values(vw) =~= ps.map_values(qw).subrange(0, i + 1 as int));
        }
        i += 1;
    }
    proof {
        assert(ps.map_values(qw).subrange(0, ps.map_values(qw).len() as int) =~= ps.map_values(qw));
    }
    let mut dot: Vec<char> = Vec::new();
    dot.push('.');
    assert(dot@ =~= seq!['.']);
    let joined = join_parts(&quoted, &dot);
    chars_to_string(&joined)
}

/// The numbered placeholder of the Postgres wire syntax.
pub open spec fn pg_placeholder_spec(n: nat) -> Seq<char> {
    seq!['$'] + dec_spec(n)
}

/// A per-backend strategy for quoting, placeholders and casts. Every input
/// yields a syntactically valid fragment; identifier safety is the
/// validator's concern, not the dialect's.
pub trait QueryDialect {
    /// What `quote_identifier` returns.
    spec fn quote_spec(&self, s: Seq<char>) -> Seq<char>;

    /// What `placeholder` returns.
    spec fn placeholder_spec(&self, n: nat) -> Seq<char>;

    /// What `type_cast` returns.
    spec fn cast_spec(&self, s: Seq<char>) -> Seq<char>;

    /// Wraps an identifier in the backend's quote character, doubling
    /// embedded quote characters.
    fn quote_identifier(&self, ident: &str) -> (r: String)
        ensures
            r@ == self.quote_spec(ident@),
    ;

    /// The placeholder standing for the argument at 1-based `position`.
    fn placeholder(&self, position: usize) -> (r: String)
        ensures
            r@ == self.placeholder_spec(position as nat),
    ;

    /// The cast suffix appended after a placeholder for the given value.
    fn type_cast(&self, value: &str) -> (r: String)
        ensures
            r@ == self.cast_spec(value@),
    ;
}

/// The Postgres dialect: `"` quoting, `$n` placeholders, inferred casts.
pub struct PostgresDialect;

/// The SQLite dialect: `"` quoting, `?` placeholders, no casts.
pub struct SqliteDialect;

impl QueryDialect for PostgresDialect {
    open spec fn quote_spec(&self, s: Seq<char>) -> Seq<char> {
        quote_wrap_spec(s)
    }

    open spec fn placeholder_spec(&self, n: nat) -> Seq<char> {
        pg_placeholder_spec(n)
    }

    open spec fn cast_spec(&self, s: Seq<char>) -> Seq<char> {
        cast_of(s)
    }

    fn quote_identifier(&self, ident: &str) -> (r: String) {
        let chars = str_to_chars(ident);
        let q = quote_wrap_chars(&chars);
        chars_to_string(&q)
    }

    fn placeholder(&self, position: usize) -> (r: String) {
        pg_placeholder(position)
    }

    fn type_cast(&self, value: &str) -> (r: String) {
        get_postgres_type_casting(value)
    }
}

impl QueryDialect for SqliteDialect {
    open spec fn quote_spec(&self, s: Seq<char>) -> Seq<char> {
        quote_wrap_spec(s)
    }

    open spec fn placeholder_spec(&self, n: nat) -> Seq<char> {
        "?"@
    }

    open spec fn cast_spec(&self, s: Seq<char>) -> Seq<char> {
        Seq::<char>::empty()
    }

    fn quote_identifier(&self, ident: &str) -> (r: String) {
        let chars = str_to_chars(ident);
        let q = quote_wrap_chars(&chars);
        chars_to_string(&q)
    }

    fn placeholder(&self, position: usize) -> (r: String) {
        String::from_str("?")
    }

    fn type_cast(&self, value: &str) -> (r: String) {
        String::new()
    }
}

/// Renders `$n`.
pub fn pg_placeholder(position: usize) -> (r: String)
    ensures
        r@ == pg_placeholder_spec(position as nat),
{
    let digits = usize_to_chars(position);
    let mut v: Vec<char> = Vec::new();
    v.push('$');
    let mut i: usize = 0;
    while i < digits.len()
        invariant
            i <= digits@.len(),
            v@ == seq!['$'] + digits@.subrange(0, i as int),
        decreases digits@.len() - i,
    {
        v.push(digits[i]);
        assert(v@ =~= seq!['$'] + digits@.subrange(0, i + 1 as int));
        i += 1;
    }
    proof {
        assert(digits@.subrange(0, digits@.len() as int) =~= digits@);
    }
    chars_to_string(&v)
}

/// The closed set of backends the condition builder renders for.
#[derive(Clone, Copy, PartialEq, Eq, Structural, Debug)]
pub enum Dialect {
    /// Numbered `$n` placeholders and inferred casts.
    Postgres,
    /// `?` placeholders and no casts.
    Sqlite,
}

impl Dialect {
    /// What quoting produces for this backend.
    pub open spec fn quote_spec(self, s: Seq<char>) -> Seq<char> {
        quote_wrap_spec(s)
    }

    /// What the placeholder looks like for this backend.
    pub open spec fn placeholder_spec(self, n: nat) -> Seq<char> {
        match self {
            Dialect::Postgres => pg_placeholder_spec(n),
            Dialect::Sqlite => "?"@,
        }
    }

    /// What the cast suffix is for this backend.
    pub open spec fn cast_spec(self, s: Seq<char>) -> Seq<char> {
        match self {
            Dialect::Postgres => cast_of(s),
            Dialect::Sqlite => Seq::<char>::empty(),
        }
    }

    /// Quotes one identifier as a whole.
    pub fn quote(&self, ident: &Vec<char>) -> (r: Vec<char>)
        ensures
            r@ == self.quote_spec(ident@),
    {
        quote_wrap_chars(ident)
    }

    /// Renders the placeholder for the argument at 1-based `position`.
    pub fn render_placeholder(&self, position: usize) -> (r: Vec<char>)
        ensures
            r@ == self.placeholder_spec(position as nat),
    {
        match self {
            Dialect::Postgres => {
                let digits = usize_to_chars(position);
                let mut v: Vec<char> = Vec::new();
                v.push('$');
                let mut i: usize = 0;
                while i < digits.len()
                    invariant
                        i <= digits@.len(),
                        v@ == seq!['$'] + digits@.subrange(0, i as int),
                    decreases digits@.len() - i,
                {
                    v.push(digits[i]);
                    assert(v@ =~= seq!['$'] + digits@.subrange(0, i + 1 as int));
                    i += 1;
                }
                proof {
                    assert(digits@.subrange(0, digits@.len() as int) =~= digits@);
                }
                v
            },
            Dialect::Sqlite => {
                let mut v: Vec<char> = Vec::new();
                v.push('?');
                proof {
                    reveal_strlit("?");
                    assert(v@ =~= "?"@);
                }
                v
            },
        }
    }

    /// Renders the cast suffix for a value.
    pub fn render_cast(&self, value: &Vec<char>) -> (r: Vec<char>)
        ensures
            r@ == self.cast_spec(value@),
    {
        match self {
            Dialect::Postgres => {
                let sv = chars_to_string(value);
                let cast = get_postgres_type_casting(sv.as_str());
                str_to_chars(cast.as_str())
            },
            Dialect::Sqlite => Vec::new(),
        }
    }
}

} // verus!
