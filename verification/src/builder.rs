//! The condition builder: turns a validated parameter set into an ordered
//! list of SQL boolean fragments plus a matching ordered argument list.
//! Fragments are emitted in invocation order, and the WHERE clause is their
//! AND-join; argument order decides placeholder binding positions, so every
//! operation's effect on both lists is pinned exactly.

use crate::dialect::{quote_identifier, quote_identifier_spec, quote_wrap_spec, Dialect,
    pg_placeholder_spec, pg_placeholder};
use crate::params::{QueryParams, UtcTimestamp};
use crate::protection::ColumnProtection;
use crate::text::{
    chars_to_string, eq_chars, extend_chars, join_parts, join_spec, str_to_chars, trim_chars,
    trim_spec,
};
use vstd::prelude::*;
use vstd::string::StringExecFns;

verus! {

/// One bound argument, as the backend will receive it.
#[derive(Clone, Debug)]
pub enum ArgValue {
    /// A text value.
    Text(String),
    /// A timestamp value.
    Timestamp(UtcTimestamp),
}

/// The mathematical value of one bound argument.
pub enum ArgView {
    /// A text value.
    Text(Seq<char>),
    /// A timestamp value.
    Timestamp(UtcTimestamp),
}

impl View for ArgValue {
    type V = ArgView;

    open spec fn view(&self) -> ArgView {
        match self {
            ArgValue::Text(s) => ArgView::Text(s@),
            ArgValue::Timestamp(t) => ArgView::Timestamp(*t),
        }
    }
}

/// `c` is one of the column names.
pub open spec fn contains_str(cols: Seq<Seq<char>>, c: Seq<char>) -> bool {
    exists|i: int| 0 <= i < cols.len() && cols[i] == c
}

/// One `LOWER(col) LIKE LOWER(placeholder)` comparison.
pub open spec fn like_piece_spec(d: Dialect, col: Seq<char>, n: nat) -> Seq<char> {
    "LOWER("@ + quote_wrap_spec(col) + ") LIKE LOWER("@ + d.placeholder_spec(n) + seq![')']
}

/// The OR-combined search fragment over the safe search columns.
pub open spec fn search_condition_spec(d: Dialect, vs: Seq<Seq<char>>, n: nat) -> Seq<char> {
    seq!['('] + join_spec(vs.map_values(|c: Seq<char>| like_piece_spec(d, c, n)), " OR "@)
        + seq![')']
}

/// One equality fragment: quoted column, placeholder, cast suffix.
pub open spec fn eq_condition_spec(d: Dialect, col: Seq<char>, val: Seq<char>, n: nat) -> Seq<
    char,
> {
    quote_wrap_spec(col) + " = "@ + d.placeholder_spec(n) + d.cast_spec(val)
}

/// One date lower-bound fragment; the column appears unquoted and the
/// placeholder is always numbered, exactly as emitted.
pub open spec fn date_after_condition_spec(col: Seq<char>, n: nat) -> Seq<char> {
    col + " >= "@ + pg_placeholder_spec(n)
}

/// One date upper-bound fragment.
pub open spec fn date_before_condition_spec(col: Seq<char>, n: nat) -> Seq<char> {
    col + " <= "@ + pg_placeholder_spec(n)
}

/// One custom fragment: dot-aware quoted column, caller's operator,
/// numbered placeholder.
pub open spec fn custom_condition_spec(col: Seq<char>, op: Seq<char>, n: nat) -> Seq<char> {
    quote_identifier_spec(col) + seq![' '] + op + seq![' '] + pg_placeholder_spec(n)
}

/// What the search operation does to the fragment and argument lists: with a
/// term and at least one safe search column, it appends one OR-combined
/// fragment and binds the wildcard-wrapped term once; otherwise it appends
/// nothing.
pub open spec fn search_applied(
    conds: Seq<Seq<char>>,
    args: Seq<ArgView>,
    safe: spec_fn(Seq<char>) -> bool,
    d: Dialect,
    params: QueryParams,
) -> (Seq<Seq<char>>, Seq<ArgView>) {
    match (params.search.search, params.search.search_columns) {
        (Some(term), Some(cols)) => {
            let vs = cols@.map_values(|c: String| c@).filter(safe);
            if vs.len() > 0 && trim_spec(term@).len() > 0 {
                (
                    conds.push(search_condition_spec(d, vs, (args.len() + 1) as nat)),
                    args.push(ArgView::Text(seq!['%'] + term@ + seq!['%'])),
                )
            } else {
                (conds, args)
            }
        },
        _ => (conds, args),
    }
}

/// What the filter operation does: per filter entry in order, one equality
/// fragment and one bound text argument when the column is safe and a value
/// is present; otherwise that entry has no effect at all.
pub open spec fn filters_applied(
    conds: Seq<Seq<char>>,
    args: Seq<ArgView>,
    safe: spec_fn(Seq<char>) -> bool,
    d: Dialect,
    fs: Seq<(String, Option<String>)>,
) -> (Seq<Seq<char>>, Seq<ArgView>)
    decreases fs.len(),
{
    if fs.len() == 0 {
        (conds, args)
    } else {
        let k = fs[0].0;
        let v = fs[0].1;
        if safe(k@) && v is Some {
            filters_applied(
                conds.push(eq_condition_spec(d, k@, v->0@, (args.len() + 1) as nat)),
                args.push(ArgView::Text(v->0@)),
                safe,
                d,
                fs.drop_first(),
            )
        } else {
            filters_applied(conds, args, safe, d, fs.drop_first())
        }
    }
}

/// One optional lower-bound step of the date range.
pub open spec fn date_after_step(
    conds: Seq<Seq<char>>,
    args: Seq<ArgView>,
    col: Seq<char>,
    after: Option<UtcTimestamp>,
) -> (Seq<Seq<char>>, Seq<ArgView>) {
    match after {
        Some(a) => (
            conds.push(date_after_condition_spec(col, (args.len() + 1) as nat)),
            args.push(ArgView::Timestamp(a)),
        ),
        None => (conds, args),
    }
}

/// One optional upper-bound step of the date range.
pub open spec fn date_before_step(
    conds: Seq<Seq<char>>,
    args: Seq<ArgView>,
    col: Seq<char>,
    before: Option<UtcTimestamp>,
) -> (Seq<Seq<char>>, Seq<ArgView>) {
    match before {
        Some(b) => (
            conds.push(date_before_condition_spec(col, (args.len() + 1) as nat)),
            args.push(ArgView::Timestamp(b)),
        ),
        None => (conds, args),
    }
}

/// What the date-range operation does: with a safe date column, an inclusive
/// lower and/or upper bound, each independently optional; otherwise nothing.
pub open spec fn dates_applied(
    conds: Seq<Seq<char>>,
    args: Seq<ArgView>,
    safe: spec_fn(Seq<char>) -> bool,
    params: QueryParams,
) -> (Seq<Seq<char>>, Seq<ArgView>) {
    match params.date_range.date_column {
        None => (conds, args),
        Some(col) => {
            if !safe(col@) {
                (conds, args)
            } else {
                let mid = date_after_step(conds, args, col@, params.date_range.date_after);
                date_before_step(mid.0, mid.1, col@, params.date_range.date_before)
            }
        },
    }
}

/// The filter step binds at most one argument per filter entry.
pub proof fn lemma_filters_applied_len(
    conds: Seq<Seq<char>>,
    args: Seq<ArgView>,
    safe: spec_fn(Seq<char>) -> bool,
    d: Dialect,
    fs: Seq<(String, Option<String>)>,
)
    ensures
        filters_applied(conds, args, safe, d, fs).1.len() <= args.len() + fs.len(),
        filters_applied(conds, args, safe, d, fs).0.len() <= conds.len() + fs.len(),
    decreases fs.len(),
{
    if fs.len() > 0 {
        let k = fs[0].0;
        let v = fs[0].1;
        if safe(k@) && v is Some {
            lemma_filters_applied_len(
                conds.push(eq_condition_spec(d, k@, v->0@, (args.len() + 1) as nat)),
                args.push(ArgView::Text(v->0@)),
                safe,
                d,
                fs.drop_first(),
            );
        } else {
            lemma_filters_applied_len(conds, args, safe, d, fs.drop_first());
        }
    }
}

/// The column acceptance of a builder fresh from `new`, over an allow-list.
pub open spec fn default_safe_for(cols: Seq<Seq<char>>) -> spec_fn(Seq<char>) -> bool {
    |c: Seq<char>| contains_str(cols, c) && crate::protection::default_protection_safe(c)
}

/// The fragments and arguments that the safe-defaults build produces: the
/// search condition, then the equality filters, then the date range, all
/// gated by the default validator over the given allow-list.
pub open spec fn safe_defaults_pipeline(cols: Seq<Seq<char>>, params: QueryParams) -> (
    Seq<Seq<char>>,
    Seq<ArgView>,
) {
    let safe = default_safe_for(cols);
    let p1 = search_applied(
        Seq::<Seq<char>>::empty(),
        Seq::<ArgView>::empty(),
        safe,
        Dialect::Postgres,
        params,
    );
    let p2 = filters_applied(p1.0, p1.1, safe, Dialect::Postgres, params.filters@);
    dates_applied(p2.0, p2.1, safe, params)
}

/// Builds the default condition set for the Postgres backend: search, then
/// equality filters, then the date range, with column protection on.
pub fn build_query_with_safe_defaults(params: &QueryParams, valid_columns: Vec<String>) -> (r: (
    Vec<String>,
    Vec<ArgValue>,
))
    requires
        params.filters@.len() + 3 <= usize::MAX,
    ensures
        r.0@.map_values(|s: String| s@) == safe_defaults_pipeline(
            valid_columns@.map_values(|s: String| s@),
            *params,
        ).0,
        r.1@.map_values(|a: ArgValue| a@) == safe_defaults_pipeline(
            valid_columns@.map_values(|s: String| s@),
            *params,
        ).1,
{
    let ghost colsv = valid_columns@.map_values(|s: String| s@);
    let ghost safe0 = default_safe_for(colsv);
    let b = QueryBuilder::new(valid_columns);
    proof {
        assert forall|c: Seq<char>| b.safe_spec(c) == safe0(c) by {
            crate::protection::lemma_default_protection_safe(b.protection->0, c);
        }
        assert((|c: Seq<char>| b.safe_spec(c)) =~= safe0);
    }
    let b1 = b.with_search(params);
    proof {
        lemma_filters_applied_len(b1.conds(), b1.args(), safe0, b1.dialect, params.filters@);
        assert forall|c: Seq<char>| b1.safe_spec(c) == safe0(c) by {
            lemma_safe_same_config(b1, b, c);
        }
        assert((|c: Seq<char>| b1.safe_spec(c)) =~= safe0);
    }
    let b2 = b1.with_filters(params);
    proof {
        assert forall|c: Seq<char>| b2.safe_spec(c) == safe0(c) by {
            lemma_safe_same_config(b2, b, c);
        }
        assert((|c: Seq<char>| b2.safe_spec(c)) =~= safe0);
    }
    let b3 = b2.with_date_range(params);
    b3.build()
}

/// Builders with the same configuration accept the same columns.
pub proof fn lemma_safe_same_config(a: QueryBuilder, b: QueryBuilder, c: Seq<char>)
    requires
        a.same_config(b),
    ensures
        a.safe_spec(c) == b.safe_spec(c),
{
}

/// A search with an empty or whitespace-only term, or with no safe search
/// column, adds no fragment and binds no argument.
pub proof fn lemma_empty_search_adds_nothing(
    conds: Seq<Seq<char>>,
    args: Seq<ArgView>,
    safe: spec_fn(Seq<char>) -> bool,
    d: Dialect,
    params: QueryParams,
)
    requires
        (match params.search.search {
            Some(term) => trim_spec(term@).len() == 0,
            None => true,
        }) || (match params.search.search_columns {
            Some(cols) => cols@.map_values(|c: String| c@).filter(safe).len() == 0,
            None => true,
        }),
    ensures
        search_applied(conds, args, safe, d, params) == (conds, args),
{
}

/// A filter on a column the target record type does not have is dropped
/// with zero effect on the generated fragments and bound arguments.
pub proof fn lemma_unknown_filter_dropped(
    conds: Seq<Seq<char>>,
    args: Seq<ArgView>,
    safe: spec_fn(Seq<char>) -> bool,
    d: Dialect,
    fs: Seq<(String, Option<String>)>,
    k: String,
    v: Option<String>,
)
    requires
        !safe(k@),
    ensures
        filters_applied(conds, args, safe, d, fs.push((k, v))) == filters_applied(
            conds,
            args,
            safe,
            d,
            fs,
        ),
    decreases fs.len(),
{
    if fs.len() == 0 {
        let g = fs.push((k, v));
        assert(g.len() == 1);
        assert(g[0] == (k, v));
        assert(g.drop_first() =~= Seq::<(String, Option<String>)>::empty());
        assert(filters_applied(conds, args, safe, d, g.drop_first()) == (conds, args));
    } else {
        let g = fs.push((k, v));
        assert(g[0] == fs[0]);
        assert(g.drop_first() =~= fs.drop_first().push((k, v)));
        let k0 = fs[0].0;
        let v0 = fs[0].1;
        if safe(k0@) && v0 is Some {
            lemma_unknown_filter_dropped(
                conds.push(eq_condition_spec(d, k0@, v0->0@, (args.len() + 1) as nat)),
                args.push(ArgView::Text(v0->0@)),
                safe,
                d,
                fs.drop_first(),
                k,
                v,
            );
        } else {
            lemma_unknown_filter_dropped(conds, args, safe, d, fs.drop_first(), k, v);
        }
    }
}

/// Builds WHERE-clause fragments and their bound arguments for one backend.
pub struct QueryBuilder {
    /// Emitted fragments, in order.
    pub conditions: Vec<String>,
    /// Bound arguments, in order; the fragment emitted for argument `i`
    /// numbers its placeholder `i + 1`.
    pub arguments: Vec<ArgValue>,
    /// The allow-list of column names of the target record type.
    pub valid_columns: Vec<String>,
    /// The column-safety validator, if any.
    pub protection: Option<ColumnProtection>,
    /// Whether the validator is consulted at all.
    pub protection_enabled: bool,
    /// The backend the fragments are rendered for.
    pub dialect: Dialect,
}

impl QueryBuilder {
    /// The emitted fragments.
    pub open spec fn conds(self) -> Seq<Seq<char>> {
        self.conditions@.map_values(|s: String| s@)
    }

    /// The bound arguments.
    pub open spec fn args(self) -> Seq<ArgView> {
        self.arguments@.map_values(|a: ArgValue| a@)
    }

    /// The column allow-list.
    pub open spec fn cols(self) -> Seq<Seq<char>> {
        self.valid_columns@.map_values(|s: String| s@)
    }

    /// Everything but the two growing lists, for unchanged-configuration
    /// clauses.
    pub open spec fn same_config(self, other: Self) -> bool {
        &&& self.cols() == other.cols()
        &&& self.dialect == other.dialect
        &&& self.protection_enabled == other.protection_enabled
        &&& (match (self.protection, other.protection) {
            (Some(p), Some(q)) => p.blocked() == q.blocked() && p.allowed() == q.allowed()
                && p.allowed_system() == q.allowed_system(),
            (None, None) => true,
            _ => false,
        })
    }

    /// A column is usable when the record type has it and, with protection
    /// enabled, the validator accepts it.
    pub open spec fn safe_spec(self, c: Seq<char>) -> bool {
        if !self.protection_enabled {
            contains_str(self.cols(), c)
        } else {
            match self.protection {
                Some(p) => contains_str(self.cols(), c) && p.is_safe_spec(c),
                None => contains_str(self.cols(), c),
            }
        }
    }

    /// A fresh builder for the Postgres backend with default protection.
    pub fn new(valid_columns: Vec<String>) -> (r: Self)
        ensures
            r.conds() == Seq::<Seq<char>>::empty(),
            r.args() == Seq::<ArgView>::empty(),
            r.cols() == valid_columns@.map_values(|s: String| s@),
            r.protection matches Some(p) && p.blocked() == ColumnProtection::default_blocked()
                && p.allowed() == Seq::<Seq<char>>::empty() && p.allowed_system() == Seq::<
                Seq<char>,
            >::empty(),
            r.protection_enabled,
            r.dialect == Dialect::Postgres,
    {
        Self::new_with_dialect(valid_columns, Dialect::Postgres)
    }

    /// A fresh builder for the given backend with default protection.
    pub fn new_with_dialect(valid_columns: Vec<String>, dialect: Dialect) -> (r: Self)
        ensures
            r.conds() == Seq::<Seq<char>>::empty(),
            r.args() == Seq::<ArgView>::empty(),
            r.cols() == valid_columns@.map_values(|s: String| s@),
            r.protection matches Some(p) && p.blocked() == ColumnProtection::default_blocked()
                && p.allowed() == Seq::<Seq<char>>::empty() && p.allowed_system() == Seq::<
                Seq<char>,
            >::empty(),
            r.protection_enabled,
            r.dialect == dialect,
    {
        let r = QueryBuilder {
            conditions: Vec::new(),
            arguments: Vec::new(),
            valid_columns,
            protection: Some(Default::default()),
            protection_enabled: true,
            dialect,
        };
        proof {
            assert(r.conds() =~= Seq::<Seq<char>>::empty());
            assert(r.args() =~= Seq::<ArgView>::empty());
        }
        r
    }

    /// Whether the target record type has this column.
    pub fn has_column(&self, column: &str) -> (r: bool)
        ensures
            r == contains_str(self.cols(), column@),
    {
        let c = str_to_chars(column);
        let mut i: usize = 0;
        while i < self.valid_columns.len()
            invariant
                i <= self.cols().len(),
                c@ == column@,
                forall|j: int| 0 <= j < i ==> self.cols()[j] != c@,
            decreases self.cols().len() - i,
        {
            let w = str_to_chars(self.valid_columns[i].as_str());
            if eq_chars(&c, &w) {
                assert(self.cols()[i as int] == c@);
                return true;
            }
            i += 1;
        }
        false
    }

    /// Whether a column may appear in generated SQL right now.
    fn is_column_safe(&self, column: &str) -> (r: bool)
        ensures
            r == self.safe_spec(column@),
    {
        let column_exists = self.has_column(column);
        if !self.protection_enabled {
            return column_exists;
        }
        match &self.protection {
            Some(protection) => column_exists && protection.is_safe(column),
            None => column_exists,
        }
    }

    /// Switches the column-safety validator off: only membership in the
    /// record type's columns still gates the helpers.
    pub fn disable_protection(self) -> (r: Self)
        ensures
            r == (QueryBuilder { protection_enabled: false, ..self }),
    {
        QueryBuilder { protection_enabled: false, ..self }
    }

    /// Appends a raw SQL fragment verbatim, bypassing every check; the
    /// caller alone answers for it.
    pub fn with_raw_condition(self, condition: String) -> (r: Self)
        ensures
            r.conds() == self.conds().push(condition@),
            r.args() == self.args(),
            r.same_config(self),
    {
        let ghost cw = condition@;
        let mut s = self;
        let ghost before = s.conds();
        s.conditions.push(condition);
        proof {
            assert(s.conds() =~= before.push(cw));
        }
        s
    }

    /// Appends `column op placeholder` for a safe column and binds the
    /// value; an unsafe column is skipped, not an error.
    pub fn with_condition(self, column: &str, condition: &str, value: String) -> (r: Self)
        requires
            self.args().len() < usize::MAX,
        ensures
            r.same_config(self),
            self.safe_spec(column@) ==> r.conds() == self.conds().push(
                custom_condition_spec(column@, condition@, (self.args().len() + 1) as nat),
            ) && r.args() == self.args().push(ArgView::Text(value@)),
            !self.safe_spec(column@) ==> r.conds() == self.conds() && r.args() == self.args(),
    {
        let ghost vw = value@;
        let mut s = self;
        if s.is_column_safe(column) {
            let quoted = quote_identifier(column);
            let n = s.arguments.len() + 1;
            let ph = pg_placeholder(n);
            let mut frag = str_to_chars(quoted.as_str());
            let ghost q = frag@;
            frag.push(' ');
            let ghost q2 = frag@;
            proof {
                assert(q2 =~= q + seq![' ']);
            }
            let opc = str_to_chars(condition);
            let mut i: usize = 0;
            while i < opc.len()
                invariant
                    i <= opc@.len(),
                    frag@ == q2 + opc@.subrange(0, i as int),
                decreases opc@.len() - i,
            {
                frag.push(opc[i]);
                assert(frag@ =~= q2 + opc@.subrange(0, i + 1 as int));
                i += 1;
            }
            proof {
                assert(opc@.subrange(0, opc@.len() as int) =~= opc@);
            }
            frag.push(' ');
            let ghost q3 = frag@;
            proof {
                assert(q3 =~= q2 + opc@ + seq![' ']);
            }
            let phc = str_to_chars(ph.as_str());
            let mut i2: usize = 0;
            while i2 < phc.len()
                invariant
                    i2 <= phc@.len(),
                    frag@ == q3 + phc@.subrange(0, i2 as int),
                decreases phc@.len() - i2,
            {
                frag.push(phc[i2]);
                assert(frag@ =~= q3 + phc@.subrange(0, i2 + 1 as int));
                i2 += 1;
            }
            proof {
                assert(phc@.subrange(0, phc@.len() as int) =~= phc@);
                assert(frag@ =~= custom_condition_spec(
                    column@,
                    condition@,
                    (s.args().len() + 1) as nat,
                ));
            }
            let ghost bc = s.conds();
            let ghost ba = s.args();
            s.conditions.push(chars_to_string(&frag));
            s.arguments.push(ArgValue::Text(value));
            proof {
                assert(s.conds() =~= bc.push(custom_condition_spec(
                    column@,
                    condition@,
                    (ba.len() + 1) as nat,
                )));
                assert(s.args() =~= ba.push(ArgView::Text(vw)));
            }
        }
        s
    }

    /// Hands the builder to a caller-supplied combinator for grouped ad-hoc
    /// conditions; what the closure guarantees is what holds afterwards.
    pub fn with_combined_conditions<F: FnOnce(Self) -> Self>(self, f: F) -> (r: Self)
        requires
            call_requires(f, (self,)),
        ensures
            call_ensures(f, (self,), r),
    {
        f(self)
    }

    /// Adds the OR-combined, case-insensitive search condition: one LIKE
    /// comparison per safe search column, all numbering the same placeholder,
    /// and one shared wildcard-wrapped argument. An empty or
    /// whitespace-only term, or an empty set of safe columns, adds nothing.
    pub fn with_search(self, params: &QueryParams) -> (r: Self)
        requires
            self.args().len() < usize::MAX,
        ensures
            r.same_config(self),
            ({
                let out = search_applied(
                    self.conds(),
                    self.args(),
                    |c: Seq<char>| self.safe_spec(c),
                    self.dialect,
                    *params,
                );
                r.conds() == out.0 && r.args() == out.1
            }),
    {
        let ghost safe = |c: Seq<char>| self.safe_spec(c);
        let ghost self0 = self;
        let mut s = self;
        let term = match &params.search.search {
            None => {
                return s;
            },
            Some(t) => t.clone(),
        };
        let columns = match &params.search.search_columns {
            None => {
                proof {
                    assert(search_applied(self0.conds(), self0.args(), safe, self0.dialect, *params)
                        == (self0.conds(), self0.args()));
                }
                return s;
            },
            Some(cols) => cols,
        };
        let ghost colviews = columns@.map_values(|c: String| c@);
        let mut vs: Vec<Vec<char>> = Vec::new();
        let mut i: usize = 0;
        while i < columns.len()
            invariant
                i <= colviews.len(),
                s == self0,
                safe == (|c: Seq<char>| self0.safe_spec(c)),
                colviews == columns@.map_values(|c: String| c@),
                vs@.map_values(|p: Vec<char>| p@) == colviews.subrange(0, i as int).filter(safe),
            decreases colviews.len() - i,
        {
            reveal(Seq::filter);
            assert(colviews.subrange(0, i + 1 as int).drop_last() =~= colviews.subrange(0, i as int));
            let ghost before = vs@;
            let col = &columns[i];
            proof {
                assert(colviews[i as int] == col@);
            }
            if s.is_column_safe(col.as_str()) {
                let cc = str_to_chars(col.as_str());
                vs.push(cc);
                proof {
                    assert(vs@.map_values(|p: Vec<char>| p@) =~= before.map_values(
                        |p: Vec<char>| p@,
                    ).push(col@));
                }
            }
            assert(vs@.map_values(|p: Vec<char>| p@) =~= colviews.subrange(0, i + 1 as int).filter(
                safe,
            ));
            i += 1;
        }
        proof {
            assert(colviews.subrange(0, colviews.len() as int) =~= colviews);
        }
        let termc = str_to_chars(term.as_str());
        let trimmed = trim_chars(&termc);
        if vs.len() == 0 || trimmed.len() == 0 {
            return s;
        }
        // the shared wildcard-wrapped argument
        let mut pattern: Vec<char> = Vec::new();
        pattern.push('%');
        extend_chars(&mut pattern, &termc);
        pattern.push('%');
        proof {
            assert(pattern@ =~= seq!['%'] + term@ + seq!['%']);
        }
        let n = s.arguments.len() + 1;
        let ghost vsv = vs@.map_values(|p: Vec<char>| p@);
        let ghost piece_of = |c: Seq<char>| like_piece_spec(self0.dialect, c, n as nat);
        let mut pieces: Vec<Vec<char>> = Vec::new();
        let mut j: usize = 0;
        while j < vs.len()
            invariant
                j <= vsv.len(),
                s == self0,
                n == s.args().len() + 1,
                piece_of == (|c: Seq<char>| like_piece_spec(self0.dialect, c, n as nat)),
                vsv == vs@.map_values(|p: Vec<char>| p@),
                pieces@.map_values(|p: Vec<char>| p@) == vsv.map_values(piece_of).subrange(
                    0,
                    j as int,
                ),
            decreases vsv.len() - j,
        {
            let ghost before = pieces@;
            let mut piece = str_to_chars("LOWER(");
            let q = s.dialect.quote(&vs[j]);
            extend_chars(&mut piece, &q);
            let mid = str_to_chars(") LIKE LOWER(");
            extend_chars(&mut piece, &mid);
            let ph = s.dialect.render_placeholder(n);
            extend_chars(&mut piece, &ph);
            piece.push(')');
            proof {
                assert(piece@ =~= like_piece_spec(self0.dialect, vsv[j as int], n as nat));
                assert(piece@ == vsv.map_values(piece_of)[j as int]);
            }
            pieces.push(piece);
            proof {
                assert(pieces@.map_values(|p: Vec<char>| p@) =~= before.map_values(
                    |p: Vec<char>| p@,
                ).push(vsv.map_values(piece_of)[j as int]));
                assert(pieces@.map_values(|p: Vec<char>| p@) =~= vsv.map_values(piece_of).subrange(
                    0,
                    j + 1 as int,
                ));
            }
            j += 1;
        }
        proof {
            assert(vsv.map_values(piece_of).subrange(0, vsv.map_values(piece_of).len() as int)
                =~= vsv.map_values(piece_of));
        }
        let orsep = str_to_chars(" OR ");
        let joined = join_parts(&pieces, &orsep);
        let mut frag: Vec<char> = Vec::new();
        frag.push('(');
        extend_chars(&mut frag, &joined);
        frag.push(')');
        proof {
            assert(frag@ =~= search_condition_spec(self0.dialect, vsv, n as nat));
        }
        let ghost bc = s.conds();
        let ghost ba = s.args();
        s.conditions.push(chars_to_string(&frag));
        s.arguments.push(ArgValue::Text(chars_to_string(&pattern)));
        proof {
            assert(s.conds() =~= bc.push(search_condition_spec(self0.dialect, vsv, n as nat)));
            assert(s.args() =~= ba.push(ArgView::Text(seq!['%'] + term@ + seq!['%'])));
        }
        s
    }

    /// Adds one equality condition per present filter value on a safe
    /// column, in filter order; filters on unsafe or unknown columns are
    /// skipped with no effect on fragments or bound arguments.
    pub fn with_filters(self, params: &QueryParams) -> (r: Self)
        requires
            self.args().len() + params.filters@.len() <= usize::MAX,
        ensures
            r.same_config(self),
            ({
                let out = filters_applied(
                    self.conds(),
                    self.args(),
                    |c: Seq<char>| self.safe_spec(c),
                    self.dialect,
                    params.filters@,
                );
                r.conds() == out.0 && r.args() == out.1
            }),
    {
        let ghost safe = |c: Seq<char>| self.safe_spec(c);
        let ghost self0 = self;
        let ghost fs = params.filters@;
        let mut s = self;
        let mut i: usize = 0;
        proof {
            assert(fs.subrange(0, fs.len() as int) =~= fs);
        }
        while i < params.filters.len()
            invariant
                i <= fs.len(),
                fs == params.filters@,
                s.same_config(self0),
                s.dialect == self0.dialect,
                safe == (|c: Seq<char>| self0.safe_spec(c)),
                s.args().len() + (fs.len() - i) <= usize::MAX,
                filters_applied(self0.conds(), self0.args(), safe, self0.dialect, fs)
                    == filters_applied(
                    s.conds(),
                    s.args(),
                    safe,
                    self0.dialect,
                    fs.subrange(i as int, fs.len() as int),
                ),
            decreases fs.len() - i,
        {
            let ghost tail = fs.subrange(i as int, fs.len() as int);
            let ghost tail2 = fs.subrange(i + 1 as int, fs.len() as int);
            proof {
                assert(tail.len() > 0);
                assert(tail[0] == fs[i as int]);
                assert(tail.drop_first() =~= tail2);
            }
            let key = &params.filters[i].0;
            let safe_col = s.is_column_safe(key.as_str());
            proof {
                lemma_safe_same_config(s, self0, key@);
            }
            if safe_col {
                match &params.filters[i].1 {
                    Some(value) => {
                        let quoted = s.dialect.quote(&str_to_chars(key.as_str()));
                        let mut frag = quoted;
                        let eqs = str_to_chars(" = ");
                        extend_chars(&mut frag, &eqs);
                        let n = s.arguments.len() + 1;
                        let ph = s.dialect.render_placeholder(n);
                        extend_chars(&mut frag, &ph);
                        let cast = s.dialect.render_cast(&str_to_chars(value.as_str()));
                        extend_chars(&mut frag, &cast);
                        proof {
                            assert(frag@ =~= eq_condition_spec(
                                self0.dialect,
                                key@,
                                value@,
                                n as nat,
                            ));
                        }
                        let ghost bc = s.conds();
                        let ghost ba = s.args();
                        s.conditions.push(chars_to_string(&frag));
                        s.arguments.push(ArgValue::Text(value.clone()));
                        proof {
                            assert(s.conds() =~= bc.push(eq_condition_spec(
                                self0.dialect,
                                key@,
                                value@,
                                n as nat,
                            )));
                            assert(s.args() =~= ba.push(ArgView::Text(value@)));
                        }
                    },
                    None => {},
                }
            }
            i += 1;
        }
        proof {
            assert(fs.subrange(fs.len() as int, fs.len() as int) =~= Seq::<(
                String,
                Option<String>,
            )>::empty());
        }
        s
    }

    /// Adds an inclusive lower and/or upper bound on the configured date
    /// column, each independently optional; an unsafe or unknown column is
    /// skipped with no effect.
    pub fn with_date_range(self, params: &QueryParams) -> (r: Self)
        requires
            self.args().len() + 2 <= usize::MAX,
        ensures
            r.same_config(self),
            ({
                let out = dates_applied(
                    self.conds(),
                    self.args(),
                    |c: Seq<char>| self.safe_spec(c),
                    *params,
                );
                r.conds() == out.0 && r.args() == out.1
            }),
    {
        let ghost self0 = self;
        let mut s = self;
        let date_column = match &params.date_range.date_column {
            None => {
                return s;
            },
            Some(c) => c.clone(),
        };
        if !s.is_column_safe(date_column.as_str()) {
            return s;
        }
        match &params.date_range.date_after {
            Some(after) => {
                let mut frag = str_to_chars(date_column.as_str());
                let ge = str_to_chars(" >= ");
                extend_chars(&mut frag, &ge);
                let n = s.arguments.len() + 1;
                let ph = pg_placeholder(n);
                let phc = str_to_chars(ph.as_str());
                extend_chars(&mut frag, &phc);
                proof {
                    assert(frag@ =~= date_after_condition_spec(date_column@, n as nat));
                }
                let ghost bc = s.conds();
                let ghost ba = s.args();
                s.conditions.push(chars_to_string(&frag));
                s.arguments.push(ArgValue::Timestamp(*after));
                proof {
                    assert(s.conds() =~= bc.push(date_after_condition_spec(
                        date_column@,
                        n as nat,
                    )));
                    assert(s.args() =~= ba.push(ArgView::Timestamp(*after)));
                }
            },
            None => {},
        }
        match &params.date_range.date_before {
            Some(before) => {
                let mut frag = str_to_chars(date_column.as_str());
                let le = str_to_chars(" <= ");
                extend_chars(&mut frag, &le);
                let n = s.arguments.len() + 1;
                let ph = pg_placeholder(n);
                let phc = str_to_chars(ph.as_str());
                extend_chars(&mut frag, &phc);
                proof {
                    assert(frag@ =~= date_before_condition_spec(date_column@, n as nat));
                }
                let ghost bc = s.conds();
                let ghost ba = s.args();
                s.conditions.push(chars_to_string(&frag));
                s.arguments.push(ArgValue::Timestamp(*before));
                proof {
                    assert(s.conds() =~= bc.push(date_before_condition_spec(
                        date_column@,
                        n as nat,
                    )));
                    assert(s.args() =~= ba.push(ArgView::Timestamp(*before)));
                }
            },
            None => {},
        }
        s
    }

    /// Finishes the build: the fragments and their bound arguments.
    pub fn build(self) -> (r: (Vec<String>, Vec<ArgValue>))
        ensures
            r.0@.map_values(|s: String| s@) == self.conds(),
            r.1@.map_values(|a: ArgValue| a@) == self.args(),
    {
        (self.conditions, self.arguments)
    }
}

} // verus!
