//! The pagination orchestrator's computational core: wraps a caller-supplied
//! base query as a derived table, derives the optional COUNT statement and
//! the page statement from one condition set, and assembles the response
//! envelope. Executing the statements is the caller's part; everything here
//! is a pure function of its inputs.

use crate::builder::{build_query_with_safe_defaults, safe_defaults_pipeline, ArgValue};
use crate::dialect::{quote_identifier, quote_identifier_spec};
use crate::params::{
    QueryPaginationParams, QueryParams, QuerySortDirection,
};
use crate::text::{chars_to_string, dec_spec, extend_chars, join_parts, join_spec, str_to_chars};
use vstd::prelude::*;
use vstd::string::StringExecFns;

verus! {

/// One page of typed records, the echoed pagination parameters, and the
/// optional totals.
#[derive(Clone, Debug)]
pub struct PaginatedResponse<T> {
    /// The records of the requested page.
    pub records: Vec<T>,
    /// The pagination parameters the page was fetched with.
    pub pagination: QueryPaginationParams,
    /// How many records match in all; absent when totals are disabled.
    pub total: Option<i64>,
    /// How many pages that total fills; absent when totals are disabled.
    pub total_pages: Option<i64>,
}

/// The caller's base query wrapped as a derived table.
pub open spec fn base_query_spec(sql: Seq<char>) -> Seq<char> {
    "WITH base_query AS ("@ + sql + seq![')']
}

/// The AND-join of the fragments, or nothing when there are none.
pub open spec fn where_clause_spec(conds: Seq<Seq<char>>) -> Seq<char> {
    if conds.len() == 0 {
        Seq::<char>::empty()
    } else {
        " WHERE "@ + join_spec(conds, " AND "@)
    }
}

/// The ORDER BY clause over the quoted sort column.
pub open spec fn order_clause_spec(sort_column: Seq<char>, direction: QuerySortDirection) -> Seq<
    char,
> {
    " ORDER BY "@ + quote_identifier_spec(sort_column) + (match direction {
        QuerySortDirection::Ascending => " ASC"@,
        QuerySortDirection::Descending => " DESC"@,
    })
}

/// The LIMIT/OFFSET clause: the page size, then the records skipped before
/// the requested page.
pub open spec fn limit_offset_spec(page: int, page_size: int) -> Seq<char> {
    " LIMIT "@ + dec_spec(page_size as nat) + " OFFSET "@ + dec_spec(((page - 1) * page_size) as nat)
}

/// The COUNT statement: the derived table, a COUNT over it, and the same
/// WHERE text as the page statement.
pub open spec fn count_sql_spec(base: Seq<char>, conds: Seq<Seq<char>>) -> Seq<char> {
    base_query_spec(base) + " SELECT COUNT(*) FROM base_query"@ + where_clause_spec(conds)
}

/// The page statement: the derived table, the conditions, the ordering and
/// the page bounds.
pub open spec fn main_sql_spec(base: Seq<char>, conds: Seq<Seq<char>>, params: QueryParams) -> Seq<
    char,
> {
    base_query_spec(base) + " SELECT * FROM base_query"@ + where_clause_spec(conds)
        + order_clause_spec(params.sort.sort_column@, params.sort.sort_direction)
        + limit_offset_spec(params.pagination.page as int, params.pagination.page_size as int)
}

/// How many pages a total fills: zero for an empty result, otherwise the
/// total divided by the page size, rounded up.
pub open spec fn total_pages_spec(total: int, page_size: int) -> int {
    if total == 0 {
        0
    } else {
        (total + page_size - 1) / page_size
    }
}

/// Renders a non-negative number in decimal.
fn i64_to_chars(n: i64) -> (r: Vec<char>)
    requires
        n >= 0,
    ensures
        r@ == dec_spec(n as nat),
    decreases n,
{
    if n < 10 {
        let d: u8 = 48 + (n as u8);
        let mut r: Vec<char> = Vec::new();
        r.push(d as char);
        assert(r@ =~= seq![crate::text::dec_digit(n as int)]);
        r
    } else {
        let mut r = i64_to_chars(n / 10);
        let d: u8 = 48 + ((n % 10) as u8);
        r.push(d as char);
        assert(r@ =~= dec_spec((n / 10) as nat) + seq![crate::text::dec_digit((n % 10) as int)]);
        r
    }
}

/// Clones a list of column names.
fn clone_strings(v: &Vec<String>) -> (r: Vec<String>)
    ensures
        r@.map_values(|s: String| s@) == v@.map_values(|s: String| s@),
{
    let mut r: Vec<String> = Vec::new();
    let mut i: usize = 0;
    while i < v.len()
        invariant
            i <= v@.len(),
            r@.map_values(|s: String| s@) == v@.map_values(|s: String| s@).subrange(0, i as int),
        decreases v@.len() - i,
    {
        let ghost before = r@;
        let c = v[i].clone();
        r.push(c);
        proof {
            assert(r@.map_values(|s: String| s@) =~= before.map_values(|s: String| s@).push(c@));
            assert(r@.map_values(|s: String| s@) =~= v@.map_values(|s: String| s@).subrange(
                0,
                i + 1 as int,
            ));
        }
        i += 1;
    }
    proof {
        assert(v@.map_values(|s: String| s@).subrange(0, v@.len() as int) =~= v@.map_values(
            |s: String| s@,
        ));
    }
    r
}

/// Everything the caller needs to run one paginated request: the optional
/// COUNT statement, the page statement, and the bound arguments both share.
pub struct QueryPlan {
    /// The COUNT statement, present exactly when totals are enabled.
    pub count_sql: Option<String>,
    /// The page statement.
    pub main_sql: String,
    /// The bound arguments, in placeholder order; both statements use the
    /// same list.
    pub arguments: Vec<ArgValue>,
    /// The pagination parameters echoed into the response.
    pub pagination: QueryPaginationParams,
}

/// Prepares and describes one paginated request over a base query.
pub struct PaginatedQueryBuilder {
    /// The caller's base SQL, wrapped as a derived table when built.
    pub base_sql: String,
    /// The validated request parameters.
    pub params: QueryParams,
    /// The allow-list of column names of the target record type.
    pub valid_columns: Vec<String>,
    /// Whether the COUNT phase runs at all.
    pub totals_count_enabled: bool,
}

impl PaginatedQueryBuilder {
    /// The allow-list, as character sequences.
    pub open spec fn cols(self) -> Seq<Seq<char>> {
        self.valid_columns@.map_values(|s: String| s@)
    }

    /// A builder over a base query with default parameters and totals
    /// enabled.
    pub fn new(base_query: &str, valid_columns: Vec<String>) -> (r: Self)
        ensures
            r.base_sql@ == base_query@,
            r.params.pagination.page == crate::params::DEFAULT_PAGE,
            r.params.pagination.page_size == crate::params::DEFAULT_MIN_PAGE_SIZE,
            r.params.filters@ == Seq::<(String, Option<String>)>::empty(),
            r.params.search.search is None,
            r.cols() == valid_columns@.map_values(|s: String| s@),
            r.totals_count_enabled,
    {
        PaginatedQueryBuilder {
            base_sql: String::from_str(base_query),
            params: Default::default(),
            valid_columns,
            totals_count_enabled: true,
        }
    }

    /// Replaces the request parameters.
    pub fn with_params(self, params: QueryParams) -> (r: Self)
        ensures
            r == (PaginatedQueryBuilder { params, ..self }),
    {
        PaginatedQueryBuilder { params, ..self }
    }

    /// Skips the COUNT phase: the response will carry no totals.
    pub fn disable_totals_count(self) -> (r: Self)
        ensures
            r == (PaginatedQueryBuilder { totals_count_enabled: false, ..self }),
    {
        PaginatedQueryBuilder { totals_count_enabled: false, ..self }
    }

    /// The base query wrapped as a derived table.
    pub fn build_base_query(&self) -> (r: String)
        ensures
            r@ == base_query_spec(self.base_sql@),
    {
        let mut v = str_to_chars("WITH base_query AS (");
        let b = str_to_chars(self.base_sql.as_str());
        extend_chars(&mut v, &b);
        v.push(')');
        proof {
            assert(v@ =~= base_query_spec(self.base_sql@));
        }
        chars_to_string(&v)
    }

    /// The WHERE clause joining the given fragments with AND, or the empty
    /// string when there are none.
    pub fn build_where_clause(&self, conditions: &Vec<String>) -> (r: String)
        ensures
            r@ == where_clause_spec(conditions@.map_values(|s: String| s@)),
    {
        if conditions.len() == 0 {
            return String::new();
        }
        let ghost cs = conditions@.map_values(|s: String| s@);
        let mut parts: Vec<Vec<char>> = Vec::new();
        let mut i: usize = 0;
        while i < conditions.len()
            invariant
                i <= conditions@.len(),
                cs == conditions@.map_values(|s: String| s@),
                parts@.map_values(|p: Vec<char>| p@) == cs.subrange(0, i as int),
            decreases conditions@.len() - i,
        {
            let ghost before = parts@;
            let c = str_to_chars(conditions[i].as_str());
            parts.push(c);
            proof {
                assert(parts@.map_values(|p: Vec<char>| p@) =~= before.map_values(
                    |p: Vec<char>| p@,
                ).push(cs[i as int]));
                assert(parts@.map_values(|p: Vec<char>| p@) =~= cs.subrange(0, i + 1 as int));
            }
            i += 1;
        }
        proof {
            assert(cs.subrange(0, cs.len() as int) =~= cs);
        }
        let sep = str_to_chars(" AND ");
        let joined = join_parts(&parts, &sep);
        let mut v = str_to_chars(" WHERE ");
        extend_chars(&mut v, &joined);
        proof {
            assert(v@ =~= where_clause_spec(cs));
        }
        chars_to_string(&v)
    }

    /// The ORDER BY clause over the quoted sort column.
    pub fn build_order_clause(&self) -> (r: String)
        ensures
            r@ == order_clause_spec(
                self.params.sort.sort_column@,
                self.params.sort.sort_direction,
            ),
    {
        let quoted = quote_identifier(self.params.sort.sort_column.as_str());
        let mut v = str_to_chars(" ORDER BY ");
        let q = str_to_chars(quoted.as_str());
        extend_chars(&mut v, &q);
        let dir = match self.params.sort.sort_direction {
            QuerySortDirection::Ascending => str_to_chars(" ASC"),
            QuerySortDirection::Descending => str_to_chars(" DESC"),
        };
        extend_chars(&mut v, &dir);
        proof {
            assert(v@ =~= order_clause_spec(
                self.params.sort.sort_column@,
                self.params.sort.sort_direction,
            ));
        }
        chars_to_string(&v)
    }

    /// The LIMIT/OFFSET clause for the requested page.
    pub fn build_limit_offset_clause(&self) -> (r: String)
        requires
            self.params.pagination.page >= 1,
            self.params.pagination.page_size >= 0,
            (self.params.pagination.page - 1) * self.params.pagination.page_size <= i64::MAX,
        ensures
            r@ == limit_offset_spec(
                self.params.pagination.page as int,
                self.params.pagination.page_size as int,
            ),
    {
        let page = self.params.pagination.page;
        let page_size = self.params.pagination.page_size;
        proof {
            vstd::arithmetic::mul::lemma_mul_nonnegative(page - 1 as int, page_size as int);
        }
        let offset = (page - 1) * page_size;
        let mut v = str_to_chars(" LIMIT ");
        let ps = i64_to_chars(page_size);
        extend_chars(&mut v, &ps);
        let off_kw = str_to_chars(" OFFSET ");
        extend_chars(&mut v, &off_kw);
        let off = i64_to_chars(offset);
        extend_chars(&mut v, &off);
        proof {
            assert(v@ =~= limit_offset_spec(page as int, page_size as int));
        }
        chars_to_string(&v)
    }

    /// Builds both statements and the shared argument list. The COUNT
    /// statement is present exactly when totals are enabled, and its WHERE
    /// text is identical to the page statement's, since both come from one
    /// condition set.
    pub fn build_plan(&self) -> (r: QueryPlan)
        requires
            self.params.pagination.page >= 1,
            self.params.pagination.page_size >= 0,
            (self.params.pagination.page - 1) * self.params.pagination.page_size <= i64::MAX,
            self.params.filters@.len() + 3 <= usize::MAX,
        ensures
            ({
                let pipe = safe_defaults_pipeline(self.cols(), self.params);
                &&& r.main_sql@ == main_sql_spec(self.base_sql@, pipe.0, self.params)
                &&& (self.totals_count_enabled ==> (r.count_sql matches Some(c) && c@
                    == count_sql_spec(self.base_sql@, pipe.0)))
                &&& (!self.totals_count_enabled ==> r.count_sql is None)
                &&& r.arguments@.map_values(|a: ArgValue| a@) == pipe.1
                &&& r.pagination == self.params.pagination
            }),
    {
        let cols = clone_strings(&self.valid_columns);
        let (conditions, arguments) = build_query_with_safe_defaults(&self.params, cols);
        self.build_plan_with(conditions, arguments)
    }

    /// Builds both statements around a caller-supplied condition set, for
    /// callers that assemble their own fragments and arguments; the
    /// statements' texts are exact functions of what is handed in.
    pub fn build_plan_with(&self, conditions: Vec<String>, arguments: Vec<ArgValue>) -> (r:
        QueryPlan)
        requires
            self.params.pagination.page >= 1,
            self.params.pagination.page_size >= 0,
            (self.params.pagination.page - 1) * self.params.pagination.page_size <= i64::MAX,
        ensures
            ({
                let conds = conditions@.map_values(|s: String| s@);
                &&& r.main_sql@ == main_sql_spec(self.base_sql@, conds, self.params)
                &&& (self.totals_count_enabled ==> (r.count_sql matches Some(c) && c@
                    == count_sql_spec(self.base_sql@, conds)))
                &&& (!self.totals_count_enabled ==> r.count_sql is None)
                &&& r.arguments@.map_values(|a: ArgValue| a@) == arguments@.map_values(
                    |a: ArgValue| a@,
                )
                &&& r.pagination == self.params.pagination
            }),
    {
        let base = self.build_base_query();
        let where_clause = self.build_where_clause(&conditions);
        let count_sql = if self.totals_count_enabled {
            let mut v = str_to_chars(base.as_str());
            let sel = str_to_chars(" SELECT COUNT(*) FROM base_query");
            extend_chars(&mut v, &sel);
            let w = str_to_chars(where_clause.as_str());
            extend_chars(&mut v, &w);
            proof {
                assert(v@ =~= count_sql_spec(
                    self.base_sql@,
                    conditions@.map_values(|s: String| s@),
                ));
            }
            Some(chars_to_string(&v))
        } else {
            None
        };
        let mut v = str_to_chars(base.as_str());
        let sel = str_to_chars(" SELECT * FROM base_query");
        extend_chars(&mut v, &sel);
        let w = str_to_chars(where_clause.as_str());
        extend_chars(&mut v, &w);
        let order = self.build_order_clause();
        let oc = str_to_chars(order.as_str());
        extend_chars(&mut v, &oc);
        let lim = self.build_limit_offset_clause();
        let lc = str_to_chars(lim.as_str());
        extend_chars(&mut v, &lc);
        proof {
            assert(v@ =~= main_sql_spec(
                self.base_sql@,
                conditions@.map_values(|s: String| s@),
                self.params,
            ));
        }
        QueryPlan {
            count_sql,
            main_sql: chars_to_string(&v),
            arguments,
            pagination: self.params.pagination,
        }
    }
}

/// Builds a paginated request over a base query: the entry point mirroring
/// the library's name.
pub fn paginated_query_as(sql: &str, valid_columns: Vec<String>) -> (r: PaginatedQueryBuilder)
    ensures
        r.base_sql@ == sql@,
        r.cols() == valid_columns@.map_values(|s: String| s@),
        r.totals_count_enabled,
        r.params.pagination.page == crate::params::DEFAULT_PAGE,
        r.params.pagination.page_size == crate::params::DEFAULT_MIN_PAGE_SIZE,
        r.params.filters@ == Seq::<(String, Option<String>)>::empty(),
        r.params.search.search is None,
{
    PaginatedQueryBuilder::new(sql, valid_columns)
}

/// Rounds a non-empty total up to whole pages; an empty total has no pages.
pub fn compute_total_pages(total: i64, page_size: i64) -> (r: i64)
    requires
        total >= 0,
        page_size >= 1,
    ensures
        r == total_pages_spec(total as int, page_size as int),
{
    if total == 0 {
        return 0;
    }
    let q = total / page_size;
    let rem = total % page_size;
    proof {
        vstd::arithmetic::div_mod::lemma_fundamental_div_mod(total as int, page_size as int);
        vstd::arithmetic::div_mod::lemma_mod_bound(total as int, page_size as int);
        assert(rem != 0 ==> q < total) by (nonlinear_arith)
            requires
                total >= 1,
                page_size >= 1,
                total as int == (page_size as int) * (q as int) + (rem as int),
                0 <= rem,
                (rem as int) < (page_size as int),
                q as int == (total as int) / (page_size as int),
        {
        }
    }
    let r = if rem != 0 {
        q + 1
    } else {
        q
    };
    proof {
        lemma_ceil_div(total as int, page_size as int);
    }
    r
}

proof fn lemma_ceil_div(t: int, ps: int)
    requires
        t >= 1,
        ps >= 1,
    ensures
        (t + ps - 1) / ps == t / ps + (if t % ps != 0 {
            1int
        } else {
            0int
        }),
{
    let q = t / ps;
    let r = t % ps;
    vstd::arithmetic::div_mod::lemma_fundamental_div_mod(t, ps);
    assert(t == ps * q + r);
    vstd::arithmetic::div_mod::lemma_mod_bound(t, ps);
    if r == 0 {
        assert(t + ps - 1 == ps * q + (ps - 1));
        vstd::arithmetic::div_mod::lemma_fundamental_div_mod_converse(t + ps - 1, ps, q, ps - 1);
    } else {
        assert(t + ps - 1 == ps * (q + 1) + (r - 1)) by {
            assert(ps * (q + 1) == ps * q + ps) by (nonlinear_arith);
        }
        vstd::arithmetic::div_mod::lemma_fundamental_div_mod_converse(t + ps - 1, ps, q + 1, r - 1);
    }
}

/// Assembles the response envelope: the records and echoed pagination, and,
/// exactly when a total was computed, that total and the pages it fills;
/// with totals disabled both totals fields are absent while the records are
/// still returned.
pub fn assemble_response<T>(
    records: Vec<T>,
    pagination: QueryPaginationParams,
    total: Option<i64>,
) -> (r: PaginatedResponse<T>)
    requires
        total matches Some(t) ==> t >= 0 && pagination.page_size >= 1,
    ensures
        r.records == records,
        r.pagination == pagination,
        (match total {
            Some(t) => r.total == Some(t) && (r.total_pages matches Some(p) && p as int
                == total_pages_spec(t as int, pagination.page_size as int)),
            None => r.total is None && r.total_pages is None,
        }),
{
    match total {
        Some(t) => {
            let pages = compute_total_pages(t, pagination.page_size);
            PaginatedResponse { records, pagination, total: Some(t), total_pages: Some(pages) }
        },
        None => PaginatedResponse { records, pagination, total: None, total_pages: None },
    }
}

} // verus!
