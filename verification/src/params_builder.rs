//! Programmatic construction of `QueryParams`: defaults first, then setters
//! for pagination, sorting, search, date range and filters. Filters are kept
//! in insertion order with unique keys, so condition building binds
//! arguments in a reproducible order.

use crate::params::{
    default_date_range_column, QueryDateRangeParams, QueryPaginationParams, QueryParams,
    QuerySearchParams, QuerySortDirection, QuerySortParams, UtcTimestamp, DEFAULT_MAX_PAGE_SIZE,
    DEFAULT_MIN_PAGE_SIZE, DEFAULT_PAGE,
};
use crate::text::{eq_chars, str_to_chars};
use vstd::prelude::*;

verus! {

/// The first index whose entry has the given key, or the length.
pub open spec fn filter_key_index(fs: Seq<(String, Option<String>)>, k: Seq<char>) -> int
    decreases fs.len(),
{
    if fs.len() == 0 {
        0
    } else if fs[0].0@ == k {
        0
    } else {
        1 + filter_key_index(fs.drop_first(), k)
    }
}

proof fn lemma_filter_key_index_at(fs: Seq<(String, Option<String>)>, k: Seq<char>, i: int)
    requires
        0 <= i <= fs.len(),
        forall|j: int| 0 <= j < i ==> (#[trigger] fs[j]).0@ != k,
        i < fs.len() ==> fs[i].0@ == k,
    ensures
        filter_key_index(fs, k) == i,
    decreases i,
{
    if i > 0 {
        lemma_filter_key_index_at(fs.drop_first(), k, i - 1);
    }
}

/// One filter upsert: a key outside the allow-list changes nothing; a known
/// key replaces the entry that already holds it, or is appended.
pub open spec fn upsert_step(
    fs: Seq<(String, Option<String>)>,
    cols: Seq<Seq<char>>,
    k: String,
    v: Option<String>,
) -> Seq<(String, Option<String>)> {
    if !crate::builder::contains_str(cols, k@) {
        fs
    } else {
        let i = filter_key_index(fs, k@);
        if i == fs.len() {
            fs.push((k, v))
        } else {
            fs.update(i, (k, v))
        }
    }
}

/// Several filter upserts, applied in order.
pub open spec fn upsert_all(
    fs: Seq<(String, Option<String>)>,
    cols: Seq<Seq<char>>,
    new: Seq<(String, Option<String>)>,
) -> Seq<(String, Option<String>)>
    decreases new.len(),
{
    if new.len() == 0 {
        fs
    } else {
        upsert_all(upsert_step(fs, cols, new[0].0, new[0].1), cols, new.drop_first())
    }
}

/// Builds a `QueryParams` step by step, validating filter keys against the
/// target record type's column names.
pub struct QueryParamsBuilder {
    /// The parameters built so far.
    pub query: QueryParams,
    /// The allow-list of column names of the target record type.
    pub valid_columns: Vec<String>,
}

impl QueryParamsBuilder {
    /// The allow-list, as character sequences.
    pub open spec fn cols(self) -> Seq<Seq<char>> {
        self.valid_columns@.map_values(|s: String| s@)
    }

    /// A builder holding all defaults.
    pub fn new(valid_columns: Vec<String>) -> (r: Self)
        ensures
            r.query.pagination.page == DEFAULT_PAGE,
            r.query.pagination.page_size == DEFAULT_MIN_PAGE_SIZE,
            r.query.sort.sort_direction == QuerySortDirection::Descending,
            r.query.sort.sort_column@ == "created_at"@,
            r.query.search.search is None,
            r.query.search.search_columns matches Some(cols) && cols@.map_values(|s: String| s@)
                == crate::params::default_search_columns_spec(),
            r.query.date_range.date_after is None,
            r.query.date_range.date_before is None,
            r.query.date_range.date_column matches Some(c) && c@ == "created_at"@,
            r.query.filters@ == Seq::<(String, Option<String>)>::empty(),
            r.cols() == valid_columns@.map_values(|s: String| s@),
    {
        QueryParamsBuilder { query: Default::default(), valid_columns }
    }

    /// Sets the page, floored at the first page, and the page size, clamped
    /// into the allowed range.
    pub fn with_pagination(self, page: i64, page_size: i64) -> (r: Self)
        ensures
            r.query.pagination.page == (if page < DEFAULT_PAGE {
                DEFAULT_PAGE as int
            } else {
                page as int
            }),
            r.query.pagination.page_size == (if page_size < DEFAULT_MIN_PAGE_SIZE {
                DEFAULT_MIN_PAGE_SIZE as int
            } else if page_size > DEFAULT_MAX_PAGE_SIZE {
                DEFAULT_MAX_PAGE_SIZE as int
            } else {
                page_size as int
            }),
            r.query.sort == self.query.sort,
            r.query.search == self.query.search,
            r.query.date_range == self.query.date_range,
            r.query.filters == self.query.filters,
            r.valid_columns == self.valid_columns,
    {
        let mut s = self;
        let p = if page < DEFAULT_PAGE {
            DEFAULT_PAGE
        } else {
            page
        };
        let ps = if page_size < DEFAULT_MIN_PAGE_SIZE {
            DEFAULT_MIN_PAGE_SIZE
        } else if page_size > DEFAULT_MAX_PAGE_SIZE {
            DEFAULT_MAX_PAGE_SIZE
        } else {
            page_size
        };
        s.query.pagination = QueryPaginationParams { page: p, page_size: ps };
        s
    }

    /// Sets the sort column and direction.
    pub fn with_sort(self, sort_column: String, sort_direction: QuerySortDirection) -> (r: Self)
        ensures
            r.query.sort.sort_column@ == sort_column@,
            r.query.sort.sort_direction == sort_direction,
            r.query.pagination == self.query.pagination,
            r.query.search == self.query.search,
            r.query.date_range == self.query.date_range,
            r.query.filters == self.query.filters,
            r.valid_columns == self.valid_columns,
    {
        let mut s = self;
        s.query.sort = QuerySortParams { sort_column, sort_direction };
        s
    }

    /// Sets the search term and the columns to search in.
    pub fn with_search(self, search: String, search_columns: Vec<String>) -> (r: Self)
        ensures
            r.query.search.search matches Some(t) && t@ == search@,
            r.query.search.search_columns matches Some(cols) && cols@.map_values(|s: String| s@)
                == search_columns@.map_values(|s: String| s@),
            r.query.pagination == self.query.pagination,
            r.query.sort == self.query.sort,
            r.query.date_range == self.query.date_range,
            r.query.filters == self.query.filters,
            r.valid_columns == self.valid_columns,
    {
        let mut s = self;
        s.query.search = QuerySearchParams {
            search: Some(search),
            search_columns: Some(search_columns),
        };
        s
    }

    /// Sets the date-range bounds and their column; without a column the
    /// default date column applies.
    pub fn with_date_range(
        self,
        date_after: Option<UtcTimestamp>,
        date_before: Option<UtcTimestamp>,
        column_name: Option<String>,
    ) -> (r: Self)
        ensures
            r.query.date_range.date_after == date_after,
            r.query.date_range.date_before == date_before,
            (match column_name {
                Some(c) => r.query.date_range.date_column matches Some(d) && d@ == c@,
                None => r.query.date_range.date_column matches Some(d) && d@ == "created_at"@,
            }),
            r.query.pagination == self.query.pagination,
            r.query.sort == self.query.sort,
            r.query.search == self.query.search,
            r.query.filters == self.query.filters,
            r.valid_columns == self.valid_columns,
    {
        let mut s = self;
        let date_column = match column_name {
            Some(c) => Some(c),
            None => default_date_range_column(),
        };
        s.query.date_range = QueryDateRangeParams { date_after, date_before, date_column };
        s
    }

    /// Whether the record type has this column.
    fn has_valid_column(&self, key: &str) -> (r: bool)
        ensures
            r == crate::builder::contains_str(self.cols(), key@),
    {
        let c = str_to_chars(key);
        let mut i: usize = 0;
        while i < self.valid_columns.len()
            invariant
                i <= self.cols().len(),
                c@ == key@,
                forall|j: int| 0 <= j < i ==> self.cols()[j] != c@,
            decreases self.cols().len() - i,
        {
            let w = str_to_chars(self.valid_columns[i].as_str());
            if eq_chars(&c, &w) {
                assert(self.cols()[i as int] == c@);
                return true;
            }
            i += 1;
        }
        false
    }

    /// Adds one filter: a key the record type does not have is skipped; a
    /// known key replaces any earlier entry for it, or is appended.
    pub fn with_filter(self, key: String, value: Option<String>) -> (r: Self)
        ensures
            r.query.pagination == self.query.pagination,
            r.query.sort == self.query.sort,
            r.query.search == self.query.search,
            r.query.date_range == self.query.date_range,
            r.valid_columns == self.valid_columns,
            r.query.filters@ == upsert_step(self.query.filters@, self.cols(), key, value),
    {
        let mut s = self;
        if !s.has_valid_column(key.as_str()) {
            return s;
        }
        let kc = str_to_chars(key.as_str());
        let ghost fs = s.query.filters@;
        let mut i: usize = 0;
        while i < s.query.filters.len()
            invariant
                i <= fs.len(),
                fs == s.query.filters@,
                fs == self.query.filters@,
                s.query.pagination == self.query.pagination,
                s.query.sort == self.query.sort,
                s.query.search == self.query.search,
                s.query.date_range == self.query.date_range,
                s.valid_columns == self.valid_columns,
                crate::builder::contains_str(self.cols(), key@),
                kc@ == key@,
                forall|j: int| 0 <= j < i ==> (#[trigger] fs[j]).0@ != key@,
            decreases fs.len() - i,
        {
            let w = str_to_chars(s.query.filters[i].0.as_str());
            if eq_chars(&kc, &w) {
                proof {
                    lemma_filter_key_index_at(fs, key@, i as int);
                }
                s.query.filters.set(i, (key, value));
                return s;
            }
            i += 1;
        }
        proof {
            lemma_filter_key_index_at(fs, key@, fs.len() as int);
        }
        s.query.filters.push((key, value));
        s
    }

    /// Adds several filters in order, each as `with_filter` does.
    pub fn with_filters(self, filters: Vec<(String, Option<String>)>) -> (r: Self)
        ensures
            r.query.pagination == self.query.pagination,
            r.query.sort == self.query.sort,
            r.query.search == self.query.search,
            r.query.date_range == self.query.date_range,
            r.valid_columns == self.valid_columns,
            r.query.filters@ == upsert_all(self.query.filters@, self.cols(), filters@),
    {
        let ghost given = filters@;
        let mut s = self;
        let mut filters = filters;
        while filters.len() > 0
            invariant
                s.query.pagination == self.query.pagination,
                s.query.sort == self.query.sort,
                s.query.search == self.query.search,
                s.query.date_range == self.query.date_range,
                s.valid_columns == self.valid_columns,
                s.cols() == self.cols(),
                upsert_all(self.query.filters@, self.cols(), given) == upsert_all(
                    s.query.filters@,
                    self.cols(),
                    filters@,
                ),
            decreases filters@.len(),
        {
            let ghost before = filters@;
            let (k, v) = filters.remove(0);
            proof {
                assert(before[0] == (k, v));
                assert(filters@ =~= before.drop_first());
            }
            s = s.with_filter(k, v);
        }
        s
    }

    /// Finishes the build.
    pub fn build(self) -> (r: QueryParams)
        ensures
            r == self.query,
    {
        self.query
    }
}

} // verus!
