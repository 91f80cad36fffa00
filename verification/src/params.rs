//! The validated in-memory representation of one page request, its wire-level
//! counterpart, and the normalisers that turn raw wire values into validated
//! ones: defaults applied, numbers clamped, search text sanitised.

use crate::text::{
    chars_to_string, digits_of, is_digit_char, join_parts, join_spec, keep_nonempty_parts,
    split_chars, split_spec, str_to_chars, subrange_chars, trim_chars, trim_parts, trim_spec,
};
use crate::cast::digits_value;
use vstd::prelude::*;
use vstd::string::StringExecFns;

verus! {

/// Default page number used when a page parameter is missing or malformed.
pub const DEFAULT_PAGE: i64 = 1;

/// Smallest and default page size.
pub const DEFAULT_MIN_PAGE_SIZE: i64 = 10;

/// Largest page size; requests beyond it are clamped.
pub const DEFAULT_MAX_PAGE_SIZE: i64 = 50;

/// Longest search term kept after sanitising.
pub const DEFAULT_MAX_FIELD_LENGTH: usize = 100;

/// Sort order of the page query.
#[derive(Clone, Copy, Debug, PartialEq, Eq, Structural)]
pub enum QuerySortDirection {
    /// Smallest values first.
    Ascending,
    /// Largest values first.
    Descending,
}

/// A point in time as the backend binds it: seconds since the epoch and a
/// nanosecond remainder.
#[derive(Clone, Copy, Debug, PartialEq, Eq, Structural)]
pub struct UtcTimestamp {
    /// Whole seconds since 1970-01-01T00:00:00Z.
    pub secs: i64,
    /// Nanoseconds within the second.
    pub nanos: u32,
}

impl UtcTimestamp {
    /// The nanosecond part stays within one second.
    pub open spec fn well_formed(self) -> bool {
        self.nanos < 1000000000
    }

    /// A timestamp from its parts.
    pub fn new(secs: i64, nanos: u32) -> (r: Self)
        requires
            nanos < 1000000000,
        ensures
            r.secs == secs,
            r.nanos == nanos,
            r.well_formed(),
    {
        UtcTimestamp { secs, nanos }
    }
}

/// Validated page number and page size.
#[derive(Clone, Copy, Debug, PartialEq, Eq, Structural)]
pub struct QueryPaginationParams {
    /// 1-based page number.
    pub page: i64,
    /// Records per page.
    pub page_size: i64,
}

impl Default for QueryPaginationParams {
    /// First page, smallest page size.
    fn default() -> (r: Self)
        ensures
            r.page == DEFAULT_PAGE,
            r.page_size == DEFAULT_MIN_PAGE_SIZE,
    {
        QueryPaginationParams { page: DEFAULT_PAGE, page_size: DEFAULT_MIN_PAGE_SIZE }
    }
}

/// Validated sort column and direction.
#[derive(Clone, Debug)]
pub struct QuerySortParams {
    /// Sort order.
    pub sort_direction: QuerySortDirection,
    /// Column to sort by; validated only when conditions are built.
    pub sort_column: String,
}

impl Default for QuerySortParams {
    /// Newest first by creation time.
    fn default() -> (r: Self)
        ensures
            r.sort_direction == QuerySortDirection::Descending,
            r.sort_column@ == "created_at"@,
    {
        QuerySortParams {
            sort_direction: QuerySortDirection::Descending,
            sort_column: String::from_str("created_at"),
        }
    }
}

/// Validated search term and the columns to search in.
#[derive(Clone, Debug)]
pub struct QuerySearchParams {
    /// Sanitised search term, absent when empty.
    pub search: Option<String>,
    /// Columns compared against the term; validated at condition-build time.
    pub search_columns: Option<Vec<String>>,
}

/// The search columns assumed when none are given.
pub open spec fn default_search_columns_spec() -> Seq<Seq<char>> {
    seq!["name"@, "description"@]
}

impl Default for QuerySearchParams {
    /// No term; name and description as candidate columns.
    fn default() -> (r: Self)
        ensures
            r.search is None,
            r.search_columns matches Some(cols) && cols@.map_values(|s: String| s@)
                == default_search_columns_spec(),
    {
        QuerySearchParams { search: None, search_columns: default_search_columns() }
    }
}

/// Validated date-range bounds and their column.
#[derive(Clone, Debug)]
pub struct QueryDateRangeParams {
    /// Inclusive lower bound.
    pub date_after: Option<UtcTimestamp>,
    /// Inclusive upper bound.
    pub date_before: Option<UtcTimestamp>,
    /// Column the bounds apply to; validated at condition-build time.
    pub date_column: Option<String>,
}

impl Default for QueryDateRangeParams {
    /// No bounds, on the creation-time column.
    fn default() -> (r: Self)
        ensures
            r.date_after is None,
            r.date_before is None,
            r.date_column matches Some(c) && c@ == "created_at"@,
    {
        QueryDateRangeParams {
            date_after: None,
            date_before: None,
            date_column: default_date_range_column(),
        }
    }
}

/// The validated representation of one page request. Columns named anywhere
/// in it are validated when conditions are built, not here.
#[derive(Clone, Debug)]
pub struct QueryParams {
    /// Page number and size.
    pub pagination: QueryPaginationParams,
    /// Sort column and direction.
    pub sort: QuerySortParams,
    /// Search term and columns.
    pub search: QuerySearchParams,
    /// Date-range bounds.
    pub date_range: QueryDateRangeParams,
    /// Equality filters in the order they bind arguments, newest insertion
    /// last; keys are unique.
    pub filters: Vec<(String, Option<String>)>,
}

impl Default for QueryParams {
    /// All defaults and no filters.
    fn default() -> (r: Self)
        ensures
            r.pagination.page == DEFAULT_PAGE,
            r.pagination.page_size == DEFAULT_MIN_PAGE_SIZE,
            r.sort.sort_direction == QuerySortDirection::Descending,
            r.sort.sort_column@ == "created_at"@,
            r.search.search is None,
            r.search.search_columns matches Some(cols) && cols@.map_values(|s: String| s@)
                == default_search_columns_spec(),
            r.date_range.date_after is None,
            r.date_range.date_before is None,
            r.date_range.date_column matches Some(c) && c@ == "created_at"@,
            r.filters@ == Seq::<(String, Option<String>)>::empty(),
    {
        QueryParams {
            pagination: Default::default(),
            sort: Default::default(),
            search: Default::default(),
            date_range: Default::default(),
            filters: Vec::new(),
        }
    }
}

/// The wire-level counterpart of `QueryParams`: every group optional,
/// defaults applied on conversion.
#[derive(Clone, Debug)]
pub struct FlatQueryParams {
    /// Page number and size, if sent.
    pub pagination: Option<QueryPaginationParams>,
    /// Sort column and direction, if sent.
    pub sort: Option<QuerySortParams>,
    /// Search term and columns, if sent.
    pub search: Option<QuerySearchParams>,
    /// Date-range bounds, if sent.
    pub date_range: Option<QueryDateRangeParams>,
    /// Extra equality filters, if sent.
    pub filters: Option<Vec<(String, Option<String>)>>,
}

impl Default for FlatQueryParams {
    /// Nothing sent.
    fn default() -> (r: Self)
        ensures
            r.pagination is None,
            r.sort is None,
            r.search is None,
            r.date_range is None,
            r.filters is None,
    {
        FlatQueryParams { pagination: None, sort: None, search: None, date_range: None, filters: None }
    }
}

impl QueryParams {
    /// Fills every missing group of a wire-level request with its default.
    pub fn from_flat(params: FlatQueryParams) -> (r: Self)
        ensures
            r.pagination == (match params.pagination {
                Some(p) => p,
                None => QueryPaginationParams { page: DEFAULT_PAGE, page_size: DEFAULT_MIN_PAGE_SIZE },
            }),
            params.sort matches Some(s) ==> r.sort == s,
            params.sort is None ==> r.sort.sort_direction == QuerySortDirection::Descending
                && r.sort.sort_column@ == "created_at"@,
            params.search matches Some(s) ==> r.search == s,
            params.search is None ==> r.search.search is None
                && (r.search.search_columns matches Some(cols) && cols@.map_values(|s: String| s@)
                == default_search_columns_spec()),
            params.date_range matches Some(d) ==> r.date_range == d,
            params.date_range is None ==> r.date_range.date_after is None
                && r.date_range.date_before is None && (r.date_range.date_column matches Some(c)
                && c@ == "created_at"@),
            r.filters@ == (match params.filters {
                Some(f) => f@,
                None => Seq::<(String, Option<String>)>::empty(),
            }),
    {
        let pagination = match params.pagination {
            Some(p) => p,
            None => Default::default(),
        };
        let sort = match params.sort {
            Some(s) => s,
            None => Default::default(),
        };
        let search = match params.search {
            Some(s) => s,
            None => Default::default(),
        };
        let date_range = match params.date_range {
            Some(d) => d,
            None => Default::default(),
        };
        let filters = match params.filters {
            Some(f) => f,
            None => Vec::new(),
        };
        QueryParams { pagination, sort, search, date_range, filters }
    }
}

/// The default page number.
pub fn default_page() -> (r: i64)
    ensures
        r == DEFAULT_PAGE,
{
    DEFAULT_PAGE
}

/// The default page size.
pub fn default_page_size() -> (r: i64)
    ensures
        r == DEFAULT_MIN_PAGE_SIZE,
{
    DEFAULT_MIN_PAGE_SIZE
}

/// The default search columns.
pub fn default_search_columns() -> (r: Option<Vec<String>>)
    ensures
        r matches Some(cols) && cols@.map_values(|s: String| s@) == default_search_columns_spec(),
{
    let mut cols: Vec<String> = Vec::new();
    cols.push(String::from_str("name"));
    cols.push(String::from_str("description"));
    proof {
        assert(cols@.map_values(|s: String| s@) =~= default_search_columns_spec());
    }
    Some(cols)
}

/// The default sort column.
pub fn default_sort_column() -> (r: String)
    ensures
        r@ == "created_at"@,
{
    String::from_str("created_at")
}

/// The default sort direction.
pub fn default_sort_direction() -> (r: QuerySortDirection)
    ensures
        r == QuerySortDirection::Descending,
{
    QuerySortDirection::Descending
}

/// The default date-range column.
pub fn default_date_range_column() -> (r: Option<String>)
    ensures
        r matches Some(c) && c@ == "created_at"@,
{
    Some(String::from_str("created_at"))
}

/// Keeps only the ASCII digits of a string.
pub fn extract_digits_from_strings(val: &str) -> (r: String)
    ensures
        r@ == val@.filter(|c: char| is_digit_char(c)),
{
    let chars = str_to_chars(val);
    let digits = digits_of(&chars);
    chars_to_string(&digits)
}

/// Turns a digit vector into its value, or nothing on 64-bit overflow.
fn digits_to_i64(digits: &Vec<char>) -> (r: Option<i64>)
    requires
        forall|i: int| 0 <= i < digits@.len() ==> is_digit_char(#[trigger] digits@[i]),
    ensures
        match r {
            Some(x) => x as int == digits_value(digits@),
            None => digits_value(digits@) > i64::MAX,
        },
{
    let cap: u64 = 9223372036854775807;
    let mut mag: u64 = 0;
    let mut big = false;
    let mut k: usize = 0;
    while k < digits.len()
        invariant
            k <= digits@.len(),
            forall|i: int| 0 <= i < digits@.len() ==> is_digit_char(#[trigger] digits@[i]),
            cap == 9223372036854775807u64,
            !big ==> mag as int == digits_value(digits@.subrange(0, k as int)) && mag <= cap,
            big ==> digits_value(digits@.subrange(0, k as int)) > cap as int,
        decreases digits@.len() - k,
    {
        let ghost pre = digits@.subrange(0, k as int);
        let ghost post = digits@.subrange(0, k + 1 as int);
        proof {
            assert(post.drop_last() =~= pre);
            assert(post.last() == digits@[k as int]);
            assert(is_digit_char(digits@[k as int]));
        }
        let cu = #[verifier::truncate] (digits[k] as u32);
        assert(48 <= cu <= 57);
        let d = (cu - 48) as u64;
        if big {
        } else if mag > cap / 10 || (mag == cap / 10 && d > cap % 10) {
            big = true;
        } else {
            mag = mag * 10 + d;
        }
        k += 1;
    }
    proof {
        assert(digits@.subrange(0, digits@.len() as int) =~= digits@);
    }
    if big {
        None
    } else {
        Some(mag as i64)
    }
}

/// What the page normaliser returns for a raw wire value.
pub open spec fn page_norm_spec(value: Option<Seq<char>>) -> int {
    match value {
        None => DEFAULT_PAGE as int,
        Some(s) => {
            if trim_spec(s).len() == 0 || trim_spec(s)[0] == '-' {
                DEFAULT_PAGE as int
            } else {
                let d = digits_value(s.filter(|c: char| is_digit_char(c)));
                if d > i64::MAX || d < DEFAULT_PAGE as int {
                    DEFAULT_PAGE as int
                } else {
                    d
                }
            }
        },
    }
}

/// Normalises a raw page parameter: a missing, empty, negative or
/// non-numeric value falls back to the first page; digits are extracted from
/// mixed text; the result is always at least one.
pub fn normalize_page(value: Option<&str>) -> (r: i64)
    ensures
        r as int == page_norm_spec(match value {
            Some(v) => Some(v@),
            None => None,
        }),
        r >= 1,
{
    let s = match value {
        None => {
            return DEFAULT_PAGE;
        },
        Some(s) => s,
    };
    let chars = str_to_chars(s);
    let trimmed = trim_chars(&chars);
    if trimmed.len() == 0 || trimmed[0] == '-' {
        return DEFAULT_PAGE;
    }
    let digits = digits_of(&chars);
    proof {
        let p = |c: char| is_digit_char(c);
        assert forall|i: int| 0 <= i < digits@.len() implies is_digit_char(#[trigger] digits@[i]) by {
            chars@.lemma_filter_pred(p, i);
        }
    }
    match digits_to_i64(&digits) {
        None => DEFAULT_PAGE,
        Some(x) => {
            if x < DEFAULT_PAGE {
                DEFAULT_PAGE
            } else {
                x
            }
        },
    }
}

/// What the page-size normaliser returns for a raw wire value.
pub open spec fn page_size_norm_spec(value: Option<Seq<char>>) -> int {
    match value {
        None => DEFAULT_MIN_PAGE_SIZE as int,
        Some(s) => {
            if trim_spec(s).len() == 0 || trim_spec(s)[0] == '-' {
                DEFAULT_MIN_PAGE_SIZE as int
            } else {
                let d = digits_value(s.filter(|c: char| is_digit_char(c)));
                if d > i64::MAX {
                    DEFAULT_MIN_PAGE_SIZE as int
                } else if d < DEFAULT_MIN_PAGE_SIZE as int {
                    DEFAULT_MIN_PAGE_SIZE as int
                } else if d > DEFAULT_MAX_PAGE_SIZE as int {
                    DEFAULT_MAX_PAGE_SIZE as int
                } else {
                    d
                }
            }
        },
    }
}

/// Normalises a raw page-size parameter: a missing, empty, negative or
/// non-numeric value falls back to the smallest size; anything else is
/// clamped into the allowed range.
pub fn normalize_page_size(value: Option<&str>) -> (r: i64)
    ensures
        r as int == page_size_norm_spec(match value {
            Some(v) => Some(v@),
            None => None,
        }),
        DEFAULT_MIN_PAGE_SIZE <= r <= DEFAULT_MAX_PAGE_SIZE,
{
    let s = match value {
        None => {
            return DEFAULT_MIN_PAGE_SIZE;
        },
        Some(s) => s,
    };
    let chars = str_to_chars(s);
    let trimmed = trim_chars(&chars);
    if trimmed.len() == 0 || trimmed[0] == '-' {
        return DEFAULT_MIN_PAGE_SIZE;
    }
    let digits = digits_of(&chars);
    proof {
        let p = |c: char| is_digit_char(c);
        assert forall|i: int| 0 <= i < digits@.len() implies is_digit_char(#[trigger] digits@[i]) by {
            chars@.lemma_filter_pred(p, i);
        }
    }
    match digits_to_i64(&digits) {
        None => DEFAULT_MIN_PAGE_SIZE,
        Some(x) => {
            if x < DEFAULT_MIN_PAGE_SIZE {
                DEFAULT_MIN_PAGE_SIZE
            } else if x > DEFAULT_MAX_PAGE_SIZE {
                DEFAULT_MAX_PAGE_SIZE
            } else {
                x
            }
        },
    }
}

/// Whether a character survives the search-term sanitiser: any alphanumeric
/// (by the Unicode tables), a space, or a hyphen.
pub uninterp spec fn unicode_alnum(c: char) -> bool;

/// Relies on `char::is_alphanumeric`: a pure function of the character,
/// given by the Unicode tables.
#[verifier::external_body]
fn unicode_alnum_char(c: char) -> (r: bool)
    ensures
        r == unicode_alnum(c),
{
    c.is_alphanumeric()
}

/// The characters the search sanitiser keeps.
pub open spec fn is_search_keep_char(c: char) -> bool {
    unicode_alnum(c) || c == ' ' || c == '-'
}

/// What the search normaliser returns: disallowed characters dropped, words
/// re-joined by single spaces, the result capped and emptiness mapped to
/// absence.
pub open spec fn search_norm_spec(value: Option<Seq<char>>) -> Option<Seq<char>> {
    match value {
        None => None,
        Some(s) => {
            if trim_spec(s).len() == 0 {
                None
            } else {
                let kept = s.filter(|c: char| is_search_keep_char(c));
                let words = split_spec(kept, ' ').filter(|p: Seq<char>| p.len() > 0);
                let joined = join_spec(words, seq![' ']);
                let capped = if joined.len() <= DEFAULT_MAX_FIELD_LENGTH as int {
                    joined
                } else {
                    joined.subrange(0, DEFAULT_MAX_FIELD_LENGTH as int)
                };
                if capped.len() == 0 {
                    None
                } else {
                    Some(capped)
                }
            }
        },
    }
}

/// Sanitises a raw search term: keeps alphanumerics, spaces and hyphens,
/// collapses whitespace runs, caps the length, and returns nothing when the
/// result is empty.
pub fn normalize_search(value: Option<&str>) -> (r: Option<String>)
    ensures
        (match r {
            Some(t) => Some(t@),
            None => None,
        }) == search_norm_spec(match value {
            Some(v) => Some(v@),
            None => None,
        }),
{
    let s = match value {
        None => {
            return None;
        },
        Some(s) => s,
    };
    let chars = str_to_chars(s);
    let trimmed = trim_chars(&chars);
    if trimmed.len() == 0 {
        return None;
    }
    let ghost keep = |c: char| is_search_keep_char(c);
    let mut kept: Vec<char> = Vec::new();
    let mut i: usize = 0;
    while i < chars.len()
        invariant
            i <= chars@.len(),
            keep == (|c: char| is_search_keep_char(c)),
            kept@ == chars@.subrange(0, i as int).filter(keep),
        decreases chars@.len() - i,
    {
        reveal(Seq::filter);
        assert(chars@.subrange(0, i + 1 as int).drop_last() =~= chars@.subrange(0, i as int));
        let c = chars[i];
        if unicode_alnum_char(c) || c == ' ' || c == '-' {
            kept.push(c);
        }
        assert(kept@ =~= chars@.subrange(0, i + 1 as int).filter(keep));
        i += 1;
    }
    assert(chars@.subrange(0, chars@.len() as int) =~= chars@);

    let parts = split_chars(&kept, ' ');
    let words = keep_nonempty_parts(parts);
    let mut sp: Vec<char> = Vec::new();
    sp.push(' ');
    assert(sp@ =~= seq![' ']);
    let joined = join_parts(&words, &sp);
    let capped = if joined.len() <= DEFAULT_MAX_FIELD_LENGTH {
        joined
    } else {
        subrange_chars(&joined, 0, DEFAULT_MAX_FIELD_LENGTH)
    };
    proof {
        if joined@.len() <= DEFAULT_MAX_FIELD_LENGTH as int {
            assert(joined@.subrange(0, joined@.len() as int) =~= joined@);
        }
    }
    if capped.len() == 0 {
        None
    } else {
        Some(chars_to_string(&capped))
    }
}

/// What the search-column normaliser returns: comma-separated names, each
/// trimmed, empty segments dropped.
pub open spec fn search_columns_norm_spec(value: Option<Seq<char>>) -> Option<Seq<Seq<char>>> {
    match value {
        None => None,
        Some(s) => Some(
            split_spec(s, ',').map_values(|p: Seq<char>| trim_spec(p)).filter(
                |p: Seq<char>| p.len() > 0,
            ),
        ),
    }
}

/// Splits a raw comma-separated column list, trimming each name and dropping
/// empty segments.
pub fn normalize_search_columns(value: Option<&str>) -> (r: Option<Vec<String>>)
    ensures
        (match r {
            Some(cols) => Some(cols@.map_values(|s: String| s@)),
            None => None,
        }) == search_columns_norm_spec(match value {
            Some(v) => Some(v@),
            None => None,
        }),
{
    let s = match value {
        None => {
            return None;
        },
        Some(s) => s,
    };
    let chars = str_to_chars(s);
    let parts = split_chars(&chars, ',');
    let trimmed = trim_parts(&parts);
    let words = keep_nonempty_parts(trimmed);
    let ghost target = split_spec(s@, ',').map_values(|p: Seq<char>| trim_spec(p)).filter(
        |p: Seq<char>| p.len() > 0,
    );
    let mut cols: Vec<String> = Vec::new();
    let mut i: usize = 0;
    while i < words.len()
        invariant
            i <= words@.len(),
            words@.map_values(|p: Vec<char>| p@) == target,
            cols@.map_values(|s: String| s@) == target.subrange(0, i as int),
        decreases words@.len() - i,
    {
        let ghost before = cols@;
        let w = chars_to_string(&words[i]);
        proof {
            assert(w@ == words@.map_values(|p: Vec<char>| p@)[i as int]);
        }
        cols.push(w);
        proof {
            assert(cols@.map_values(|s: String| s@) =~= before.map_values(|s: String| s@).push(w@));
            assert(cols@.map_values(|s: String| s@) =~= target.subrange(0, i + 1 as int));
        }
        i += 1;
    }
    proof {
        assert(target.subrange(0, target.len() as int) =~= target);
    }
    Some(cols)
}

} // verus!
