//! Injection-safe SQL query augmentation: validated pagination, filtering,
//! search and sorting parameters are turned into SQL condition fragments and
//! bound-argument lists, wrapped around a caller-supplied base query.

pub mod builder;
pub mod cast;
pub mod dialect;
pub mod paginate;
pub mod params;
pub mod params_builder;
pub mod protection;
pub mod text;

pub use builder::{build_query_with_safe_defaults, ArgValue, QueryBuilder};
pub use cast::get_postgres_type_casting;
pub use dialect::{quote_identifier, Dialect, PostgresDialect, QueryDialect, SqliteDialect};
pub use paginate::{paginated_query_as, PaginatedQueryBuilder, PaginatedResponse, QueryPlan};
pub use params::{
    default_date_range_column, default_page, default_page_size, default_search_columns,
    default_sort_column, default_sort_direction, extract_digits_from_strings, normalize_page,
    normalize_page_size, normalize_search, normalize_search_columns, FlatQueryParams,
    QueryDateRangeParams, QueryPaginationParams, QueryParams, QuerySearchParams,
    QuerySortDirection, QuerySortParams, UtcTimestamp,
};
pub use params_builder::QueryParamsBuilder;
pub use protection::ColumnProtection;
