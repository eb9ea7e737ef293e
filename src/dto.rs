//! The request body of the search endpoint, and the count part of its answer.
use vstd::prelude::*;

verus! {

/// The body of a search request.
#[derive(Clone, Debug, PartialEq, Eq)]
pub struct SearchRequest {
    pub search_context: Vec<SearchContext>,
    pub results_context: Option<ResultsContext>,
}

/// One filter of a search: by model range or by vehicle identifiers.
#[derive(Clone, Debug, PartialEq, Eq)]
pub struct SearchContext {
    pub model: Option<SearchModel>,
    pub vss_ids: Option<FilterWithValues>,
}

/// A filter on the marketing model range.
#[derive(Clone, Debug, PartialEq, Eq)]
pub struct SearchModel {
    pub marketing_model_range: FilterWithValues,
}

/// A filter that matches any of its values.
#[derive(Clone, Debug, PartialEq, Eq)]
pub struct FilterWithValues {
    pub value: Vec<String>,
}

/// How the results are to be ordered.
#[derive(Clone, Debug, PartialEq, Eq)]
pub struct ResultsContext {
    pub sort: Vec<Sort>,
}

/// One sort directive.
#[derive(Clone, Copy, Debug, PartialEq, Eq, Structural)]
pub struct Sort {
    pub by: SortBy,
    pub order: SortOrder,
}

/// The field results are sorted by.
#[derive(Clone, Copy, Debug, PartialEq, Eq, Structural)]
pub enum SortBy {
    Price,
}

/// The direction of a sort.
#[derive(Clone, Copy, Debug, PartialEq, Eq, Structural)]
pub enum SortOrder {
    Asc,
    Desc,
}

/// The metadata of a search answer.
#[derive(Clone, Copy, Debug, PartialEq, Eq, Structural)]
pub struct Metadata {
    pub total_count: u32,
}

} // verus!
