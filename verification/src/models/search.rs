//! Search-side request, response and enumeration types.

use vstd::prelude::*;

verus! {

/// Which record kinds a search covers.
#[derive(Clone, Copy, PartialEq, Eq, Structural, Debug)]
pub enum SearchType {
    All,
    Posts,
    Comments,
    Communities,
    Users,
}

/// Orderings a search can be asked for.
#[derive(Clone, Copy, PartialEq, Eq, Structural, Debug)]
pub enum SearchSort {
    Relevance,
    New,
    Top,
    Comments,
}

/// Window a search is restricted to.
#[derive(Clone, Copy, PartialEq, Eq, Structural, Debug)]
pub enum SearchTimeRange {
    Hour,
    Day,
    Week,
    Month,
    Year,
    All,
}

/// A full search request.
#[derive(Clone, PartialEq, Eq, Debug)]
pub struct SearchQuery {
    pub q: String,
    pub search_type: Option<SearchType>,
    pub sort: Option<SearchSort>,
    pub time_range: Option<SearchTimeRange>,
    pub community: Option<String>,
    pub author: Option<String>,
    pub post_type: Option<crate::models::post::PostType>,
    pub is_nsfw: Option<bool>,
    pub limit: Option<u32>,
    pub offset: Option<u32>,
}

/// What a suggestion refers to.
#[derive(Clone, Copy, PartialEq, Eq, Structural, Debug)]
pub enum SuggestionType {
    Query,
    Community,
    User,
    Tag,
}

/// One search suggestion with its hit count.
#[derive(Clone, PartialEq, Eq, Debug)]
pub struct SearchSuggestion {
    pub text: String,
    pub suggestion_type: SuggestionType,
    pub count: i64,
}

/// One selectable filter value with its label and hit count.
#[derive(Clone, PartialEq, Eq, Debug)]
pub struct FilterOption {
    pub value: String,
    pub label: String,
    pub count: i64,
}

/// The filter values available for a result set.
#[derive(Clone, PartialEq, Eq, Debug)]
pub struct SearchFilters {
    pub available_communities: Vec<FilterOption>,
    pub available_authors: Vec<FilterOption>,
    pub post_types: Vec<FilterOption>,
    pub time_ranges: Vec<FilterOption>,
}

/// An as-you-type completion request.
#[derive(Clone, PartialEq, Eq, Debug)]
pub struct AutocompleteQuery {
    pub q: String,
    pub limit: Option<u32>,
}

/// One as-you-type completion.
#[derive(Clone, PartialEq, Eq, Debug)]
pub struct AutocompleteSuggestion {
    pub text: String,
    pub suggestion_type: SuggestionType,
    pub icon_url: Option<String>,
    pub subtitle: Option<String>,
}

/// The completions for one request.
#[derive(Clone, PartialEq, Eq, Debug)]
pub struct AutocompleteResponse {
    pub suggestions: Vec<AutocompleteSuggestion>,
}

/// Plain limit/offset paging.
#[derive(Clone, Copy, PartialEq, Eq, Structural, Debug)]
pub struct PaginationParams {
    pub limit: Option<u32>,
    pub offset: Option<u32>,
}

} // verus!
