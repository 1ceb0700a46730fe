//! The web-search request for a venue, and how a failed search is classified.
use vstd::prelude::*;
use crate::venue::VenueInput;

verus! {

broadcast use vstd::string::group_string_axioms;

/// A request to the search provider.
#[derive(Clone, Debug)]
pub struct ExaSearchRequest {
    pub query: String,
    /// One of `keyword`, `neural`, `fast`, `auto`.
    pub search_type: Option<String>,
    pub category: Option<String>,
    pub num_results: Option<u32>,
    pub include_domains: Option<Vec<String>>,
    pub exclude_domains: Option<Vec<String>>,
    pub start_crawl_date: Option<String>,
    pub end_crawl_date: Option<String>,
    pub start_published_date: Option<String>,
    pub end_published_date: Option<String>,
    pub include_text: Option<Vec<String>>,
    pub exclude_text: Option<Vec<String>>,
    pub context: Option<bool>,
    pub moderation: Option<bool>,
}

/// The venue's name, followed by a space and its context where it has one.
pub open spec fn venue_query(input: VenueInput) -> Seq<char> {
    match input.context {
        Some(c) => input.name@ + " "@ + c@,
        None => input.name@,
    }
}

/// The search text for a venue.
pub open spec fn search_text(input: VenueInput) -> Seq<char> {
    "music venue concert hall \""@ + venue_query(input) + "\" contact information"@
}

/// The number of results asked for.
pub const SEARCH_RESULTS: u32 = 10;

/// The request that searches for a venue: a neural search among companies
/// for its contact information, with context and moderation on.
pub fn build_search_request(input: &VenueInput) -> (r: ExaSearchRequest)
    ensures
        r.query@ == search_text(*input),
        r.search_type.deep_view() == Some("neural"@),
        r.category.deep_view() == Some("company"@),
        r.num_results == Some(SEARCH_RESULTS),
        r.include_domains is None,
        r.exclude_domains is None,
        r.start_crawl_date is None,
        r.end_crawl_date is None,
        r.start_published_date is None,
        r.end_published_date is None,
        r.include_text is None,
        r.exclude_text is None,
        r.context == Some(true),
        r.moderation == Some(true),
{
    let q = match &input.context {
        Some(c) => input.name.clone().concat(" ").concat(c.as_str()),
        None => input.name.clone(),
    };
    let query = String::from_str("music venue concert hall \"").concat(q.as_str()).concat(
        "\" contact information",
    );
    ExaSearchRequest {
        query,
        search_type: Some(String::from_str("neural")),
        category: Some(String::from_str("company")),
        num_results: Some(SEARCH_RESULTS),
        include_domains: None,
        exclude_domains: None,
        start_crawl_date: None,
        end_crawl_date: None,
        start_published_date: None,
        end_published_date: None,
        include_text: None,
        exclude_text: None,
        context: Some(true),
        moderation: Some(true),
    }
}

/// What an error status from the search provider means.
#[derive(Clone, Copy, Debug, PartialEq, Eq, Structural)]
pub enum SearchFailure {
    /// 401: the API key was refused.
    Unauthorized,
    /// 403: the key lacks a permission.
    Forbidden,
    /// 429: too many requests.
    RateLimited,
    /// 400: the query was malformed.
    BadRequest,
    /// 500 to 599: the provider failed.
    ServerError,
    /// Any other status.
    Other,
}

/// Classifies an error status from the search provider.
pub fn classify_search_status(status: u16) -> (r: SearchFailure)
    ensures
        r == (if status == 401 {
            SearchFailure::Unauthorized
        } else if status == 403 {
            SearchFailure::Forbidden
        } else if status == 429 {
            SearchFailure::RateLimited
        } else if status == 400 {
            SearchFailure::BadRequest
        } else if 500 <= status <= 599 {
            SearchFailure::ServerError
        } else {
            SearchFailure::Other
        }),
{
    if status == 401 {
        SearchFailure::Unauthorized
    } else if status == 403 {
        SearchFailure::Forbidden
    } else if status == 429 {
        SearchFailure::RateLimited
    } else if status == 400 {
        SearchFailure::BadRequest
    } else if 500 <= status && status <= 599 {
        SearchFailure::ServerError
    } else {
        SearchFailure::Other
    }
}

} // verus!
