use vstd::prelude::*;

use crate::registry_id::RegistryId;

verus! {

/// Options for a registry search query.
#[derive(Debug)]
pub struct SearchOptions {
    /// Maximum number of results to return.
    pub limit: usize,
    /// Minimum security score (0-100). `None` means no filter.
    pub min_score: Option<u8>,
}

impl Default for SearchOptions {
    fn default() -> (o: Self)
        ensures
            o.limit == 20,
            o.min_score is None,
    {
        SearchOptions { limit: 20, min_score: None }
    }
}

/// A single search result from a registry.
#[derive(Debug)]
pub struct SearchResult {
    /// Skill or agent name.
    pub name: String,
    /// Owner (GitHub user or org).
    pub owner: String,
    /// Human-readable description.
    pub description: Option<String>,
    /// Security score (0-100).
    pub security_score: Option<u8>,
    /// GitHub stars (or the registry's own popularity count).
    pub stars: Option<u32>,
    /// Link to the skill page.
    pub url: String,
    /// Registry that provided this result.
    pub registry: RegistryId,
    /// GitHub `owner/repo` if known from the registry metadata.
    pub source_repo: Option<String>,
    /// Path within the GitHub repo (e.g. `skills/foo/SKILL.md`), if known.
    pub source_path: Option<String>,
}

/// A search result as plain values.
pub struct ResultView {
    pub name: Seq<char>,
    pub owner: Seq<char>,
    pub description: Option<Seq<char>>,
    pub security_score: Option<u8>,
    pub stars: Option<u32>,
    pub url: Seq<char>,
    pub registry: RegistryId,
    pub source_repo: Option<Seq<char>>,
    pub source_path: Option<Seq<char>>,
}

/// The text of an optional string.
pub open spec fn opt_text(o: Option<String>) -> Option<Seq<char>> {
    match o {
        Some(s) => Some(s@),
        None => None,
    }
}

impl View for SearchResult {
    type V = ResultView;

    open spec fn view(&self) -> ResultView {
        ResultView {
            name: self.name@,
            owner: self.owner@,
            description: opt_text(self.description),
            security_score: self.security_score,
            stars: self.stars,
            url: self.url@,
            registry: self.registry,
            source_repo: opt_text(self.source_repo),
            source_path: opt_text(self.source_path),
        }
    }
}

/// The plain values of a list of results.
pub open spec fn result_views(items: Seq<SearchResult>) -> Seq<ResultView> {
    items.map_values(|r: SearchResult| r@)
}

/// The response from a registry search.
#[derive(Debug)]
pub struct SearchResponse {
    /// Matching results (up to `limit`).
    pub items: Vec<SearchResult>,
    /// Total number of matches across queried registries.
    pub total: usize,
}

/// A search response as plain values.
pub struct ResponseView {
    pub items: Seq<ResultView>,
    pub total: usize,
}

impl View for SearchResponse {
    type V = ResponseView;

    open spec fn view(&self) -> ResponseView {
        ResponseView { items: result_views(self.items@), total: self.total }
    }
}

} // verus!
