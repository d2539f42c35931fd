use vstd::prelude::*;

use crate::body::outcome_view;
use crate::client::{HttpClient, Registry};
use crate::error::{ErrorView, SkillfileError};
use crate::search::{ResponseView, ResultView, SearchOptions, SearchResponse, SearchResult};
use crate::skillhub::no_results;

verus! {

/// The mcpmarket.com registry (minimal implementation: it finds nothing).
pub struct McpMarket;

impl McpMarket {
    /// The content of a result's skill file; mcpmarket.com offers none.
    pub fn fetch_skill_content<C: HttpClient>(&self, client: &mut C, item: &SearchResult) -> (r: Option<String>)
        ensures
            r is None,
    {
        None
    }
}

impl Registry for McpMarket {
    fn name(&self) -> (s: &'static str)
        ensures
            s@ == "mcpmarket.com"@,
    {
        "mcpmarket.com"
    }

    /// Finds nothing, without asking the network.
    fn search<C: HttpClient>(&self, client: &mut C, query: &str, opts: &SearchOptions) -> (r: Result<SearchResponse, SkillfileError>)
        ensures
            outcome_view(r) == Ok::<ResponseView, ErrorView>(no_results()),
    {
        let r = SearchResponse { items: Vec::new(), total: 0 };
        assert(r@.items =~= Seq::<ResultView>::empty());
        Ok(r)
    }
}

} // verus!
