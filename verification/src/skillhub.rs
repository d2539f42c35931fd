use vstd::prelude::*;

use crate::agentskill::{as_u32, as_u8, as_usize, lemma_read_each_prefix_fails, or_empty, opt_result_view};
use crate::body::{body_json, concat3, fetched_view, outcome_view, read_body, shape_error, shape_error_exec};
use crate::client::{HttpClient, Registry};
use crate::error::{ErrorView, SkillfileError};
use crate::json::{json_quoted, number_at, number_at_exec, optional_list_at, optional_list_at_exec, quote_json, read_each, text_at, text_at_exec, Json};
use crate::registry_id::RegistryId;
use crate::search::{result_views, ResponseView, ResultView, SearchOptions, SearchResponse, SearchResult};
use crate::text::concat;

verus! {

/// The skillhub.club registry, which needs an API key (taken from the
/// `SKILLHUB_API_KEY` environment variable by the caller).
pub struct SkillhubClub {
    pub api_key: Option<String>,
}

/// One entry of a skillhub.club search answer.
pub struct SkillhubEntry {
    pub name: Option<Seq<char>>,
    pub description: Option<Seq<char>>,
    pub author: Option<Seq<char>>,
    pub github_stars: Option<u32>,
    pub simple_score: Option<u8>,
    pub slug: Option<Seq<char>>,
}

/// A skillhub.club search answer.
pub struct SkillhubPage {
    pub results: Option<Seq<SkillhubEntry>>,
    pub total: Option<usize>,
}

/// Reads an entry: a record with the optional fields `name`, `description`,
/// `author` (texts), `github_stars` (0..=u32::MAX), `simple_score` (0..=255)
/// and `slug` (text).
pub open spec fn read_skillhub_entry(j: Json) -> Option<SkillhubEntry> {
    match (
        text_at(j, "name"@, 0, 6),
        text_at(j, "description"@, 1, 6),
        text_at(j, "author"@, 2, 6),
        number_at(j, "github_stars"@, 3, 6, 0xffff_ffff),
        number_at(j, "simple_score"@, 4, 6, 255),
        text_at(j, "slug"@, 5, 6),
    ) {
        (Some(name), Some(description), Some(author), Some(stars), Some(score), Some(slug)) => Some(
            SkillhubEntry {
                name,
                description,
                author,
                github_stars: as_u32(stars),
                simple_score: as_u8(score),
                slug,
            },
        ),
        _ => None,
    }
}

/// [`read_skillhub_entry`] as a function value.
pub open spec fn skillhub_reader() -> spec_fn(Json) -> Option<SkillhubEntry> {
    |e: Json| read_skillhub_entry(e)
}

/// Reads an answer: a record with the optional list `results` of entries and
/// the optional whole number `total`.
pub open spec fn read_skillhub_page(j: Json) -> Option<SkillhubPage> {
    match (optional_list_at(j, "results"@, 0, 2), number_at(j, "total"@, 1, 2, usize::MAX as u64)) {
        (Some(None), Some(total)) => Some(SkillhubPage { results: None, total: as_usize(total) }),
        (Some(Some(elems)), Some(total)) => match read_each(elems, skillhub_reader()) {
            Some(results) => Some(SkillhubPage { results: Some(results), total: as_usize(total) }),
            None => None,
        },
        _ => None,
    }
}

/// The search result for an entry; entries without a name give none. The page
/// is found by the slug, or by the name when there is no slug.
pub open spec fn skillhub_result(e: SkillhubEntry) -> Option<ResultView> {
    match e.name {
        None => None,
        Some(name) => Some(
            ResultView {
                name,
                owner: or_empty(e.author),
                description: e.description,
                security_score: e.simple_score,
                stars: e.github_stars,
                url: "https://www.skillhub.club/skills/"@ + match e.slug {
                    Some(s) => s,
                    None => name,
                },
                registry: RegistryId::SkillhubClub,
                source_repo: None,
                source_path: None,
            },
        ),
    }
}

/// [`skillhub_result`] as a function value.
pub open spec fn skillhub_maker() -> spec_fn(SkillhubEntry) -> Option<ResultView> {
    |e: SkillhubEntry| skillhub_result(e)
}

/// The search response for an answer: one result per named entry, in order;
/// the total is the answer's own, or the number of results.
pub open spec fn skillhub_response(p: SkillhubPage) -> ResponseView {
    let entries = match p.results {
        Some(s) => s,
        None => Seq::empty(),
    };
    let items = entries.filter_map(skillhub_maker());
    ResponseView {
        items,
        total: match p.total {
            Some(t) => t,
            None => items.len() as usize,
        },
    }
}

/// The outcome of a skillhub.club search for what the request handed back.
pub open spec fn skillhub_outcome(fetched: Result<Seq<u8>, ErrorView>) -> Result<ResponseView, ErrorView> {
    match body_json("skillhub.club"@, fetched) {
        Err(e) => Err(e),
        Ok(j) => match read_skillhub_page(j) {
            Some(p) => Ok(skillhub_response(p)),
            None => Err(shape_error("skillhub.club"@)),
        },
    }
}

/// The JSON request body for a query: the query and a limit of 100, with the
/// keys in the order serde_json writes them.
pub open spec fn skillhub_request_body(query: Seq<char>) -> Seq<char> {
    "{\"limit\":100,\"query\":"@ + json_quoted(query) + "}"@
}

/// The skillhub.club search endpoint.
pub open spec fn skillhub_search_url() -> Seq<char> {
    "https://www.skillhub.club/api/v1/skills/search"@
}

/// The skillhub.club search request for `query` with API key `key`: the
/// request body posted to the search endpoint with the key as bearer token,
/// which took the client from `before` to `after` and handed back `fetched`.
pub open spec fn skillhub_posted<C: HttpClient>(before: C, after: C, key: Seq<char>, query: Seq<char>, fetched: Result<Seq<u8>, ErrorView>) -> bool {
    C::posts(before, after, skillhub_search_url(), skillhub_request_body(query), Some(key), fetched)
}

/// The response given when no API key is configured: nothing found.
pub open spec fn no_results() -> ResponseView {
    ResponseView { items: Seq::empty(), total: 0 }
}

/// The API key if one is configured (absent or empty means none).
pub open spec fn configured_key(k: Option<String>) -> bool {
    match k {
        Some(s) => s@.len() > 0,
        None => false,
    }
}

/// Reads one entry and builds its result.
fn skillhub_entry_result(j: &Json) -> (r: Result<Option<SearchResult>, ()>)
    ensures
        match r {
            Ok(x) => read_skillhub_entry(*j) matches Some(e) && opt_result_view(x) == skillhub_result(e),
            Err(()) => read_skillhub_entry(*j) is None,
        },
{
    let name = text_at_exec(j, "name", 0, 6)?;
    let description = text_at_exec(j, "description", 1, 6)?;
    let author = text_at_exec(j, "author", 2, 6)?;
    let stars = number_at_exec(j, "github_stars", 3, 6, 0xffff_ffff)?;
    let score = number_at_exec(j, "simple_score", 4, 6, 255)?;
    let slug = text_at_exec(j, "slug", 5, 6)?;
    let ghost entry = read_skillhub_entry(*j)->Some_0;
    let name = match name {
        Some(n) => n,
        None => return Ok(None),
    };
    let url = match &slug {
        Some(s) => concat("https://www.skillhub.club/skills/", s.as_str()),
        None => concat("https://www.skillhub.club/skills/", name.as_str()),
    };
    let owner = match author {
        Some(a) => a,
        None => String::new(),
    };
    let r = SearchResult {
        name,
        owner,
        description,
        security_score: match score {
            Some(n) => Some(n as u8),
            None => None,
        },
        stars: match stars {
            Some(n) => Some(n as u32),
            None => None,
        },
        url,
        registry: RegistryId::SkillhubClub,
        source_repo: None,
        source_path: None,
    };
    assert(opt_result_view(Some(r)) == skillhub_result(entry));
    Ok(Some(r))
}

/// Builds the search response from a skillhub.club answer, or `None` when the
/// document is not of that shape.
pub fn skillhub_response_from_json(j: &Json) -> (r: Option<SearchResponse>)
    ensures
        match r {
            Some(x) => read_skillhub_page(*j) matches Some(p) && x@ == skillhub_response(p),
            None => read_skillhub_page(*j) is None,
        },
{
    let listed = match optional_list_at_exec(j, "results", 0, 2) {
        Ok(e) => e,
        Err(()) => return None,
    };
    let total = match number_at_exec(j, "total", 1, 2, usize::MAX as u64) {
        Ok(t) => t,
        Err(()) => return None,
    };
    let mut items: Vec<SearchResult> = Vec::new();
    if let Some(elems) = listed {
        let ghost reader = skillhub_reader();
        let ghost f = skillhub_maker();
        let mut i: usize = 0;
        assert(elems@.take(0) =~= Seq::<Json>::empty());
        while i < elems.len()
            invariant
                i <= elems@.len(),
                reader == skillhub_reader(),
                f == skillhub_maker(),
                optional_list_at(*j, "results"@, 0, 2) == Some(Some(elems@)),
                number_at(*j, "total"@, 1, 2, usize::MAX as u64) == Some(total),
                read_each(elems@.take(i as int), reader) matches Some(es) && result_views(items@) == es.filter_map(f),
            decreases elems@.len() - i,
        {
            let ghost es = read_each(elems@.take(i as int), reader)->Some_0;
            assert(elems@.take(i + 1).drop_last() =~= elems@.take(i as int));
            assert(elems@.take(i + 1).last() == elems@[i as int]);
            match skillhub_entry_result(&elems[i]) {
                Err(()) => {
                    assert(read_each(elems@, reader) is None) by {
                        lemma_read_each_prefix_fails(elems@, reader, i as int + 1);
                    }
                    return None;
                },
                Ok(x) => {
                    let ghost e = read_skillhub_entry(elems@[i as int])->Some_0;
                    assert(es.push(e).drop_last() =~= es);
                    let ghost before = result_views(items@);
                    match x {
                        Some(r) => {
                            items.push(r);
                            assert(result_views(items@) =~= before + seq![r@]);
                        },
                        None => {
                            assert(result_views(items@) =~= before);
                        },
                    }
                },
            }
            i = i + 1;
        }
        assert(elems@.take(elems@.len() as int) =~= elems@);
    } else {
        assert(result_views(items@) =~= Seq::<ResultView>::empty());
    }
    let total = match total {
        Some(t) => t as usize,
        None => items.len(),
    };
    Some(SearchResponse { items, total })
}

/// Builds the outcome of a skillhub.club search from what the request handed back.
pub fn skillhub_response_from(fetched: Result<Vec<u8>, SkillfileError>) -> (r: Result<SearchResponse, SkillfileError>)
    ensures
        outcome_view(r) == skillhub_outcome(fetched_view(fetched)),
{
    let j = read_body("skillhub.club", fetched)?;
    match skillhub_response_from_json(&j) {
        Some(resp) => Ok(resp),
        None => Err(shape_error_exec("skillhub.club")),
    }
}

/// The JSON request body for a query.
pub fn skillhub_body(query: &str) -> (body: String)
    ensures
        body@ == skillhub_request_body(query@),
{
    concat3("{\"limit\":100,\"query\":", quote_json(query).as_str(), "}")
}

impl Registry for SkillhubClub {
    fn name(&self) -> (s: &'static str)
        ensures
            s@ == "skillhub.club"@,
    {
        "skillhub.club"
    }

    /// Without a configured API key the search is skipped, makes no request
    /// and finds nothing. Otherwise the query is posted once, with the key as
    /// bearer token, to the search endpoint, and the outcome is that of
    /// [`skillhub_outcome`] for what the client handed back.
    fn search<C: HttpClient>(&self, client: &mut C, query: &str, opts: &SearchOptions) -> (r: Result<SearchResponse, SkillfileError>)
        ensures
            !configured_key(self.api_key) ==> {
                &&& outcome_view(r) == Ok::<ResponseView, ErrorView>(no_results())
                &&& *final(client) == *old(client)
            },
            configured_key(self.api_key) ==> exists|fetched: Result<Seq<u8>, ErrorView>| {
                &&& skillhub_posted(*old(client), *final(client), self.api_key->Some_0@, query@, fetched)
                &&& outcome_view(r) == skillhub_outcome(fetched)
            },
    {
        let key = match &self.api_key {
            Some(k) => if !k.as_str().is_empty() {
                k
            } else {
                let r = SearchResponse { items: Vec::new(), total: 0 };
                assert(r@.items =~= Seq::<ResultView>::empty());
                return Ok(r);
            },
            None => {
                let r = SearchResponse { items: Vec::new(), total: 0 };
                assert(r@.items =~= Seq::<ResultView>::empty());
                return Ok(r);
            },
        };
        let body = skillhub_body(query);
        let fetched = client.post_json_with_bearer(
            "https://www.skillhub.club/api/v1/skills/search",
            body.as_str(),
            key.as_str(),
        );
        let ghost f = fetched_view(fetched);
        let r = skillhub_response_from(fetched);
        assert(outcome_view(r) == skillhub_outcome(f));
        r
    }
}

} // verus!
