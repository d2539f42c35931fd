use vstd::prelude::*;

use crate::body::{body_json, fetched_view, outcome_view, read_body, shape_error, shape_error_exec};
use crate::client::{HttpClient, Registry};
use crate::error::{ErrorView, SkillfileError};
use crate::json::{list_at, list_at_exec, number_at, number_at_exec, read_each, text_at, text_at_exec, Json};
use crate::registry_id::RegistryId;
use crate::search::{opt_text, result_views, ResponseView, ResultView, SearchOptions, SearchResponse, SearchResult};
use crate::text::concat;
use crate::urlencode::{url_encoding, urlencoded};

verus! {

/// The agentskill.sh registry (110K+ skills, public, no auth).
pub struct AgentskillSh;

/// One entry of an agentskill.sh search answer.
pub struct AgentskillEntry {
    pub slug: Option<Seq<char>>,
    pub name: Option<Seq<char>>,
    pub owner: Option<Seq<char>>,
    pub description: Option<Seq<char>>,
    pub security_score: Option<u8>,
    pub github_stars: Option<u32>,
    pub github_owner: Option<Seq<char>>,
    pub github_repo: Option<Seq<char>>,
    pub github_path: Option<Seq<char>>,
}

/// An agentskill.sh search answer.
pub struct AgentskillPage {
    pub results: Seq<AgentskillEntry>,
    pub total: Option<usize>,
}

/// A whole number read from JSON as a `u8`.
pub open spec fn as_u8(n: Option<u64>) -> Option<u8> {
    match n {
        Some(v) => Some(v as u8),
        None => None,
    }
}

/// A whole number read from JSON as a `u32`.
pub open spec fn as_u32(n: Option<u64>) -> Option<u32> {
    match n {
        Some(v) => Some(v as u32),
        None => None,
    }
}

/// A whole number read from JSON as a `usize`.
pub open spec fn as_usize(n: Option<u64>) -> Option<usize> {
    match n {
        Some(v) => Some(v as usize),
        None => None,
    }
}

/// Reads an entry: a record with the optional fields `slug`, `name`, `owner`,
/// `description` (texts), `securityScore` (0..=255), `githubStars`
/// (0..=u32::MAX), `githubOwner`, `githubRepo` and `githubPath` (texts).
pub open spec fn read_agentskill_entry(j: Json) -> Option<AgentskillEntry> {
    match (
        text_at(j, "slug"@, 0, 9),
        text_at(j, "name"@, 1, 9),
        text_at(j, "owner"@, 2, 9),
        text_at(j, "description"@, 3, 9),
        number_at(j, "securityScore"@, 4, 9, 255),
        number_at(j, "githubStars"@, 5, 9, 0xffff_ffff),
        text_at(j, "githubOwner"@, 6, 9),
        text_at(j, "githubRepo"@, 7, 9),
        text_at(j, "githubPath"@, 8, 9),
    ) {
        (
            Some(slug),
            Some(name),
            Some(owner),
            Some(description),
            Some(score),
            Some(stars),
            Some(github_owner),
            Some(github_repo),
            Some(github_path),
        ) => Some(
            AgentskillEntry {
                slug,
                name,
                owner,
                description,
                security_score: as_u8(score),
                github_stars: as_u32(stars),
                github_owner,
                github_repo,
                github_path,
            },
        ),
        _ => None,
    }
}

/// [`read_agentskill_entry`] as a function value.
pub open spec fn entry_reader() -> spec_fn(Json) -> Option<AgentskillEntry> {
    |e: Json| read_agentskill_entry(e)
}

/// [`agentskill_result`] as a function value.
pub open spec fn result_maker() -> spec_fn(AgentskillEntry) -> Option<ResultView> {
    |e: AgentskillEntry| agentskill_result(e)
}

/// Reads an answer: a record with the list `results` of entries and the
/// optional whole number `total`.
pub open spec fn read_agentskill_page(j: Json) -> Option<AgentskillPage> {
    match (list_at(j, "results"@, 0, 2), number_at(j, "total"@, 1, 2, usize::MAX as u64)) {
        (Some(elems), Some(total)) => match read_each(elems, entry_reader()) {
            Some(results) => Some(AgentskillPage { results, total: as_usize(total) }),
            None => None,
        },
        _ => None,
    }
}

/// The text, or empty when absent.
pub open spec fn or_empty(t: Option<Seq<char>>) -> Seq<char> {
    match t {
        Some(s) => s,
        None => Seq::empty(),
    }
}

/// The registry slug of an entry: its own, or `owner/name`.
pub open spec fn agentskill_slug(e: AgentskillEntry, name: Seq<char>) -> Seq<char> {
    match e.slug {
        Some(s) => s,
        None => or_empty(e.owner) + "/"@ + name,
    }
}

/// The search result for an entry; entries without a name give none. The
/// GitHub `owner/repo` is preferred as source when both parts are non-empty,
/// else the registry slug stands in.
pub open spec fn agentskill_result(e: AgentskillEntry) -> Option<ResultView> {
    match e.name {
        None => None,
        Some(name) => {
            let slug = agentskill_slug(e, name);
            let source_repo = match (e.github_owner, e.github_repo) {
                (Some(o), Some(r)) => if o.len() > 0 && r.len() > 0 {
                    o + "/"@ + r
                } else {
                    slug
                },
                _ => slug,
            };
            Some(
                ResultView {
                    name,
                    owner: or_empty(e.owner),
                    description: e.description,
                    security_score: e.security_score,
                    stars: e.github_stars,
                    url: "https://agentskill.sh/@"@ + slug,
                    registry: RegistryId::AgentskillSh,
                    source_repo: Some(source_repo),
                    source_path: e.github_path,
                },
            )
        },
    }
}

/// The search response for an answer: one result per named entry, in order;
/// the total is the answer's own, or the number of results.
pub open spec fn agentskill_response(p: AgentskillPage) -> ResponseView {
    let items = p.results.filter_map(result_maker());
    ResponseView {
        items,
        total: match p.total {
            Some(t) => t,
            None => items.len() as usize,
        },
    }
}

/// The outcome of an agentskill.sh search for what the request handed back.
pub open spec fn agentskill_outcome(fetched: Result<Seq<u8>, ErrorView>) -> Result<ResponseView, ErrorView> {
    match body_json("agentskill.sh"@, fetched) {
        Err(e) => Err(e),
        Ok(j) => match read_agentskill_page(j) {
            Some(p) => Ok(agentskill_response(p)),
            None => Err(shape_error("agentskill.sh"@)),
        },
    }
}

/// The search URL for a query. The limit is not passed on: post-processing
/// applies it after the results of all registries are merged.
pub open spec fn agentskill_query_url(query: Seq<char>) -> Seq<char> {
    "https://agentskill.sh/api/agent/search?q="@ + url_encoding(query) + "&limit=100"@
}

/// An optional result as plain values.
pub open spec fn opt_result_view(r: Option<SearchResult>) -> Option<ResultView> {
    match r {
        Some(x) => Some(x@),
        None => None,
    }
}

/// `a/b`.
pub fn slash_join(a: &str, b: &str) -> (s: String)
    ensures
        s@ == a@ + "/"@ + b@,
{
    let mut s = concat(a, "/");
    s.append(b);
    s
}

/// Reads one entry and builds its result.
fn agentskill_entry_result(j: &Json) -> (r: Result<Option<SearchResult>, ()>)
    ensures
        match r {
            Ok(x) => read_agentskill_entry(*j) matches Some(e) && opt_result_view(x) == agentskill_result(e),
            Err(()) => read_agentskill_entry(*j) is None,
        },
{
    let slug = text_at_exec(j, "slug", 0, 9)?;
    let name = text_at_exec(j, "name", 1, 9)?;
    let owner = text_at_exec(j, "owner", 2, 9)?;
    let description = text_at_exec(j, "description", 3, 9)?;
    let score = number_at_exec(j, "securityScore", 4, 9, 255)?;
    let stars = number_at_exec(j, "githubStars", 5, 9, 0xffff_ffff)?;
    let github_owner = text_at_exec(j, "githubOwner", 6, 9)?;
    let github_repo = text_at_exec(j, "githubRepo", 7, 9)?;
    let github_path = text_at_exec(j, "githubPath", 8, 9)?;
    let ghost entry = read_agentskill_entry(*j)->Some_0;
    let name = match name {
        Some(n) => n,
        None => return Ok(None),
    };
    let owner = match owner {
        Some(o) => o,
        None => String::new(),
    };
    let slug = match slug {
        Some(s) => s,
        None => slash_join(owner.as_str(), name.as_str()),
    };
    let source_repo = match (&github_owner, &github_repo) {
        (Some(o), Some(r)) => if !o.as_str().is_empty() && !r.as_str().is_empty() {
            slash_join(o.as_str(), r.as_str())
        } else {
            slug.clone()
        },
        _ => slug.clone(),
    };
    let url = concat("https://agentskill.sh/@", slug.as_str());
    let security_score = match score {
        Some(n) => Some(n as u8),
        None => None,
    };
    let stars = match stars {
        Some(n) => Some(n as u32),
        None => None,
    };
    let r = SearchResult {
        name,
        owner,
        description,
        security_score,
        stars,
        url,
        registry: RegistryId::AgentskillSh,
        source_repo: Some(source_repo),
        source_path: github_path,
    };
    assert(opt_result_view(Some(r)) == agentskill_result(entry));
    Ok(Some(r))
}

/// Builds the search response from an agentskill.sh answer, or `None` when the
/// document is not of that shape.
pub fn agentskill_response_from_json(j: &Json) -> (r: Option<SearchResponse>)
    ensures
        match r {
            Some(x) => read_agentskill_page(*j) matches Some(p) && x@ == agentskill_response(p),
            None => read_agentskill_page(*j) is None,
        },
{
    let elems = match list_at_exec(j, "results", 0, 2) {
        Ok(e) => e,
        Err(()) => return None,
    };
    let total = match number_at_exec(j, "total", 1, 2, usize::MAX as u64) {
        Ok(t) => t,
        Err(()) => return None,
    };
    let ghost reader = entry_reader();
    let ghost f = result_maker();
    let mut items: Vec<SearchResult> = Vec::new();
    let mut i: usize = 0;
    assert(elems@.take(0) =~= Seq::<Json>::empty());
    while i < elems.len()
        invariant
            i <= elems@.len(),
            reader == entry_reader(),
            f == result_maker(),
            list_at(*j, "results"@, 0, 2) == Some(elems@),
            number_at(*j, "total"@, 1, 2, usize::MAX as u64) == Some(total),
            read_each(elems@.take(i as int), reader) matches Some(es) && result_views(items@) == es.filter_map(f),
        decreases elems@.len() - i,
    {
        let ghost es = read_each(elems@.take(i as int), reader)->Some_0;
        assert(elems@.take(i + 1).drop_last() =~= elems@.take(i as int));
        assert(elems@.take(i + 1).last() == elems@[i as int]);
        match agentskill_entry_result(&elems[i]) {
            Err(()) => {
                assert(read_each(elems@, reader) is None) by {
                    lemma_read_each_prefix_fails(elems@, reader, i as int + 1);
                }
                return None;
            },
            Ok(x) => {
                let ghost e = read_agentskill_entry(elems@[i as int])->Some_0;
                assert(es.push(e).drop_last() =~= es);
                let ghost before = result_views(items@);
                match x {
                    Some(r) => {
                        items.push(r);
                        assert(result_views(items@) =~= before + seq![r@]);
                    },
                    None => {
                        assert(result_views(items@) =~= before);
                    },
                }
            },
        }
        i = i + 1;
    }
    assert(elems@.take(elems@.len() as int) =~= elems@);
    let total = match total {
        Some(t) => t as usize,
        None => items.len(),
    };
    Some(SearchResponse { items, total })
}

/// A list read with `read` fails when some prefix of it fails.
pub proof fn lemma_read_each_prefix_fails<T>(elems: Seq<Json>, read: spec_fn(Json) -> Option<T>, n: int)
    requires
        0 <= n <= elems.len(),
        read_each(elems.take(n), read) is None,
    ensures
        read_each(elems, read) is None,
    decreases elems.len() - n,
{
    if n < elems.len() {
        assert(elems.take(n + 1).drop_last() =~= elems.take(n));
        lemma_read_each_prefix_fails(elems, read, n + 1);
    } else {
        assert(elems.take(n) =~= elems);
    }
}

/// Every item a mapping keeps comes from some element of the list.
pub proof fn lemma_filter_map_source<A, B>(s: Seq<A>, f: spec_fn(A) -> Option<B>)
    ensures
        forall|i: int| 0 <= i < s.filter_map(f).len() ==> exists|k: int|
            0 <= k < s.len() && f(s[k]) == Some(#[trigger] s.filter_map(f)[i]),
    decreases s.len(),
{
    if s.len() > 0 {
        lemma_filter_map_source(s.drop_last(), f);
        let front = s.drop_last().filter_map(f);
        assert forall|i: int| 0 <= i < s.filter_map(f).len() implies exists|k: int|
            0 <= k < s.len() && f(s[k]) == Some(#[trigger] s.filter_map(f)[i]) by {
            match f(s.last()) {
                Some(r) => {
                    assert(s.filter_map(f) == front + seq![r]);
                    if i < front.len() {
                        assert(s.filter_map(f)[i] == front[i]);
                        let k = choose|k: int| 0 <= k < s.drop_last().len() && f(s.drop_last()[k]) == Some(front[i]);
                        assert(s[k] == s.drop_last()[k]);
                    } else {
                        assert(s.filter_map(f)[i] == r);
                        assert(f(s[s.len() - 1]) == Some(r));
                    }
                },
                None => {
                    assert(s.filter_map(f) == front);
                    let k = choose|k: int| 0 <= k < s.drop_last().len() && f(s.drop_last()[k]) == Some(front[i]);
                    assert(s[k] == s.drop_last()[k]);
                },
            }
        }
    }
}

/// Every element the mapping keeps is among the items it gives.
pub proof fn lemma_filter_map_keeps<A, B>(s: Seq<A>, f: spec_fn(A) -> Option<B>, k: int)
    requires
        0 <= k < s.len(),
        f(s[k]) is Some,
    ensures
        s.filter_map(f).contains(f(s[k])->Some_0),
    decreases s.len(),
{
    let front = s.drop_last().filter_map(f);
    if k < s.len() - 1 {
        assert(s.drop_last()[k] == s[k]);
        lemma_filter_map_keeps(s.drop_last(), f, k);
        let i = choose|i: int| 0 <= i < front.len() && front[i] == f(s[k])->Some_0;
        match f(s.last()) {
            Some(r) => {
                assert(s.filter_map(f) == front + seq![r]);
                assert(s.filter_map(f)[i] == front[i]);
            },
            None => {
                assert(s.filter_map(f) == front);
            },
        }
    } else {
        assert(s.filter_map(f) == front + seq![f(s[k])->Some_0]);
        assert(s.filter_map(f)[front.len() as int] == f(s[k])->Some_0);
    }
}

/// An agentskill.sh result carries the fields of the entry it came from: its
/// name, owner (empty when absent), description, security score, star count
/// and GitHub path, and it names agentskill.sh as its registry.
pub open spec fn carries_entry(r: ResultView, e: AgentskillEntry) -> bool {
    &&& e.name == Some(r.name)
    &&& r.owner == or_empty(e.owner)
    &&& r.description == e.description
    &&& r.security_score == e.security_score
    &&& r.stars == e.github_stars
    &&& r.source_path == e.github_path
    &&& r.registry == RegistryId::AgentskillSh
}

/// Law: each agentskill.sh result is built from one entry of the answer and
/// keeps that entry's name, owner, description, security score, stars and
/// GitHub path; and every entry with a name gives such a result.
pub proof fn lemma_agentskill_results_keep_entry_fields(p: AgentskillPage)
    ensures
        forall|i: int| 0 <= i < agentskill_response(p).items.len() ==> exists|k: int|
            0 <= k < p.results.len() && carries_entry(#[trigger] agentskill_response(p).items[i], p.results[k]),
        forall|k: int| 0 <= k < p.results.len() && (#[trigger] p.results[k]).name is Some ==> exists|i: int|
            0 <= i < agentskill_response(p).items.len() && carries_entry(agentskill_response(p).items[i], p.results[k]),
{
    let f = result_maker();
    let items = agentskill_response(p).items;
    assert(items == p.results.filter_map(f));
    lemma_filter_map_source(p.results, f);
    assert forall|i: int| 0 <= i < items.len() implies exists|k: int|
        0 <= k < p.results.len() && carries_entry(#[trigger] items[i], p.results[k]) by {
        let k = choose|k: int| 0 <= k < p.results.len() && f(p.results[k]) == Some(p.results.filter_map(f)[i]);
        assert(carries_entry(items[i], p.results[k]));
    }
    assert forall|k: int| 0 <= k < p.results.len() && (#[trigger] p.results[k]).name is Some implies exists|i: int|
        0 <= i < items.len() && carries_entry(items[i], p.results[k]) by {
        lemma_filter_map_keeps(p.results, f, k);
        let i = choose|i: int| 0 <= i < items.len() && items[i] == f(p.results[k])->Some_0;
        assert(carries_entry(items[i], p.results[k]));
    }
}

/// Builds the outcome of an agentskill.sh search from what the request handed back.
pub fn agentskill_response_from(fetched: Result<Vec<u8>, SkillfileError>) -> (r: Result<SearchResponse, SkillfileError>)
    ensures
        outcome_view(r) == agentskill_outcome(fetched_view(fetched)),
{
    let j = read_body("agentskill.sh", fetched)?;
    match agentskill_response_from_json(&j) {
        Some(resp) => Ok(resp),
        None => Err(shape_error_exec("agentskill.sh")),
    }
}

/// The search URL for a query.
pub fn agentskill_url(query: &str) -> (url: String)
    ensures
        url@ == agentskill_query_url(query@),
{
    let mut url = concat("https://agentskill.sh/api/agent/search?q=", urlencoded(query).as_str());
    url.append("&limit=100");
    url
}

impl Registry for AgentskillSh {
    fn name(&self) -> (s: &'static str)
        ensures
            s@ == "agentskill.sh"@,
    {
        "agentskill.sh"
    }

    /// Asks agentskill.sh for `query` with one GET of
    /// [`agentskill_query_url`]; the outcome is that of [`agentskill_outcome`]
    /// for what the client handed back. `opts` plays no part: filtering,
    /// sorting and the limit come with post-processing.
    fn search<C: HttpClient>(&self, client: &mut C, query: &str, opts: &SearchOptions) -> (r: Result<SearchResponse, SkillfileError>)
        ensures
            exists|fetched: Result<Seq<u8>, ErrorView>| {
                &&& C::gets(*old(client), *final(client), agentskill_query_url(query@), fetched)
                &&& outcome_view(r) == agentskill_outcome(fetched)
            },
    {
        let url = agentskill_url(query);
        let fetched = client.get_bytes(url.as_str());
        let ghost f = fetched_view(fetched);
        let r = agentskill_response_from(fetched);
        assert(outcome_view(r) == agentskill_outcome(f));
        r
    }
}

} // verus!
