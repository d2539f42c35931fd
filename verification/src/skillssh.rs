use vstd::prelude::*;

use crate::agentskill::{as_u32, as_usize, lemma_read_each_prefix_fails, or_empty, opt_result_view};
use crate::body::{body_json, fetched_view, outcome_view, read_body, shape_error, shape_error_exec};
use crate::client::{HttpClient, Registry};
use crate::error::{ErrorView, SkillfileError};
use crate::json::{number_at, number_at_exec, optional_list_at, optional_list_at_exec, read_each, text_at, text_at_exec, Json};
use crate::registry_id::RegistryId;
use crate::search::{result_views, ResponseView, ResultView, SearchOptions, SearchResponse, SearchResult};
use crate::text::{chars_of, concat, push_char};
use crate::urlencode::{url_encoding, urlencoded};

verus! {

/// The skills.sh registry (public, no auth, minimal fields).
pub struct SkillsSh;

/// One entry of a skills.sh search answer.
pub struct SkillsShEntry {
    /// Full identifier: `owner/repo/skillId`.
    pub id: Option<Seq<char>>,
    pub name: Option<Seq<char>>,
    pub installs: Option<u32>,
    /// GitHub `owner/repo`.
    pub source: Option<Seq<char>>,
}

/// A skills.sh search answer.
pub struct SkillsShPage {
    pub skills: Option<Seq<SkillsShEntry>>,
    pub count: Option<usize>,
}

/// Reads an entry: a record with the optional fields `id`, `name` (texts),
/// `installs` (0..=u32::MAX) and `source` (text).
pub open spec fn read_skillssh_entry(j: Json) -> Option<SkillsShEntry> {
    match (
        text_at(j, "id"@, 0, 4),
        text_at(j, "name"@, 1, 4),
        number_at(j, "installs"@, 2, 4, 0xffff_ffff),
        text_at(j, "source"@, 3, 4),
    ) {
        (Some(id), Some(name), Some(installs), Some(source)) => Some(
            SkillsShEntry { id, name, installs: as_u32(installs), source },
        ),
        _ => None,
    }
}

/// [`read_skillssh_entry`] as a function value.
pub open spec fn skillssh_reader() -> spec_fn(Json) -> Option<SkillsShEntry> {
    |e: Json| read_skillssh_entry(e)
}

/// Reads an answer: a record with the optional list `skills` of entries and
/// the optional whole number `count`.
pub open spec fn read_skillssh_page(j: Json) -> Option<SkillsShPage> {
    match (optional_list_at(j, "skills"@, 0, 2), number_at(j, "count"@, 1, 2, usize::MAX as u64)) {
        (Some(None), Some(count)) => Some(SkillsShPage { skills: None, count: as_usize(count) }),
        (Some(Some(elems)), Some(count)) => match read_each(elems, skillssh_reader()) {
            Some(skills) => Some(SkillsShPage { skills: Some(skills), count: as_usize(count) }),
            None => None,
        },
        _ => None,
    }
}

/// The text before the first `/` (all of it when there is none).
pub open spec fn first_segment(s: Seq<char>) -> Seq<char>
    decreases s.len(),
{
    if s.len() == 0 {
        Seq::empty()
    } else if s[0] == '/' {
        Seq::empty()
    } else {
        seq![s[0]] + first_segment(s.drop_first())
    }
}

/// The search result for an entry; entries without a name give none. The
/// owner is the first part of the GitHub source; the page is the one of the
/// full identifier when there is one.
pub open spec fn skillssh_result(e: SkillsShEntry) -> Option<ResultView> {
    match e.name {
        None => None,
        Some(name) => Some(
            ResultView {
                name,
                owner: first_segment(or_empty(e.source)),
                description: None,
                security_score: None,
                stars: e.installs,
                url: match e.id {
                    Some(id) => "https://skills.sh/"@ + id,
                    None => "https://skills.sh/skills/"@ + name,
                },
                registry: RegistryId::SkillsSh,
                source_repo: e.source,
                source_path: None,
            },
        ),
    }
}

/// [`skillssh_result`] as a function value.
pub open spec fn skillssh_maker() -> spec_fn(SkillsShEntry) -> Option<ResultView> {
    |e: SkillsShEntry| skillssh_result(e)
}

/// The search response for an answer: one result per named entry, in order;
/// the total is the answer's count, or the number of results.
pub open spec fn skillssh_response(p: SkillsShPage) -> ResponseView {
    let entries = match p.skills {
        Some(s) => s,
        None => Seq::empty(),
    };
    let items = entries.filter_map(skillssh_maker());
    ResponseView {
        items,
        total: match p.count {
            Some(t) => t,
            None => items.len() as usize,
        },
    }
}

/// The outcome of a skills.sh search for what the request handed back.
pub open spec fn skillssh_outcome(fetched: Result<Seq<u8>, ErrorView>) -> Result<ResponseView, ErrorView> {
    match body_json("skills.sh"@, fetched) {
        Err(e) => Err(e),
        Ok(j) => match read_skillssh_page(j) {
            Some(p) => Ok(skillssh_response(p)),
            None => Err(shape_error("skills.sh"@)),
        },
    }
}

/// The search URL for a query.
pub open spec fn skillssh_query_url(query: Seq<char>) -> Seq<char> {
    "https://skills.sh/api/search?q="@ + url_encoding(query)
}

/// The text before the first `/`.
pub fn first_segment_exec(s: &str) -> (r: String)
    ensures
        r@ == first_segment(s@),
{
    let cs = chars_of(s);
    let mut front = String::new();
    let mut i: usize = 0;
    assert(cs@.skip(0) =~= cs@);
    assert(cs@.take(0) =~= Seq::<char>::empty());
    while i < cs.len() && cs[i] != '/'
        invariant
            i <= cs@.len(),
            cs@ == s@,
            front@ == cs@.take(i as int),
            first_segment(s@) == cs@.take(i as int) + first_segment(cs@.skip(i as int)),
        decreases cs@.len() - i,
    {
        assert(cs@.skip(i as int).drop_first() =~= cs@.skip(i + 1));
        assert(cs@.take(i + 1) =~= cs@.take(i as int) + seq![cs@[i as int]]);
        push_char(&mut front, cs[i]);
        i = i + 1;
    }
    assert(first_segment(cs@.skip(i as int)) =~= Seq::<char>::empty());
    front
}

/// Reads one entry and builds its result.
fn skillssh_entry_result(j: &Json) -> (r: Result<Option<SearchResult>, ()>)
    ensures
        match r {
            Ok(x) => read_skillssh_entry(*j) matches Some(e) && opt_result_view(x) == skillssh_result(e),
            Err(()) => read_skillssh_entry(*j) is None,
        },
{
    let id = text_at_exec(j, "id", 0, 4)?;
    let name = text_at_exec(j, "name", 1, 4)?;
    let installs = number_at_exec(j, "installs", 2, 4, 0xffff_ffff)?;
    let source = text_at_exec(j, "source", 3, 4)?;
    let ghost entry = read_skillssh_entry(*j)->Some_0;
    let name = match name {
        Some(n) => n,
        None => return Ok(None),
    };
    let owner = match &source {
        Some(s) => first_segment_exec(s.as_str()),
        None => first_segment_exec(""),
    };
    let url = match &id {
        Some(i) => concat("https://skills.sh/", i.as_str()),
        None => concat("https://skills.sh/skills/", name.as_str()),
    };
    let stars = match installs {
        Some(n) => Some(n as u32),
        None => None,
    };
    let r = SearchResult {
        name,
        owner,
        description: None,
        security_score: None,
        stars,
        url,
        registry: RegistryId::SkillsSh,
        source_repo: source,
        source_path: None,
    };
    proof {
        reveal_strlit("");
    }
    assert(opt_result_view(Some(r)) == skillssh_result(entry));
    Ok(Some(r))
}

/// Builds the search response from a skills.sh answer, or `None` when the
/// document is not of that shape.
pub fn skillssh_response_from_json(j: &Json) -> (r: Option<SearchResponse>)
    ensures
        match r {
            Some(x) => read_skillssh_page(*j) matches Some(p) && x@ == skillssh_response(p),
            None => read_skillssh_page(*j) is None,
        },
{
    let listed = match optional_list_at_exec(j, "skills", 0, 2) {
        Ok(e) => e,
        Err(()) => return None,
    };
    let count = match number_at_exec(j, "count", 1, 2, usize::MAX as u64) {
        Ok(t) => t,
        Err(()) => return None,
    };
    let mut items: Vec<SearchResult> = Vec::new();
    if let Some(elems) = listed {
        let ghost reader = skillssh_reader();
        let ghost f = skillssh_maker();
        let mut i: usize = 0;
        assert(elems@.take(0) =~= Seq::<Json>::empty());
        while i < elems.len()
            invariant
                i <= elems@.len(),
                reader == skillssh_reader(),
                f == skillssh_maker(),
                optional_list_at(*j, "skills"@, 0, 2) == Some(Some(elems@)),
                number_at(*j, "count"@, 1, 2, usize::MAX as u64) == Some(count),
                read_each(elems@.take(i as int), reader) matches Some(es) && result_views(items@) == es.filter_map(f),
            decreases elems@.len() - i,
        {
            let ghost es = read_each(elems@.take(i as int), reader)->Some_0;
            assert(elems@.take(i + 1).drop_last() =~= elems@.take(i as int));
            assert(elems@.take(i + 1).last() == elems@[i as int]);
            match skillssh_entry_result(&elems[i]) {
                Err(()) => {
                    assert(read_each(elems@, reader) is None) by {
                        lemma_read_each_prefix_fails(elems@, reader, i as int + 1);
                    }
                    return None;
                },
                Ok(x) => {
                    let ghost e = read_skillssh_entry(elems@[i as int])->Some_0;
                    assert(es.push(e).drop_last() =~= es);
                    let ghost before = result_views(items@);
                    match x {
                        Some(r) => {
                            items.push(r);
                            assert(result_views(items@) =~= before + seq![r@]);
                        },
                        None => {
                            assert(result_views(items@) =~= before);
                        },
                    }
                },
            }
            i = i + 1;
        }
        assert(elems@.take(elems@.len() as int) =~= elems@);
    } else {
        assert(result_views(items@) =~= Seq::<ResultView>::empty());
    }
    let total = match count {
        Some(t) => t as usize,
        None => items.len(),
    };
    Some(SearchResponse { items, total })
}

/// Builds the outcome of a skills.sh search from what the request handed back.
pub fn skillssh_response_from(fetched: Result<Vec<u8>, SkillfileError>) -> (r: Result<SearchResponse, SkillfileError>)
    ensures
        outcome_view(r) == skillssh_outcome(fetched_view(fetched)),
{
    let j = read_body("skills.sh", fetched)?;
    match skillssh_response_from_json(&j) {
        Some(resp) => Ok(resp),
        None => Err(shape_error_exec("skills.sh")),
    }
}

/// The search URL for a query.
pub fn skillssh_url(query: &str) -> (url: String)
    ensures
        url@ == skillssh_query_url(query@),
{
    concat("https://skills.sh/api/search?q=", urlencoded(query).as_str())
}

impl Registry for SkillsSh {
    fn name(&self) -> (s: &'static str)
        ensures
            s@ == "skills.sh"@,
    {
        "skills.sh"
    }

    /// Asks skills.sh for `query` with one GET of [`skillssh_query_url`]; the
    /// outcome is that of [`skillssh_outcome`] for what the client handed back. All results are returned: the limit
    /// is applied by post-processing.
    fn search<C: HttpClient>(&self, client: &mut C, query: &str, opts: &SearchOptions) -> (r: Result<SearchResponse, SkillfileError>)
        ensures
            exists|fetched: Result<Seq<u8>, ErrorView>| {
                &&& C::gets(*old(client), *final(client), skillssh_query_url(query@), fetched)
                &&& outcome_view(r) == skillssh_outcome(fetched)
            },
    {
        let url = skillssh_url(query);
        let fetched = client.get_bytes(url.as_str());
        let ghost f = fetched_view(fetched);
        let r = skillssh_response_from(fetched);
        assert(outcome_view(r) == skillssh_outcome(f));
        r
    }
}

} // verus!
