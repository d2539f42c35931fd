use vstd::prelude::*;
use vstd::utf8::{decode_utf8, valid_utf8};

use crate::agentskill::{lemma_read_each_prefix_fails, or_empty, slash_join};
use crate::body::{fetched_view, utf8_string};
use crate::client::HttpClient;
use crate::error::{ErrorView, SkillfileError};
use crate::json::{json_document, optional_list_at, optional_list_at_exec, parse_json, read_each, text_at, text_at_exec, Json};
use crate::text::{chars_of, concat, push_char, str_eq};
use crate::urlencode::{url_encoding, urlencoded};

verus! {

/// GitHub coordinates resolved from the agentskill.sh detail API.
#[derive(Debug)]
pub struct AgentskillGithubMeta {
    /// GitHub `owner/repo` (e.g. `openclaw/skills`).
    pub source_repo: String,
    /// Path to the skill file within the repo.
    pub source_path: String,
}

/// GitHub coordinates as plain values.
pub struct GithubMetaView {
    pub source_repo: Seq<char>,
    pub source_path: Seq<char>,
}

impl View for AgentskillGithubMeta {
    type V = GithubMetaView;

    open spec fn view(&self) -> GithubMetaView {
        GithubMetaView { source_repo: self.source_repo@, source_path: self.source_path@ }
    }
}

/// Optional coordinates as plain values.
pub open spec fn meta_view(m: Option<AgentskillGithubMeta>) -> Option<GithubMetaView> {
    match m {
        Some(x) => Some(x@),
        None => None,
    }
}

/// One entry of the detail API's answer.
pub struct DetailEntry {
    pub slug: Option<Seq<char>>,
    pub github_owner: Option<Seq<char>>,
    pub github_repo: Option<Seq<char>>,
    pub github_path: Option<Seq<char>>,
}

/// Reads an entry: a record with the optional texts `slug`, `githubOwner`,
/// `githubRepo` and `githubPath`.
pub open spec fn read_detail_entry(j: Json) -> Option<DetailEntry> {
    match (
        text_at(j, "slug"@, 0, 4),
        text_at(j, "githubOwner"@, 1, 4),
        text_at(j, "githubRepo"@, 2, 4),
        text_at(j, "githubPath"@, 3, 4),
    ) {
        (Some(slug), Some(github_owner), Some(github_repo), Some(github_path)) => Some(
            DetailEntry { slug, github_owner, github_repo, github_path },
        ),
        _ => None,
    }
}

/// [`read_detail_entry`] as a function value.
pub open spec fn detail_reader() -> spec_fn(Json) -> Option<DetailEntry> {
    |e: Json| read_detail_entry(e)
}

/// Reads an answer: a record with the optional list `data` of entries.
pub open spec fn read_detail_page(j: Json) -> Option<Option<Seq<DetailEntry>>> {
    match optional_list_at(j, "data"@, 0, 1) {
        Some(None) => Some(None),
        Some(Some(elems)) => match read_each(elems, detail_reader()) {
            Some(entries) => Some(Some(entries)),
            None => None,
        },
        None => None,
    }
}

/// A character with ASCII uppercase letters made lowercase.
pub open spec fn lower_ascii(c: char) -> char {
    if 'A' <= c && c <= 'Z' {
        ((c as u32) + 32) as char
    } else {
        c
    }
}

/// A text with its ASCII uppercase letters made lowercase.
pub open spec fn ascii_lower(s: Seq<char>) -> Seq<char> {
    s.map_values(|c: char| lower_ascii(c))
}

/// A text present and non-empty.
pub open spec fn non_empty(t: Option<Seq<char>>) -> bool {
    t matches Some(s) && s.len() > 0
}

/// The coordinates an entry gives: all three GitHub fields must be present
/// and non-empty.
pub open spec fn entry_meta(e: DetailEntry) -> Option<GithubMetaView> {
    if non_empty(e.github_owner) && non_empty(e.github_repo) && non_empty(e.github_path) {
        Some(
            GithubMetaView {
                source_repo: e.github_owner->Some_0 + "/"@ + e.github_repo->Some_0,
                source_path: e.github_path->Some_0,
            },
        )
    } else {
        None
    }
}

/// The coordinates of the first entry whose slug (empty when absent) equals
/// `slug_lower` once lowercased; `None` when no entry matches. Only the first
/// match counts, even when it lacks coordinates.
pub open spec fn first_match(entries: Seq<DetailEntry>, slug_lower: Seq<char>) -> Option<GithubMetaView>
    decreases entries.len(),
{
    if entries.len() == 0 {
        None
    } else if ascii_lower(or_empty(entries[0].slug)) == slug_lower {
        entry_meta(entries[0])
    } else {
        first_match(entries.drop_first(), slug_lower)
    }
}

/// What the detail API's answer gives for `slug`: any failure (request, UTF-8,
/// JSON, shape, no `data`) gives `None`.
pub open spec fn meta_outcome(fetched: Result<Seq<u8>, ErrorView>, slug: Seq<char>) -> Option<GithubMetaView> {
    match fetched {
        Err(_) => None,
        Ok(bytes) => if !valid_utf8(bytes) {
            None
        } else {
            match json_document(decode_utf8(bytes)) {
                Err(_) => None,
                Ok(j) => match read_detail_page(j) {
                    Some(Some(entries)) => first_match(entries, ascii_lower(slug)),
                    _ => None,
                },
            }
        },
    }
}

/// The detail query URL for a skill name.
pub open spec fn detail_query_url(skill_name: Seq<char>) -> Seq<char> {
    "https://agentskill.sh/api/skills?q="@ + url_encoding(skill_name) + "&limit=5"@
}

/// A text with its ASCII uppercase letters made lowercase.
pub fn to_ascii_lowercase(s: &str) -> (r: String)
    ensures
        r@ == ascii_lower(s@),
{
    let cs = chars_of(s);
    let mut r = String::new();
    let mut i: usize = 0;
    while i < cs.len()
        invariant
            i <= cs@.len(),
            cs@ == s@,
            r@ == ascii_lower(cs@.take(i as int)),
        decreases cs@.len() - i,
    {
        let c = cs[i];
        let l = if 'A' <= c && c <= 'Z' {
            ((c as u32) + 32) as u8 as char
        } else {
            c
        };
        assert(l == lower_ascii(c));
        push_char(&mut r, l);
        assert(ascii_lower(cs@.take(i + 1)) =~= ascii_lower(cs@.take(i as int)).push(l));
        i = i + 1;
    }
    assert(cs@.take(cs@.len() as int) =~= cs@);
    r
}

/// One entry of the answer, read.
pub struct DetailRow {
    pub slug: Option<String>,
    pub github_owner: Option<String>,
    pub github_repo: Option<String>,
    pub github_path: Option<String>,
}

impl View for DetailRow {
    type V = DetailEntry;

    open spec fn view(&self) -> DetailEntry {
        DetailEntry {
            slug: crate::search::opt_text(self.slug),
            github_owner: crate::search::opt_text(self.github_owner),
            github_repo: crate::search::opt_text(self.github_repo),
            github_path: crate::search::opt_text(self.github_path),
        }
    }
}

fn read_detail_row(j: &Json) -> (r: Result<DetailRow, ()>)
    ensures
        match r {
            Ok(row) => read_detail_entry(*j) == Some(row@),
            Err(()) => read_detail_entry(*j) is None,
        },
{
    let slug = text_at_exec(j, "slug", 0, 4)?;
    let github_owner = text_at_exec(j, "githubOwner", 1, 4)?;
    let github_repo = text_at_exec(j, "githubRepo", 2, 4)?;
    let github_path = text_at_exec(j, "githubPath", 3, 4)?;
    Ok(DetailRow { slug, github_owner, github_repo, github_path })
}

/// Reads every entry of the answer's `data`.
fn read_detail_rows(j: &Json) -> (r: Option<Vec<DetailRow>>)
    ensures
        match r {
            Some(rows) => read_detail_page(*j) == Some(Some(rows@.map_values(|x: DetailRow| x@))),
            None => !(read_detail_page(*j) matches Some(Some(_))),
        },
{
    let elems = match optional_list_at_exec(j, "data", 0, 1) {
        Ok(Some(e)) => e,
        _ => return None,
    };
    let ghost reader = detail_reader();
    let mut rows: Vec<DetailRow> = Vec::new();
    let mut i: usize = 0;
    assert(elems@.take(0) =~= Seq::<Json>::empty());
    while i < elems.len()
        invariant
            i <= elems@.len(),
            reader == detail_reader(),
            optional_list_at(*j, "data"@, 0, 1) == Some(Some(elems@)),
            read_each(elems@.take(i as int), reader) == Some(rows@.map_values(|x: DetailRow| x@)),
        decreases elems@.len() - i,
    {
        assert(elems@.take(i + 1).drop_last() =~= elems@.take(i as int));
        assert(elems@.take(i + 1).last() == elems@[i as int]);
        match read_detail_row(&elems[i]) {
            Err(()) => {
                assert(read_each(elems@, reader) is None) by {
                    lemma_read_each_prefix_fails(elems@, reader, i as int + 1);
                }
                return None;
            },
            Ok(row) => {
                let ghost before = rows@.map_values(|x: DetailRow| x@);
                rows.push(row);
                assert(rows@.map_values(|x: DetailRow| x@) =~= before.push(row@));
            },
        }
        i = i + 1;
    }
    assert(elems@.take(elems@.len() as int) =~= elems@);
    Some(rows)
}

/// The coordinates of a matching entry: all three GitHub fields must be
/// present and non-empty.
fn row_meta(row: &DetailRow) -> (r: Option<AgentskillGithubMeta>)
    ensures
        meta_view(r) == entry_meta(row@),
{
    let owner = match &row.github_owner {
        Some(o) => if !o.as_str().is_empty() { o } else { return None },
        None => return None,
    };
    let repo = match &row.github_repo {
        Some(o) => if !o.as_str().is_empty() { o } else { return None },
        None => return None,
    };
    let path = match &row.github_path {
        Some(o) => if !o.as_str().is_empty() { o } else { return None },
        None => return None,
    };
    Some(AgentskillGithubMeta { source_repo: slash_join(owner.as_str(), repo.as_str()), source_path: path.clone() })
}

/// Finds GitHub coordinates for `slug` in what the detail API handed back.
pub fn github_meta_from(fetched: Result<Vec<u8>, SkillfileError>, slug: &str) -> (r: Option<AgentskillGithubMeta>)
    ensures
        meta_view(r) == meta_outcome(fetched_view(fetched), slug@),
{
    let bytes = match fetched {
        Ok(b) => b,
        Err(_) => return None,
    };
    let text = match utf8_string(bytes) {
        Ok(t) => t,
        Err(_) => return None,
    };
    let j = match parse_json(text.as_str()) {
        Ok(j) => j,
        Err(_) => return None,
    };
    let rows = match read_detail_rows(&j) {
        Some(rows) => rows,
        None => return None,
    };
    let slug_lower = to_ascii_lowercase(slug);
    let ghost entries = rows@.map_values(|x: DetailRow| x@);
    let ghost target = meta_outcome(fetched_view(fetched), slug@);
    assert(target == first_match(entries, slug_lower@));
    let mut i: usize = 0;
    assert(entries.skip(0) =~= entries);
    while i < rows.len()
        invariant
            i <= rows@.len(),
            target == first_match(entries, slug_lower@),
            target == meta_outcome(fetched_view(fetched), slug@),
            entries == rows@.map_values(|x: DetailRow| x@),
            slug_lower@ == ascii_lower(slug@),
            first_match(entries, slug_lower@) == first_match(entries.skip(i as int), slug_lower@),
        decreases rows@.len() - i,
    {
        assert(entries.skip(i as int).drop_first() =~= entries.skip(i + 1));
        assert(entries.skip(i as int)[0] == rows@[i as int]@);
        proof {
            reveal_strlit("");
        }
        let item_slug = match &rows[i].slug {
            Some(s) => to_ascii_lowercase(s.as_str()),
            None => to_ascii_lowercase(""),
        };
        assert(item_slug@ == ascii_lower(or_empty(entries.skip(i as int)[0].slug)));
        if str_eq(item_slug.as_str(), slug_lower.as_str()) {
            assert(entries.skip(i as int).len() > 0);
            assert(first_match(entries.skip(i as int), slug_lower@) == entry_meta(entries.skip(i as int)[0]));
            let r = row_meta(&rows[i]);
            assert(meta_view(r) == entry_meta(rows@[i as int]@));
            assert(meta_view(r) == target);
            return r;
        }
        i = i + 1;
    }
    None
}

/// The detail query URL for a skill name.
pub fn detail_url(skill_name: &str) -> (url: String)
    ensures
        url@ == detail_query_url(skill_name@),
{
    let mut url = concat("https://agentskill.sh/api/skills?q=", urlencoded(skill_name).as_str());
    url.append("&limit=5");
    url
}

/// Fetch GitHub coordinates for an agentskill.sh skill by querying the detail API.
///
/// The search API only returns a registry slug, not the actual GitHub
/// coordinates; the detail API returns `githubOwner`, `githubRepo` and
/// `githubPath`. Queries by `skill_name`, then matches on `slug`
/// (ASCII case-insensitively). Returns `None` on network failure or if no
/// matching entry is found: the request is one GET of [`detail_query_url`]
/// for the skill name, and the result is that of [`meta_outcome`] for what the
/// client handed back.
pub fn fetch_agentskill_github_meta<C: HttpClient>(client: &mut C, slug: &str, skill_name: &str) -> (r: Option<AgentskillGithubMeta>)
    ensures
        exists|fetched: Result<Seq<u8>, ErrorView>| {
            &&& C::gets(*old(client), *final(client), detail_query_url(skill_name@), fetched)
            &&& meta_view(r) == meta_outcome(fetched, slug@)
        },
{
    let url = detail_url(skill_name);
    let fetched = client.get_bytes(url.as_str());
    let ghost f = fetched_view(fetched);
    let r = github_meta_from(fetched, slug);
    assert(meta_view(r) == meta_outcome(f, slug@));
    r
}

/// The entries of a detail answer, when it was fetched, is UTF-8 JSON, and
/// holds a `data` list of entries.
pub open spec fn detail_entries(fetched: Result<Seq<u8>, ErrorView>) -> Option<Seq<DetailEntry>> {
    match fetched {
        Ok(bytes) => if valid_utf8(bytes) {
            match json_document(decode_utf8(bytes)) {
                Ok(j) => match read_detail_page(j) {
                    Some(Some(entries)) => Some(entries),
                    _ => None,
                },
                Err(_) => None,
            }
        } else {
            None
        },
        Err(_) => None,
    }
}

/// Entry `k` has the requested slug, ignoring ASCII case.
pub open spec fn slug_matches(entries: Seq<DetailEntry>, k: int, slug: Seq<char>) -> bool {
    ascii_lower(or_empty(entries[k].slug)) == ascii_lower(slug)
}

proof fn lemma_first_match_is_first_matching(entries: Seq<DetailEntry>, slug: Seq<char>)
    ensures
        first_match(entries, ascii_lower(slug)) matches Some(m) ==> exists|k: int| {
            &&& 0 <= k < entries.len()
            &&& #[trigger] slug_matches(entries, k, slug)
            &&& forall|j: int| 0 <= j < k ==> !slug_matches(entries, j, slug)
            &&& entries[k].github_owner matches Some(o) && entries[k].github_repo matches Some(r)
                && entries[k].github_path matches Some(p) && o.len() > 0 && r.len() > 0 && p.len() > 0
                && m.source_repo == o + "/"@ + r && m.source_path == p
        },
        (forall|k: int| 0 <= k < entries.len() ==> !slug_matches(entries, k, slug)) ==> first_match(entries, ascii_lower(slug)) is None,
    decreases entries.len(),
{
    if entries.len() > 0 {
        let rest = entries.drop_first();
        lemma_first_match_is_first_matching(rest, slug);
        assert forall|k: int| 0 <= k < rest.len() implies slug_matches(rest, k, slug) == slug_matches(entries, k + 1, slug) by {
            assert(rest[k] == entries[k + 1]);
        }
        if slug_matches(entries, 0, slug) {
            if let Some(m) = first_match(entries, ascii_lower(slug)) {
                assert(slug_matches(entries, 0, slug));
            }
        } else {
            if let Some(m) = first_match(entries, ascii_lower(slug)) {
                let k = choose|k: int| {
                    &&& 0 <= k < rest.len()
                    &&& #[trigger] slug_matches(rest, k, slug)
                    &&& forall|j: int| 0 <= j < k ==> !slug_matches(rest, j, slug)
                    &&& rest[k].github_owner matches Some(o) && rest[k].github_repo matches Some(r)
                        && rest[k].github_path matches Some(p) && o.len() > 0 && r.len() > 0 && p.len() > 0
                        && m.source_repo == o + "/"@ + r && m.source_path == p
                };
                assert(rest[k] == entries[k + 1]);
                assert(slug_matches(entries, k + 1, slug));
                assert forall|j: int| 0 <= j < k + 1 implies !slug_matches(entries, j, slug) by {
                    if j > 0 {
                        assert(slug_matches(rest, j - 1, slug) == slug_matches(entries, j, slug));
                    }
                }
            }
            if forall|k: int| 0 <= k < entries.len() ==> !slug_matches(entries, k, slug) {
                assert forall|k: int| 0 <= k < rest.len() implies !slug_matches(rest, k, slug) by {
                    assert(slug_matches(rest, k, slug) == slug_matches(entries, k + 1, slug));
                }
            }
        }
    }
}

/// Law: the coordinates found for a slug are those of the first entry of the
/// detail answer whose slug equals it up to ASCII case: that entry has a
/// non-empty owner, repository and path, the result is `owner/repo` and the
/// path, and no earlier entry has the slug. When no entry has the slug, or the
/// answer holds no entries, nothing is found.
pub proof fn lemma_meta_is_first_matching_entry(fetched: Result<Seq<u8>, ErrorView>, slug: Seq<char>)
    ensures
        meta_outcome(fetched, slug) matches Some(m) ==> detail_entries(fetched) matches Some(entries) && exists|k: int| {
            &&& 0 <= k < entries.len()
            &&& #[trigger] slug_matches(entries, k, slug)
            &&& forall|j: int| 0 <= j < k ==> !slug_matches(entries, j, slug)
            &&& entries[k].github_owner matches Some(o) && entries[k].github_repo matches Some(r)
                && entries[k].github_path matches Some(p) && o.len() > 0 && r.len() > 0 && p.len() > 0
                && m.source_repo == o + "/"@ + r && m.source_path == p
        },
        detail_entries(fetched) matches Some(entries) && (forall|k: int| 0 <= k < entries.len() ==> !slug_matches(entries, k, slug))
            ==> meta_outcome(fetched, slug) is None,
        detail_entries(fetched) is None ==> meta_outcome(fetched, slug) is None,
{
    if let Some(entries) = detail_entries(fetched) {
        lemma_first_match_is_first_matching(entries, slug);
        assert(meta_outcome(fetched, slug) == first_match(entries, ascii_lower(slug)));
    }
}

/// Law: slugs are matched without regard to ASCII case: two slugs that
/// differ only in the case of ASCII letters find the same coordinates in any
/// answer.
pub proof fn lemma_meta_slug_case_insensitive(fetched: Result<Seq<u8>, ErrorView>, a: Seq<char>, b: Seq<char>)
    requires
        ascii_lower(a) == ascii_lower(b),
    ensures
        meta_outcome(fetched, a) == meta_outcome(fetched, b),
{
}

} // verus!
