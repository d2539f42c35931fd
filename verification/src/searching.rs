use vstd::prelude::*;

use crate::agentskill::{agentskill_outcome, agentskill_query_url, AgentskillSh};
use crate::body::{concat3, outcome_view};
use crate::client::{HttpClient, Registry};
use crate::error::{error_text, ErrorView, SkillfileError};
use crate::ranking::{is_post_processed, post_process};
use crate::registry_id::{registry_name, registry_named, registry_named_exec, RegistryId};
use crate::search::{result_views, ResponseView, ResultView, SearchOptions, SearchResponse, SearchResult};
use crate::skillhub::{configured_key, no_results, skillhub_outcome, skillhub_posted, SkillhubClub};
use crate::skillssh::{skillssh_outcome, skillssh_query_url, SkillsSh};

verus! {

/// What a registry's search gives for what its request handed back.
pub open spec fn registry_outcome(id: RegistryId, fetched: Result<Seq<u8>, ErrorView>) -> Result<ResponseView, ErrorView> {
    match id {
        RegistryId::AgentskillSh => agentskill_outcome(fetched),
        RegistryId::SkillsSh => skillssh_outcome(fetched),
        RegistryId::SkillhubClub => skillhub_outcome(fetched),
    }
}

/// The search of registry `id` for `query` took the client from `before` to
/// `after` and gave `raw`: agentskill.sh and skills.sh with one GET of their
/// search URL, skillhub.club with one POST of its request when an API key is
/// configured; the outcome is the registry's for what the client handed back.
/// skillhub.club without a key makes no request and finds nothing.
pub open spec fn searched<C: HttpClient>(
    id: RegistryId,
    skillhub_api_key: Option<String>,
    query: Seq<char>,
    before: C,
    after: C,
    raw: Result<ResponseView, ErrorView>,
) -> bool {
    match id {
        RegistryId::AgentskillSh => exists|f: Result<Seq<u8>, ErrorView>|
            C::gets(before, after, agentskill_query_url(query), f) && raw == agentskill_outcome(f),
        RegistryId::SkillsSh => exists|f: Result<Seq<u8>, ErrorView>|
            C::gets(before, after, skillssh_query_url(query), f) && raw == skillssh_outcome(f),
        RegistryId::SkillhubClub => if configured_key(skillhub_api_key) {
            exists|f: Result<Seq<u8>, ErrorView>|
                skillhub_posted(before, after, skillhub_api_key->Some_0@, query, f) && raw == skillhub_outcome(f)
        } else {
            after == before && raw == Ok::<ResponseView, ErrorView>(no_results())
        },
    }
}

/// The registries `ids` were searched for `query` once each, in order: the
/// client went through `states` (from first to last), and search `i` gave
/// `raw[i]`.
pub open spec fn searched_in_turn<C: HttpClient>(
    ids: Seq<RegistryId>,
    skillhub_api_key: Option<String>,
    query: Seq<char>,
    states: Seq<C>,
    raw: Seq<Result<ResponseView, ErrorView>>,
) -> bool {
    &&& raw.len() == ids.len()
    &&& states.len() == ids.len() + 1
    &&& forall|i: int| #![trigger raw[i]]
        0 <= i < ids.len() ==> searched(ids[i], skillhub_api_key, query, states[i], states[i + 1], raw[i])
}

/// The search result `r` is the raw outcome `raw` post-processed: an error is
/// passed on unchanged.
pub open spec fn processed_outcome(raw: Result<ResponseView, ErrorView>, r: Result<SearchResponse, SkillfileError>, limit: usize, min_score: Option<u8>) -> bool {
    match (raw, r) {
        (Ok(a), Ok(b)) => is_post_processed(b@, a, limit, min_score),
        (Err(e), Err(f)) => f@ == e,
        _ => false,
    }
}

/// The registries queried by default (public, no auth required), in order;
/// skillhub.club only when an API key is configured (present and non-empty).
pub open spec fn default_registries(skillhub_api_key: Option<String>) -> Seq<RegistryId> {
    if configured_key(skillhub_api_key) {
        seq![RegistryId::AgentskillSh, RegistryId::SkillsSh, RegistryId::SkillhubClub]
    } else {
        seq![RegistryId::AgentskillSh, RegistryId::SkillsSh]
    }
}

/// The results of the successful outcomes, one registry after the other.
pub open spec fn merged_items(raw: Seq<Result<ResponseView, ErrorView>>) -> Seq<ResultView>
    decreases raw.len(),
{
    if raw.len() == 0 {
        Seq::empty()
    } else {
        merged_items(raw.drop_last()) + match raw.last() {
            Ok(r) => r.items,
            Err(_) => Seq::empty(),
        }
    }
}

/// The sum of the totals of the successful outcomes, held at `usize::MAX`
/// should it exceed it.
pub open spec fn merged_total(raw: Seq<Result<ResponseView, ErrorView>>) -> usize
    decreases raw.len(),
{
    if raw.len() == 0 {
        0
    } else {
        let before = merged_total(raw.drop_last());
        match raw.last() {
            Ok(r) => if before + r.total > usize::MAX {
                usize::MAX
            } else {
                (before + r.total) as usize
            },
            Err(_) => before,
        }
    }
}

/// One warning per failed registry, in order: `warning: <name> search failed: <error>`.
pub open spec fn warnings_of(ids: Seq<RegistryId>, raw: Seq<Result<ResponseView, ErrorView>>) -> Seq<Seq<char>>
    decreases raw.len(),
{
    if raw.len() == 0 {
        Seq::empty()
    } else {
        let before = warnings_of(ids.drop_last(), raw.drop_last());
        match raw.last() {
            Ok(_) => before,
            Err(e) => before.push("warning: "@ + registry_name(ids.last()) + " search failed: "@ + error_text(e)),
        }
    }
}

/// The error for a registry name that is not known.
pub open spec fn unknown_registry_error(name: Seq<char>) -> ErrorView {
    ErrorView::Manifest(
        "unknown registry '"@ + name + "'. Valid registries: agentskill.sh, skills.sh, skillhub.club"@,
    )
}

/// Texts as plain values.
pub open spec fn texts_view(v: Seq<String>) -> Seq<Seq<char>> {
    v.map_values(|s: String| s@)
}

/// Outcomes as plain values.
pub open spec fn outcomes_view(v: Seq<Result<SearchResponse, SkillfileError>>) -> Seq<Result<ResponseView, ErrorView>> {
    v.map_values(|r: Result<SearchResponse, SkillfileError>| outcome_view(r))
}

/// Returns the registries to query by default (public, no auth required).
/// skillhub.club requires an API key and is included only when one is given.
pub fn all_registries(skillhub_api_key: &Option<String>) -> (regs: Vec<RegistryId>)
    ensures
        regs@ == default_registries(*skillhub_api_key),
{
    let mut regs = vec![RegistryId::AgentskillSh, RegistryId::SkillsSh];
    if let Some(k) = skillhub_api_key {
        if !k.as_str().is_empty() {
            regs.push(RegistryId::SkillhubClub);
        }
    }
    assert(regs@ =~= default_registries(*skillhub_api_key));
    regs
}

/// Searches one registry.
pub fn search_one<C: HttpClient>(client: &mut C, id: RegistryId, skillhub_api_key: &Option<String>, query: &str, opts: &SearchOptions) -> (r: Result<SearchResponse, SkillfileError>)
    ensures
        searched(id, *skillhub_api_key, query@, *old(client), *final(client), outcome_view(r)),
{
    match id {
        RegistryId::AgentskillSh => AgentskillSh.search(client, query, opts),
        RegistryId::SkillsSh => SkillsSh.search(client, query, opts),
        RegistryId::SkillhubClub => {
            let reg = SkillhubClub { api_key: skillhub_api_key.clone() };
            reg.search(client, query, opts)
        },
    }
}

/// Merges the outcomes of several registries (`ids[i]` gave `outcomes[i]`):
/// the results of the successful ones are concatenated in order and their
/// totals added; each failure is reported as a warning and skipped.
pub fn merge_outcomes(ids: &Vec<RegistryId>, outcomes: Vec<Result<SearchResponse, SkillfileError>>, warnings: &mut Vec<String>) -> (resp: SearchResponse)
    requires
        ids@.len() == outcomes@.len(),
    ensures
        resp@.items == merged_items(outcomes_view(outcomes@)),
        resp.total == merged_total(outcomes_view(outcomes@)),
        texts_view(final(warnings)@) == texts_view(old(warnings)@) + warnings_of(ids@, outcomes_view(outcomes@)),
{
    let ghost all = outcomes_view(outcomes@);
    let mut rest = outcomes;
    let mut items: Vec<SearchResult> = Vec::new();
    let mut total: usize = 0;
    let mut i: usize = 0;
    let ghost start = texts_view(warnings@);
    assert(all.take(0) =~= Seq::<Result<ResponseView, ErrorView>>::empty());
    assert(ids@.take(0) =~= Seq::<RegistryId>::empty());
    assert(outcomes_view(rest@) =~= all.skip(0));
    assert(texts_view(warnings@) =~= start + Seq::<Seq<char>>::empty());
    while i < ids.len()
        invariant
            i <= ids@.len(),
            all.len() == ids@.len(),
            rest@.len() == ids@.len() - i,
            outcomes_view(rest@) == all.skip(i as int),
            result_views(items@) == merged_items(all.take(i as int)),
            total == merged_total(all.take(i as int)),
            texts_view(warnings@) == start + warnings_of(ids@.take(i as int), all.take(i as int)),
        decreases ids@.len() - i,
    {
        let ghost old_rest = rest@;
        let outcome = rest.remove(0);
        assert(rest@ =~= old_rest.drop_first());
        assert(all.skip(i as int)[0] == outcome_view(outcome));
        assert forall|k: int| 0 <= k < rest@.len() implies outcomes_view(rest@)[k] == all.skip(i + 1)[k] by {
            assert(rest@[k] == old_rest[k + 1]);
            assert(outcomes_view(old_rest)[k + 1] == all.skip(i as int)[k + 1]);
        }
        assert(outcomes_view(rest@) =~= all.skip(i + 1));
        assert(all.take(i + 1).drop_last() =~= all.take(i as int));
        assert(all.take(i + 1).last() == outcome_view(outcome));
        assert(ids@.take(i + 1).drop_last() =~= ids@.take(i as int));
        assert(ids@.take(i + 1).last() == ids@[i as int]);
        match outcome {
            Ok(mut resp) => {
                let ghost before = result_views(items@);
                let ghost added = result_views(resp.items@);
                items.append(&mut resp.items);
                assert(result_views(items@) =~= before + added);
                total = total.saturating_add(resp.total);
            },
            Err(e) => {
                let ghost before = texts_view(warnings@);
                let mut m = concat3("warning: ", ids[i].as_str(), " search failed: ");
                m.append(e.to_string().as_str());
                warnings.push(m);
                assert(texts_view(warnings@) =~= before.push(m@));
            },
        }
        i = i + 1;
    }
    assert(all.take(ids@.len() as int) =~= all);
    assert(ids@.take(ids@.len() as int) =~= ids@);
    SearchResponse { items, total }
}

/// Search all registries and aggregate results.
///
/// Queries every default registry once, in order, for `query`, collects their
/// results (skipping registries that fail, with a warning pushed to
/// `warnings`), and applies post-processing (`min_score` filter, popularity
/// sort, `limit`) to the combined results. The search itself always succeeds.
pub fn search_all_with_client<C: HttpClient>(client: &mut C, query: &str, opts: &SearchOptions, skillhub_api_key: &Option<String>, warnings: &mut Vec<String>) -> (r: Result<SearchResponse, SkillfileError>)
    ensures
        r is Ok,
        exists|raw: Seq<Result<ResponseView, ErrorView>>, states: Seq<C>| {
            &&& searched_in_turn(default_registries(*skillhub_api_key), *skillhub_api_key, query@, states, raw)
            &&& states[0] == *old(client)
            &&& states.last() == *final(client)
            &&& r matches Ok(resp) && is_post_processed(
                resp@,
                ResponseView { items: merged_items(raw), total: merged_total(raw) },
                opts.limit,
                opts.min_score,
            )
            &&& texts_view(final(warnings)@) == texts_view(old(warnings)@) + warnings_of(default_registries(*skillhub_api_key), raw)
        },
{
    let ids = all_registries(skillhub_api_key);
    let mut outcomes: Vec<Result<SearchResponse, SkillfileError>> = Vec::new();
    let ghost start = *client;
    let ghost mut states: Seq<C> = seq![*client];
    let mut i: usize = 0;
    while i < ids.len()
        invariant
            i <= ids@.len(),
            ids@ == default_registries(*skillhub_api_key),
            outcomes@.len() == i,
            states.len() == i + 1,
            states[0] == start,
            states.last() == *client,
            forall|j: int| #![trigger outcomes_view(outcomes@)[j]]
                0 <= j < i ==> searched(ids@[j], *skillhub_api_key, query@, states[j], states[j + 1], outcomes_view(outcomes@)[j]),
        decreases ids@.len() - i,
    {
        let outcome = search_one(client, ids[i], skillhub_api_key, query, opts);
        let ghost before = outcomes_view(outcomes@);
        let ghost prev = states;
        outcomes.push(outcome);
        proof {
            states = states.push(*client);
        }
        assert(outcomes_view(outcomes@) =~= before.push(outcome_view(outcome)));
        assert forall|j: int| #![trigger outcomes_view(outcomes@)[j]]
            0 <= j < i + 1 implies searched(ids@[j], *skillhub_api_key, query@, states[j], states[j + 1], outcomes_view(outcomes@)[j]) by {
            if j < i {
                assert(states[j] == prev[j] && states[j + 1] == prev[j + 1]);
                assert(outcomes_view(outcomes@)[j] == before[j]);
            } else {
                assert(states[j] == prev.last());
            }
        }
        i = i + 1;
    }
    let ghost raw = outcomes_view(outcomes@);
    assert(searched_in_turn(ids@, *skillhub_api_key, query@, states, raw));
    let mut resp = merge_outcomes(&ids, outcomes, warnings);
    let ghost merged = resp@;
    post_process(&mut resp, opts);
    assert(merged == ResponseView { items: merged_items(raw), total: merged_total(raw) });
    Ok(resp)
}

/// Search a single registry by name. Returns an error if the registry name is
/// not recognized.
pub fn search_registry_with_client<C: HttpClient>(client: &mut C, registry_name: &str, query: &str, opts: &SearchOptions, skillhub_api_key: &Option<String>) -> (r: Result<SearchResponse, SkillfileError>)
    ensures
        match registry_named(registry_name@) {
            None => {
                &&& r matches Err(e) && e@ == unknown_registry_error(registry_name@)
                &&& *final(client) == *old(client)
            },
            Some(id) => exists|raw: Result<ResponseView, ErrorView>| {
                &&& searched(id, *skillhub_api_key, query@, *old(client), *final(client), raw)
                &&& processed_outcome(raw, r, opts.limit, opts.min_score)
            },
        },
{
    let id = match registry_named_exec(registry_name) {
        Some(id) => id,
        None => {
            let m = concat3(
                "unknown registry '",
                registry_name,
                "'. Valid registries: agentskill.sh, skills.sh, skillhub.club",
            );
            return Err(SkillfileError::Manifest(m));
        },
    };
    let raw = search_one(client, id, skillhub_api_key, query, opts);
    let ghost raw_view = outcome_view(raw);
    assert(searched(id, *skillhub_api_key, query@, *old(client), *client, raw_view));
    let r = match raw {
        Ok(mut resp) => {
            post_process(&mut resp, opts);
            Ok(resp)
        },
        Err(e) => Err(e),
    };
    assert(processed_outcome(raw_view, r, opts.limit, opts.min_score));
    r
}

/// Search agentskill.sh only (one GET of its search URL), post-processing the
/// results.
pub fn search_with_client<C: HttpClient>(client: &mut C, query: &str, opts: &SearchOptions) -> (r: Result<SearchResponse, SkillfileError>)
    ensures
        exists|fetched: Result<Seq<u8>, ErrorView>| {
            &&& C::gets(*old(client), *final(client), agentskill_query_url(query@), fetched)
            &&& processed_outcome(agentskill_outcome(fetched), r, opts.limit, opts.min_score)
        },
{
    let raw = AgentskillSh.search(client, query, opts);
    match raw {
        Ok(mut resp) => {
            post_process(&mut resp, opts);
            Ok(resp)
        },
        Err(e) => Err(e),
    }
}

/// Every result a mapping produces names `id` as its registry, so the results
/// of a list mapped with it do too.
proof fn lemma_filter_map_registry<A>(s: Seq<A>, f: spec_fn(A) -> Option<ResultView>, id: RegistryId)
    requires
        forall|a: A| #[trigger] f(a) matches Some(r) ==> r.registry == id,
    ensures
        forall|i: int| 0 <= i < s.filter_map(f).len() ==> (#[trigger] s.filter_map(f)[i]).registry == id,
    decreases s.len(),
{
    if s.len() > 0 {
        lemma_filter_map_registry(s.drop_last(), f, id);
        let front = s.drop_last().filter_map(f);
        assert forall|i: int| 0 <= i < s.filter_map(f).len() implies (#[trigger] s.filter_map(f)[i]).registry == id by {
            match f(s.last()) {
                Some(r) => {
                    assert(s.filter_map(f) == front + seq![r]);
                    if i < front.len() {
                        assert(s.filter_map(f)[i] == front[i]);
                    }
                },
                None => {},
            }
        }
    }
}

/// Law: a registry's results say they came from that registry.
pub proof fn lemma_results_carry_their_registry(id: RegistryId, fetched: Result<Seq<u8>, ErrorView>)
    ensures
        registry_outcome(id, fetched) matches Ok(resp) ==> forall|i: int|
            0 <= i < resp.items.len() ==> (#[trigger] resp.items[i]).registry == id,
{
    match id {
        RegistryId::AgentskillSh => {
            if let Ok(j) = crate::body::body_json("agentskill.sh"@, fetched) {
                if let Some(p) = crate::agentskill::read_agentskill_page(j) {
                    lemma_filter_map_registry(p.results, crate::agentskill::result_maker(), id);
                }
            }
        },
        RegistryId::SkillsSh => {
            if let Ok(j) = crate::body::body_json("skills.sh"@, fetched) {
                if let Some(p) = crate::skillssh::read_skillssh_page(j) {
                    let entries = match p.skills {
                        Some(s) => s,
                        None => Seq::empty(),
                    };
                    lemma_filter_map_registry(entries, crate::skillssh::skillssh_maker(), id);
                }
            }
        },
        RegistryId::SkillhubClub => {
            if let Ok(j) = crate::body::body_json("skillhub.club"@, fetched) {
                if let Some(p) = crate::skillhub::read_skillhub_page(j) {
                    let entries = match p.results {
                        Some(s) => s,
                        None => Seq::empty(),
                    };
                    lemma_filter_map_registry(entries, crate::skillhub::skillhub_maker(), id);
                }
            }
        },
    }
}

} // verus!
