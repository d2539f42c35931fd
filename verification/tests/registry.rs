use skillfile::agentskill::AgentskillSh;
use skillfile::client::Registry;
use skillfile::github_meta::fetch_agentskill_github_meta;
use skillfile::mock::MockClient;
use skillfile::ranking::{post_process, sort_by_popularity};
use skillfile::registry_id::{RegistryId, REGISTRY_NAMES};
use skillfile::search::{SearchOptions, SearchResponse, SearchResult};
use skillfile::searching::{all_registries, search_all_with_client, search_registry_with_client, search_with_client};
use skillfile::skillhub::SkillhubClub;
use skillfile::skillssh::SkillsSh;
use skillfile::urlencode::urlencoded;

// -- agentskill.sh mock data ------------------------------------------------

fn agentskill_mock_response() -> String {
    r#"{
        "results": [
            {
                "slug": "alice/code-auditor",
                "name": "code-auditor",
                "owner": "alice",
                "description": "Review code changes",
                "securityScore": 92,
                "githubStars": 150
            },
            {
                "slug": "bob/pr-review",
                "name": "pr-review",
                "owner": "bob",
                "description": "Automated PR reviews",
                "securityScore": 65,
                "githubStars": 30
            }
        ],
        "total": 2,
        "hasMore": false,
        "totalExact": true
    }"#
    .to_string()
}

// -- skills.sh mock data ----------------------------------------------------

fn skillssh_mock_response() -> String {
    r#"{
        "query": "docker",
        "searchType": "fuzzy",
        "skills": [
            {
                "id": "dockerfan/docker-helper/docker-helper",
                "skillId": "docker-helper",
                "name": "docker-helper",
                "installs": 500,
                "source": "dockerfan/docker-helper"
            },
            {
                "id": "k8suser/k8s-deploy/k8s-deploy",
                "skillId": "k8s-deploy",
                "name": "k8s-deploy",
                "installs": 200,
                "source": "k8suser/k8s-deploy"
            }
        ],
        "count": 2,
        "duration_ms": 35
    }"#
    .to_string()
}

// -- skillhub.club mock data ------------------------------------------------

fn skillhub_mock_response() -> String {
    r#"{
        "results": [
            {
                "name": "testing-pro",
                "description": "Advanced testing utilities",
                "author": "testmaster",
                "github_stars": 75,
                "simple_score": 88,
                "slug": "testing-pro"
            }
        ],
        "total": 1
    }"#
    .to_string()
}

// -- agentskill.sh tests ----------------------------------------------------

#[test]
fn agentskill_search_parses_response() {
    let mut client = MockClient::new(vec![Ok(agentskill_mock_response())]);
    let resp = search_with_client(&mut client, "code review", &SearchOptions::default()).unwrap();
    assert_eq!(resp.items.len(), 2);
    assert_eq!(resp.total, 2);
    assert_eq!(resp.items[0].name, "code-auditor");
    assert_eq!(resp.items[0].owner, "alice");
    assert_eq!(resp.items[0].security_score, Some(92));
    assert_eq!(resp.items[0].stars, Some(150));
    assert!(resp.items[0].url.contains("agentskill.sh"));
    assert_eq!(resp.items[0].registry, RegistryId::AgentskillSh);
}

#[test]
fn agentskill_search_applies_min_score_filter() {
    let mut client = MockClient::new(vec![Ok(agentskill_mock_response())]);
    let opts = SearchOptions {
        limit: 10,
        min_score: Some(80),
    };
    let resp = search_with_client(&mut client, "code review", &opts).unwrap();
    assert_eq!(resp.items.len(), 1);
    assert_eq!(resp.items[0].name, "code-auditor");
}

#[test]
fn agentskill_search_handles_missing_optional_fields() {
    let json = r#"{
        "results": [
            {
                "slug": "alice/minimal",
                "name": "minimal",
                "owner": null,
                "description": null,
                "securityScore": null,
                "githubStars": null
            }
        ],
        "total": 1
    }"#;
    let mut client = MockClient::new(vec![Ok(json.to_string())]);
    let resp = search_with_client(&mut client, "test", &SearchOptions::default()).unwrap();
    assert_eq!(resp.items.len(), 1);
    assert_eq!(resp.items[0].name, "minimal");
    assert_eq!(resp.items[0].owner, "");
    assert!(resp.items[0].description.is_none());
    assert!(resp.items[0].security_score.is_none());
}

#[test]
fn agentskill_search_skips_results_without_name() {
    let json = r#"{
        "results": [
            {"slug": "x/y", "name": null, "owner": "x"},
            {"slug": "a/b", "name": "valid", "owner": "a"}
        ],
        "total": 2
    }"#;
    let mut client = MockClient::new(vec![Ok(json.to_string())]);
    let resp = search_with_client(&mut client, "test", &SearchOptions::default()).unwrap();
    assert_eq!(resp.items.len(), 1);
    assert_eq!(resp.items[0].name, "valid");
}

#[test]
fn agentskill_search_returns_error_on_network_failure() {
    let mut client = MockClient::new(vec![Err("connection refused".to_string())]);
    let result = search_with_client(&mut client, "test", &SearchOptions::default());
    assert!(result.is_err());
    let err = result.unwrap_err().to_string();
    assert!(err.contains("search failed"), "got: {err}");
}

#[test]
fn agentskill_search_returns_error_on_malformed_json() {
    let mut client = MockClient::new(vec![Ok("not json".to_string())]);
    let result = search_with_client(&mut client, "test", &SearchOptions::default());
    assert!(result.is_err());
    let err = result.unwrap_err().to_string();
    assert!(err.contains("failed to parse"), "got: {err}");
}

#[test]
fn agentskill_search_constructs_url_from_slug() {
    let mut client = MockClient::new(vec![Ok(agentskill_mock_response())]);
    let resp = search_with_client(&mut client, "test", &SearchOptions::default()).unwrap();
    assert_eq!(
        resp.items[0].url,
        "https://agentskill.sh/@alice/code-auditor"
    );
    // Without githubOwner/githubRepo, source_repo falls back to slug.
    assert_eq!(
        resp.items[0].source_repo.as_deref(),
        Some("alice/code-auditor")
    );
    // No githubPath in mock → source_path is None.
    assert!(resp.items[0].source_path.is_none());
}

#[test]
fn agentskill_search_uses_github_coordinates_when_present() {
    let json = r#"{
        "results": [{
            "slug": "openclaw/fzf-fuzzy-finder",
            "name": "fzf-fuzzy-finder",
            "owner": "openclaw",
            "description": "Fuzzy finder skill",
            "securityScore": 80,
            "githubStars": 2218,
            "githubOwner": "openclaw",
            "githubRepo": "skills",
            "githubPath": "skills/arnarsson/fzf-fuzzy-finder/SKILL.md"
        }],
        "total": 1
    }"#
    .to_string();
    let mut client = MockClient::new(vec![Ok(json)]);
    let resp = search_with_client(&mut client, "fzf", &SearchOptions::default()).unwrap();

    assert_eq!(resp.items.len(), 1);
    assert_eq!(
        resp.items[0].source_repo.as_deref(),
        Some("openclaw/skills")
    );
    assert_eq!(
        resp.items[0].source_path.as_deref(),
        Some("skills/arnarsson/fzf-fuzzy-finder/SKILL.md")
    );
    assert_eq!(
        resp.items[0].url,
        "https://agentskill.sh/@openclaw/fzf-fuzzy-finder"
    );
}

// -- skills.sh tests --------------------------------------------------------

#[test]
fn skillssh_search_parses_response() {
    let mut client = MockClient::new(vec![Ok(skillssh_mock_response())]);
    let reg = SkillsSh;
    let resp = reg
        .search(&mut client, "docker", &SearchOptions::default())
        .unwrap();
    assert_eq!(resp.items.len(), 2);
    assert_eq!(resp.total, 2);
    assert_eq!(resp.items[0].name, "docker-helper");
    assert_eq!(resp.items[0].owner, "dockerfan");
    assert!(resp.items[0].description.is_none());
    assert_eq!(resp.items[0].stars, Some(500));
    assert_eq!(
        resp.items[0].url,
        "https://skills.sh/dockerfan/docker-helper/docker-helper"
    );
    assert_eq!(resp.items[0].registry, RegistryId::SkillsSh);
    assert_eq!(
        resp.items[0].source_repo.as_deref(),
        Some("dockerfan/docker-helper")
    );
}

#[test]
fn skillssh_search_returns_all_results() {
    let mut client = MockClient::new(vec![Ok(skillssh_mock_response())]);
    let reg = SkillsSh;
    let opts = SearchOptions {
        limit: 1,
        min_score: None,
    };
    // Per-registry search returns all results; limit is applied globally by post_process.
    let resp = reg.search(&mut client, "docker", &opts).unwrap();
    assert_eq!(resp.items.len(), 2);
}

#[test]
fn skillssh_search_handles_empty_results() {
    let json = r#"{"skills": [], "count": 0}"#;
    let mut client = MockClient::new(vec![Ok(json.to_string())]);
    let reg = SkillsSh;
    let resp = reg
        .search(&mut client, "nonexistent", &SearchOptions::default())
        .unwrap();
    assert_eq!(resp.items.len(), 0);
    assert_eq!(resp.total, 0);
}

// -- skillhub.club tests ----------------------------------------------------

#[test]
fn skillhub_search_parses_response() {
    let mut client =
        MockClient::new(vec![]).with_post_responses(vec![Ok(skillhub_mock_response())]);
    let reg = SkillhubClub { api_key: Some("test-key-123".to_string()) };
    let resp = reg
        .search(&mut client, "testing", &SearchOptions::default())
        .unwrap();
    assert_eq!(resp.items.len(), 1);
    assert_eq!(resp.items[0].name, "testing-pro");
    assert_eq!(resp.items[0].owner, "testmaster");
    assert_eq!(
        resp.items[0].description.as_deref(),
        Some("Advanced testing utilities")
    );
    assert_eq!(resp.items[0].security_score, Some(88));
    assert_eq!(resp.items[0].stars, Some(75));
    assert!(resp.items[0].url.contains("skillhub.club"));
    assert_eq!(resp.items[0].registry, RegistryId::SkillhubClub);
}

#[test]
fn skillhub_skips_without_api_key() {
    let mut client = MockClient::new(vec![]);
    let reg = SkillhubClub { api_key: None };
    let resp = reg
        .search(&mut client, "testing", &SearchOptions::default())
        .unwrap();
    assert_eq!(resp.items.len(), 0);
    assert_eq!(resp.total, 0);
}

// -- Aggregation tests ------------------------------------------------------

#[test]
fn search_all_aggregates_results() {
    // agentskill returns 2, skills.sh returns 2; skillhub.club skipped (no API key)
    let mut client = MockClient::new(vec![
        Ok(agentskill_mock_response()),
        Ok(skillssh_mock_response()),
    ]);
    let mut warnings = Vec::new();
    let resp =
        search_all_with_client(&mut client, "test", &SearchOptions::default(), &None, &mut warnings).unwrap();
    assert_eq!(resp.items.len(), 4);
    let registries: Vec<RegistryId> = resp.items.iter().map(|r| r.registry).collect();
    assert!(registries.contains(&RegistryId::AgentskillSh));
    assert!(registries.contains(&RegistryId::SkillsSh));
}

#[test]
fn search_all_skips_failed_registry() {
    // agentskill fails, skills.sh succeeds
    let mut client = MockClient::new(vec![
        Err("connection refused".to_string()),
        Ok(skillssh_mock_response()),
    ]);
    let mut warnings = Vec::new();
    let resp =
        search_all_with_client(&mut client, "test", &SearchOptions::default(), &None, &mut warnings).unwrap();
    assert_eq!(resp.items.len(), 2);
    assert_eq!(resp.items[0].registry, RegistryId::SkillsSh);
}

#[test]
fn search_all_applies_min_score_filter() {
    let mut client = MockClient::new(vec![
        Ok(agentskill_mock_response()),
        Ok(skillssh_mock_response()),
    ]);
    let opts = SearchOptions {
        limit: 10,
        min_score: Some(80),
    };
    let mut warnings = Vec::new();
    let resp = search_all_with_client(&mut client, "test", &opts, &None, &mut warnings).unwrap();
    // Only agentskill's "code-auditor" (score 92) passes the filter.
    // skills.sh items have no score, so they're filtered out.
    assert_eq!(resp.items.len(), 1);
    assert_eq!(resp.items[0].name, "code-auditor");
}

#[test]
fn search_registry_filters_by_name() {
    let mut client = MockClient::new(vec![Ok(skillssh_mock_response())]);
    let resp = search_registry_with_client(
        &mut client,
        "skills.sh",
        "docker",
        &SearchOptions::default(),
        &None,
    )
    .unwrap();
    assert_eq!(resp.items.len(), 2);
    assert!(resp
        .items
        .iter()
        .all(|r| r.registry == RegistryId::SkillsSh));
}

#[test]
fn search_registry_rejects_unknown_name() {
    let mut client = MockClient::new(vec![]);
    let result = search_registry_with_client(
        &mut client,
        "nonexistent.io",
        "test",
        &SearchOptions::default(),
        &None,
    );
    assert!(result.is_err());
    let err = result.unwrap_err().to_string();
    assert!(err.contains("unknown registry"), "got: {err}");
}

#[test]
fn search_result_includes_registry_field() {
    let mut client = MockClient::new(vec![Ok(agentskill_mock_response())]);
    let resp = search_with_client(&mut client, "test", &SearchOptions::default()).unwrap();
    for item in &resp.items {
        assert_eq!(item.registry, RegistryId::AgentskillSh);
    }
}

// -- Utility tests ----------------------------------------------------------

#[test]
fn urlencoded_encodes_spaces_and_specials() {
    assert_eq!(urlencoded("code review"), "code+review");
    assert_eq!(urlencoded("a&b"), "a%26b");
    assert_eq!(urlencoded("q=1"), "q%3D1");
    assert_eq!(urlencoded("hello"), "hello");
    // Multi-byte characters pass through (non-ASCII is not percent-encoded).
    assert_eq!(urlencoded("代码审查"), "代码审查");
}

#[test]
fn default_search_options() {
    let opts = SearchOptions::default();
    assert_eq!(opts.limit, 20);
    assert!(opts.min_score.is_none());
}

#[test]
fn all_registries_default_excludes_skillhub() {
    // Without an API key, only agentskill.sh and skills.sh are returned.
    let regs = all_registries(&None);
    assert!(regs.len() >= 2);
    assert_eq!(regs[0].as_str(), "agentskill.sh");
    assert_eq!(regs[1].as_str(), "skills.sh");
}

#[test]
fn registry_names_covers_all_known() {
    assert_eq!(
        &REGISTRY_NAMES,
        &["agentskill.sh", "skills.sh", "skillhub.club"]
    );
}

// -- Sorting tests ----------------------------------------------------------

#[test]
fn sort_by_popularity_orders_by_stars_desc() {
    let mut items = vec![
        SearchResult {
            name: "low".into(),
            stars: Some(10),
            ..make_result("low")
        },
        SearchResult {
            name: "high".into(),
            stars: Some(500),
            ..make_result("high")
        },
        SearchResult {
            name: "mid".into(),
            stars: Some(100),
            ..make_result("mid")
        },
    ];
    sort_by_popularity(&mut items);
    assert_eq!(items[0].name, "high");
    assert_eq!(items[1].name, "mid");
    assert_eq!(items[2].name, "low");
}

#[test]
fn sort_by_popularity_uses_score_as_tiebreaker() {
    let mut items = vec![
        SearchResult {
            name: "low-score".into(),
            stars: Some(100),
            security_score: Some(50),
            ..make_result("low-score")
        },
        SearchResult {
            name: "high-score".into(),
            stars: Some(100),
            security_score: Some(95),
            ..make_result("high-score")
        },
    ];
    sort_by_popularity(&mut items);
    assert_eq!(items[0].name, "high-score");
    assert_eq!(items[1].name, "low-score");
}

#[test]
fn sort_by_popularity_none_stars_sort_last() {
    let mut items = vec![
        SearchResult {
            name: "no-stars".into(),
            stars: None,
            ..make_result("no-stars")
        },
        SearchResult {
            name: "has-stars".into(),
            stars: Some(1),
            ..make_result("has-stars")
        },
    ];
    sort_by_popularity(&mut items);
    assert_eq!(items[0].name, "has-stars");
    assert_eq!(items[1].name, "no-stars");
}

#[test]
fn search_all_returns_sorted_results() {
    let mut client = MockClient::new(vec![
        Ok(agentskill_mock_response()),
        Ok(skillssh_mock_response()),
    ]);
    let mut warnings = Vec::new();
    let resp =
        search_all_with_client(&mut client, "test", &SearchOptions::default(), &None, &mut warnings).unwrap();
    // Expected order: docker-helper(500) > k8s-deploy(200) > code-auditor(150) > pr-review(30)
    assert_eq!(resp.items[0].name, "docker-helper");
    assert_eq!(resp.items[1].name, "k8s-deploy");
    assert_eq!(resp.items[2].name, "code-auditor");
    assert_eq!(resp.items[3].name, "pr-review");
}

#[test]
fn search_with_client_sorts_results() {
    let json = r#"{
        "results": [
            {"name": "aaa-low", "owner": "a", "githubStars": 10},
            {"name": "bbb-high", "owner": "b", "githubStars": 500}
        ],
        "total": 2
    }"#;
    let mut client = MockClient::new(vec![Ok(json.to_string())]);
    let resp = search_with_client(&mut client, "test", &SearchOptions::default()).unwrap();
    assert_eq!(resp.items[0].name, "bbb-high");
    assert_eq!(resp.items[1].name, "aaa-low");
}

#[test]
fn post_process_filters_and_sorts() {
    let mut resp = SearchResponse {
        total: 3,
        items: vec![
            SearchResult {
                name: "low-score-low-stars".into(),
                security_score: Some(30),
                stars: Some(10),
                ..make_result("low-score-low-stars")
            },
            SearchResult {
                name: "high-score-high-stars".into(),
                security_score: Some(90),
                stars: Some(500),
                ..make_result("high-score-high-stars")
            },
            SearchResult {
                name: "mid-score-mid-stars".into(),
                security_score: Some(60),
                stars: Some(100),
                ..make_result("mid-score-mid-stars")
            },
        ],
    };
    let opts = SearchOptions {
        min_score: Some(50),
        ..Default::default()
    };
    post_process(&mut resp, &opts);

    assert_eq!(resp.items.len(), 2);
    assert_eq!(resp.items[0].name, "high-score-high-stars");
    assert_eq!(resp.items[1].name, "mid-score-mid-stars");
}

#[test]
fn post_process_no_filter_only_sorts() {
    let mut resp = SearchResponse {
        total: 2,
        items: vec![
            SearchResult {
                name: "few".into(),
                stars: Some(5),
                ..make_result("few")
            },
            SearchResult {
                name: "many".into(),
                stars: Some(999),
                ..make_result("many")
            },
        ],
    };
    post_process(&mut resp, &SearchOptions::default());
    assert_eq!(resp.items[0].name, "many");
    assert_eq!(resp.items[1].name, "few");
}

#[test]
fn post_process_truncates_to_limit() {
    let mut resp = SearchResponse {
        total: 5,
        items: (0..5)
            .map(|i| SearchResult {
                name: format!("item-{i}"),
                stars: Some(100 - i),
                ..make_result(&format!("item-{i}"))
            })
            .collect(),
    };
    let opts = SearchOptions {
        limit: 3,
        ..Default::default()
    };
    post_process(&mut resp, &opts);
    assert_eq!(resp.items.len(), 3);
    assert_eq!(resp.items[0].name, "item-0");
    assert_eq!(resp.items[2].name, "item-2");
}

/// Helper to create a minimal `SearchResult` for sorting tests.
fn make_result(name: &str) -> SearchResult {
    SearchResult {
        name: name.to_string(),
        owner: String::new(),
        description: None,
        security_score: None,
        stars: None,
        url: String::new(),
        registry: RegistryId::AgentskillSh,
        source_repo: None,
        source_path: None,
    }
}

// -- fetch_agentskill_github_meta tests -------------------------------------

fn agentskill_detail_mock(slug: &str, owner: &str, repo: &str, path: &str) -> String {
    format!(
        r#"{{"data": [{{"slug": "{slug}", "githubOwner": "{owner}", "githubRepo": "{repo}", "githubPath": "{path}"}}]}}"#
    )
}

#[test]
fn fetch_github_meta_returns_coordinates() {
    let json = agentskill_detail_mock(
        "openclaw/fzf-fuzzy-finder",
        "openclaw",
        "skills",
        "skills/arnarsson/fzf-fuzzy-finder/SKILL.md",
    );
    let mut client = MockClient::new(vec![Ok(json)]);
    let meta =
        fetch_agentskill_github_meta(&mut client, "openclaw/fzf-fuzzy-finder", "fzf-fuzzy-finder");
    let meta = meta.expect("should return meta");
    assert_eq!(meta.source_repo, "openclaw/skills");
    assert_eq!(
        meta.source_path,
        "skills/arnarsson/fzf-fuzzy-finder/SKILL.md"
    );
}

#[test]
fn fetch_github_meta_case_insensitive_slug() {
    let json = agentskill_detail_mock(
        "OpenClaw/FZF-Fuzzy-Finder",
        "openclaw",
        "skills",
        "skills/arnarsson/fzf-fuzzy-finder/SKILL.md",
    );
    let mut client = MockClient::new(vec![Ok(json)]);
    let meta =
        fetch_agentskill_github_meta(&mut client, "openclaw/fzf-fuzzy-finder", "fzf-fuzzy-finder");
    assert!(meta.is_some());
}

#[test]
fn fetch_github_meta_no_match_returns_none() {
    let json = agentskill_detail_mock("other/skill", "other", "repo", "skill.md");
    let mut client = MockClient::new(vec![Ok(json)]);
    let meta =
        fetch_agentskill_github_meta(&mut client, "openclaw/fzf-fuzzy-finder", "fzf-fuzzy-finder");
    assert!(meta.is_none());
}

#[test]
fn fetch_github_meta_empty_data_returns_none() {
    let json = r#"{"data": []}"#.to_string();
    let mut client = MockClient::new(vec![Ok(json)]);
    let meta =
        fetch_agentskill_github_meta(&mut client, "openclaw/fzf-fuzzy-finder", "fzf-fuzzy-finder");
    assert!(meta.is_none());
}

#[test]
fn fetch_github_meta_network_error_returns_none() {
    let mut client = MockClient::new(vec![Err("connection refused".to_string())]);
    let meta =
        fetch_agentskill_github_meta(&mut client, "openclaw/fzf-fuzzy-finder", "fzf-fuzzy-finder");
    assert!(meta.is_none());
}

#[test]
fn fetch_github_meta_malformed_json_returns_none() {
    let mut client = MockClient::new(vec![Ok("not json".to_string())]);
    let meta =
        fetch_agentskill_github_meta(&mut client, "openclaw/fzf-fuzzy-finder", "fzf-fuzzy-finder");
    assert!(meta.is_none());
}

#[test]
fn fetch_github_meta_missing_github_fields_returns_none() {
    let json = r#"{"data": [{"slug": "openclaw/fzf-fuzzy-finder"}]}"#.to_string();
    let mut client = MockClient::new(vec![Ok(json)]);
    let meta =
        fetch_agentskill_github_meta(&mut client, "openclaw/fzf-fuzzy-finder", "fzf-fuzzy-finder");
    assert!(meta.is_none());
}

#[test]
fn fetch_github_meta_empty_github_fields_returns_none() {
    let json = r#"{"data": [{"slug": "openclaw/fzf-fuzzy-finder", "githubOwner": "", "githubRepo": "", "githubPath": ""}]}"#.to_string();
    let mut client = MockClient::new(vec![Ok(json)]);
    let meta =
        fetch_agentskill_github_meta(&mut client, "openclaw/fzf-fuzzy-finder", "fzf-fuzzy-finder");
    assert!(meta.is_none());
}

#[test]
fn fetch_github_meta_picks_matching_slug_from_multiple() {
    let json = r#"{"data": [
        {"slug": "other/fzf", "githubOwner": "other", "githubRepo": "repo", "githubPath": "fzf.md"},
        {"slug": "openclaw/fzf-fuzzy-finder", "githubOwner": "openclaw", "githubRepo": "skills", "githubPath": "skills/arnarsson/fzf-fuzzy-finder/SKILL.md"}
    ]}"#.to_string();
    let mut client = MockClient::new(vec![Ok(json)]);
    let meta =
        fetch_agentskill_github_meta(&mut client, "openclaw/fzf-fuzzy-finder", "fzf-fuzzy-finder");
    let meta = meta.expect("should match second entry");
    assert_eq!(meta.source_repo, "openclaw/skills");
    assert_eq!(
        meta.source_path,
        "skills/arnarsson/fzf-fuzzy-finder/SKILL.md"
    );
}

#[test]
fn agentskill_registry_name() {
    assert_eq!(AgentskillSh.name(), "agentskill.sh");
}
