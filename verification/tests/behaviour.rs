use std::str::FromStr;

use skillfile::agentskill::{agentskill_response_from, agentskill_url};
use skillfile::client::Registry;
use skillfile::error::SkillfileError;
use skillfile::github_meta::{detail_url, github_meta_from, to_ascii_lowercase};
use skillfile::mcpmarket::McpMarket;
use skillfile::mock::MockClient;
use skillfile::paths::{is_md_file, relative_to, DirScanner, EntityType, ListedEntry, ScanSpec, UntrackedKind};
use skillfile::ranking::{post_process, sort_by_popularity};
use skillfile::registry_id::RegistryId;
use skillfile::screen::{buffer_text, row_text, TERM_HEIGHT, TERM_WIDTH};
use skillfile::search::{SearchOptions, SearchResponse, SearchResult};
use skillfile::searching::{all_registries, search_all_with_client, search_registry_with_client};
use skillfile::skillhub::{skillhub_body, SkillhubClub};
use skillfile::skillssh::{first_segment_exec, skillssh_url, SkillsSh};
use skillfile::urlencode::urlencoded;
use skillfile::client::HttpClient;

fn result(name: &str, stars: Option<u32>, score: Option<u8>) -> SearchResult {
    SearchResult {
        name: name.to_string(),
        owner: String::new(),
        description: None,
        security_score: score,
        stars,
        url: String::new(),
        registry: RegistryId::AgentskillSh,
        source_repo: None,
        source_path: None,
    }
}

fn names(items: &[SearchResult]) -> Vec<String> {
    items.iter().map(|r| r.name.clone()).collect()
}

// -- errors --------------------------------------------------------------------

#[test]
fn body_that_is_not_utf8_is_reported() {
    let err = agentskill_response_from(Ok(vec![0x7b, 0xff, 0x7d])).unwrap_err();
    let text = err.to_string();
    assert!(text.starts_with("invalid UTF-8 in agentskill.sh response: "), "got: {text}");
}

#[test]
fn network_error_message_keeps_the_cause() {
    let err = agentskill_response_from(Err(SkillfileError::Network("connection refused".to_string()))).unwrap_err();
    assert_eq!(err.to_string(), "agentskill.sh search failed: connection refused");
    assert!(matches!(err, SkillfileError::Network(_)));
}

#[test]
fn json_of_wrong_shape_is_reported() {
    let err = agentskill_response_from(Ok(br#"{"results": 5}"#.to_vec())).unwrap_err();
    assert_eq!(
        err.to_string(),
        "failed to parse agentskill.sh results: unexpected JSON structure"
    );
}

#[test]
fn missing_results_field_is_an_error() {
    assert!(agentskill_response_from(Ok(br#"{"total": 3}"#.to_vec())).is_err());
}

#[test]
fn score_out_of_range_is_an_error() {
    let body = br#"{"results": [{"name": "x", "securityScore": 300}]}"#.to_vec();
    assert!(agentskill_response_from(Ok(body)).is_err());
    let body = br#"{"results": [{"name": "x", "securityScore": 9.5}]}"#.to_vec();
    assert!(agentskill_response_from(Ok(body)).is_err());
    let body = br#"{"results": [{"name": "x", "githubStars": -1}]}"#.to_vec();
    assert!(agentskill_response_from(Ok(body)).is_err());
}

#[test]
fn a_bad_entry_fails_the_whole_answer_even_without_name() {
    let body = br#"{"results": [{"name": null, "securityScore": "high"}, {"name": "ok"}]}"#.to_vec();
    assert!(agentskill_response_from(Ok(body)).is_err());
}

#[test]
fn total_defaults_to_number_of_results() {
    let body = br#"{"results": [{"name": "a"}, {"name": null}, {"name": "b"}]}"#.to_vec();
    let resp = agentskill_response_from(Ok(body)).unwrap();
    assert_eq!(resp.total, 2);
    assert_eq!(names(&resp.items), vec!["a", "b"]);
}

#[test]
fn slug_defaults_to_owner_and_name() {
    let body = br#"{"results": [{"name": "tool", "owner": "carol", "githubOwner": "", "githubRepo": "x"}], "total": 9}"#.to_vec();
    let resp = agentskill_response_from(Ok(body)).unwrap();
    assert_eq!(resp.total, 9);
    assert_eq!(resp.items[0].url, "https://agentskill.sh/@carol/tool");
    assert_eq!(resp.items[0].source_repo.as_deref(), Some("carol/tool"));
}

#[test]
fn records_may_be_written_as_arrays() {
    let body = br#"{"results": [["s/n", "n", "o", null, 5, 7, null, null, null]], "total": null}"#.to_vec();
    let resp = agentskill_response_from(Ok(body)).unwrap();
    assert_eq!(resp.items[0].name, "n");
    assert_eq!(resp.items[0].security_score, Some(5));
    assert_eq!(resp.items[0].stars, Some(7));
    let short = br#"{"results": [["s/n", "n"]]}"#.to_vec();
    assert!(agentskill_response_from(Ok(short)).is_err());
}

#[test]
fn unknown_registry_message() {
    let mut client = MockClient::new(vec![]);
    let err = search_registry_with_client(&mut client, "npm", "q", &SearchOptions::default(), &None).unwrap_err();
    assert_eq!(
        err.to_string(),
        "unknown registry 'npm'. Valid registries: agentskill.sh, skills.sh, skillhub.club"
    );
    assert!(matches!(err, SkillfileError::Manifest(_)));
}

#[test]
fn exhausted_mock_reports_an_error() {
    let mut client = MockClient::new(vec![]);
    let err = client.get_bytes("http://x").unwrap_err();
    assert_eq!(err.to_string(), "MockClient: no more responses");
    let err = client.post_json("http://x", "{}").unwrap_err();
    assert_eq!(err.to_string(), "MockClient: no more post responses");
}

#[test]
fn mock_hands_out_replies_in_order() {
    let mut client = MockClient::new(vec![Ok("one".to_string()), Err("down".to_string())])
        .with_post_responses(vec![Ok("posted".to_string())]);
    assert_eq!(client.get_bytes("u").unwrap(), b"one".to_vec());
    assert_eq!(client.post_json_with_bearer("u", "{}", "k").unwrap(), b"posted".to_vec());
    assert_eq!(client.get_bytes("u").unwrap_err().to_string(), "down");
}

// -- registries ----------------------------------------------------------------

#[test]
fn registry_ids_round_trip_through_their_names() {
    for id in [RegistryId::AgentskillSh, RegistryId::SkillsSh, RegistryId::SkillhubClub] {
        assert_eq!(RegistryId::from_str(id.as_str()), Ok(id));
    }
    assert_eq!(RegistryId::from_str("npm"), Err("unknown registry: npm".to_string()));
    assert!(RegistryId::SkillsSh.has_security_audits());
    assert!(!RegistryId::AgentskillSh.has_security_audits());
    assert!(!RegistryId::SkillhubClub.has_security_audits());
}

#[test]
fn default_registries_include_skillhub_only_with_key() {
    assert_eq!(all_registries(&Some(String::new())), vec![RegistryId::AgentskillSh, RegistryId::SkillsSh]);
    assert_eq!(
        all_registries(&Some("k".to_string())),
        vec![RegistryId::AgentskillSh, RegistryId::SkillsSh, RegistryId::SkillhubClub]
    );
}

#[test]
fn search_urls_encode_the_query() {
    assert_eq!(
        agentskill_url("a b&c"),
        "https://agentskill.sh/api/agent/search?q=a+b%26c&limit=100"
    );
    assert_eq!(skillssh_url("x#y"), "https://skills.sh/api/search?q=x%23y");
    assert_eq!(detail_url("fzf finder"), "https://agentskill.sh/api/skills?q=fzf+finder&limit=5");
}

#[test]
fn skillhub_body_quotes_the_query() {
    assert_eq!(skillhub_body("testing"), r#"{"limit":100,"query":"testing"}"#);
    assert_eq!(skillhub_body("a\"b\\c"), r#"{"limit":100,"query":"a\"b\\c"}"#);
}

#[test]
fn skillhub_with_empty_key_finds_nothing() {
    let mut client = MockClient::new(vec![]);
    let reg = SkillhubClub { api_key: Some(String::new()) };
    let resp = reg.search(&mut client, "q", &SearchOptions::default()).unwrap();
    assert!(resp.items.is_empty());
    assert_eq!(resp.total, 0);
    assert_eq!(reg.name(), "skillhub.club");
}

#[test]
fn skillhub_body_escapes_control_characters() {
    assert_eq!(skillhub_body("a\nb\u{1}\té"), "{\"limit\":100,\"query\":\"a\\nb\\u0001\\té\"}");
}

#[test]
fn skillhub_without_key_makes_no_request() {
    let mut client = MockClient::new(vec![]).with_post_responses(vec![Ok("queued".to_string())]);
    let reg = SkillhubClub { api_key: Some(String::new()) };
    let resp = reg.search(&mut client, "q", &SearchOptions::default()).unwrap();
    assert!(resp.items.is_empty());
    assert_eq!(client.post_json("http://x", "{}").unwrap(), b"queued".to_vec());
}

#[test]
fn unknown_registry_makes_no_request() {
    let mut client = MockClient::new(vec![Ok("queued".to_string())]);
    assert!(search_registry_with_client(&mut client, "npm", "q", &SearchOptions::default(), &None).is_err());
    assert_eq!(client.get_bytes("http://x").unwrap(), b"queued".to_vec());
}

#[test]
fn skillhub_uses_slug_then_name_for_url() {
    let body = r#"{"results": [{"name": "n1", "slug": "s1"}, {"name": "n2"}]}"#.to_string();
    let mut client = MockClient::new(vec![]).with_post_responses(vec![Ok(body)]);
    let reg = SkillhubClub { api_key: Some("key".to_string()) };
    let resp = reg.search(&mut client, "q", &SearchOptions::default()).unwrap();
    assert_eq!(resp.items[0].url, "https://www.skillhub.club/skills/s1");
    assert_eq!(resp.items[1].url, "https://www.skillhub.club/skills/n2");
    assert_eq!(resp.items[1].owner, "");
    assert_eq!(resp.total, 2);
}

#[test]
fn skillssh_without_skills_or_id() {
    let mut client = MockClient::new(vec![
        Ok(r#"{"skills": null}"#.to_string()),
        Ok(r#"{"skills": [{"name": "lone", "source": "solo"}]}"#.to_string()),
    ]);
    let resp = SkillsSh.search(&mut client, "q", &SearchOptions::default()).unwrap();
    assert!(resp.items.is_empty());
    assert_eq!(resp.total, 0);
    let resp = SkillsSh.search(&mut client, "q", &SearchOptions::default()).unwrap();
    assert_eq!(resp.items[0].owner, "solo");
    assert_eq!(resp.items[0].url, "https://skills.sh/skills/lone");
    assert_eq!(SkillsSh.name(), "skills.sh");
}

#[test]
fn first_segment_stops_at_slash() {
    assert_eq!(first_segment_exec("owner/repo/x"), "owner");
    assert_eq!(first_segment_exec("plain"), "plain");
    assert_eq!(first_segment_exec("/lead"), "");
}

#[test]
fn mcpmarket_finds_nothing() {
    let mut client = MockClient::new(vec![]);
    let resp = McpMarket.search(&mut client, "q", &SearchOptions::default()).unwrap();
    assert!(resp.items.is_empty());
    assert_eq!(resp.total, 0);
    assert_eq!(McpMarket.name(), "mcpmarket.com");
    assert!(McpMarket.fetch_skill_content(&mut client, &result("x", None, None)).is_none());
}

#[test]
fn search_all_reports_failed_registries() {
    let mut client = MockClient::new(vec![
        Err("connection refused".to_string()),
        Ok("not json".to_string()),
    ]);
    let mut warnings = Vec::new();
    let resp = search_all_with_client(&mut client, "q", &SearchOptions::default(), &None, &mut warnings).unwrap();
    assert!(resp.items.is_empty());
    assert_eq!(resp.total, 0);
    assert_eq!(warnings.len(), 2);
    assert_eq!(warnings[0], "warning: agentskill.sh search failed: agentskill.sh search failed: connection refused");
    assert!(warnings[1].starts_with("warning: skills.sh search failed: failed to parse skills.sh results: "));
}

#[test]
fn search_all_adds_totals() {
    let mut client = MockClient::new(vec![
        Ok(r#"{"results": [], "total": 40}"#.to_string()),
        Ok(r#"{"skills": [], "count": 2}"#.to_string()),
    ])
    .with_post_responses(vec![Ok(r#"{"results": [], "total": 5}"#.to_string())]);
    let mut warnings = Vec::new();
    let resp = search_all_with_client(
        &mut client,
        "q",
        &SearchOptions::default(),
        &Some("key".to_string()),
        &mut warnings,
    )
    .unwrap();
    assert_eq!(resp.total, 47);
    assert!(warnings.is_empty());
}

#[test]
fn github_meta_first_match_decides() {
    let body = br#"{"data": [
        {"slug": "A/B", "githubOwner": "", "githubRepo": "r", "githubPath": "p"},
        {"slug": "a/b", "githubOwner": "o", "githubRepo": "r", "githubPath": "p"}
    ]}"#
    .to_vec();
    assert!(github_meta_from(Ok(body), "a/b").is_none());
    let body = br#"{"data": null}"#.to_vec();
    assert!(github_meta_from(Ok(body), "a/b").is_none());
    let body = br#"{"data": [{"slug": "a/b", "githubOwner": "o", "githubRepo": "r", "githubPath": "p"}]}"#.to_vec();
    let meta = github_meta_from(Ok(body), "A/B").unwrap();
    assert_eq!(meta.source_repo, "o/r");
    assert_eq!(meta.source_path, "p");
}

#[test]
fn ascii_lowercase_leaves_other_letters() {
    assert_eq!(to_ascii_lowercase("AbC-ÄÖ"), "abc-ÄÖ");
}

// -- ranking -------------------------------------------------------------------

#[test]
fn sort_keeps_order_of_equal_ranks() {
    let mut items = vec![
        result("first", Some(5), Some(1)),
        result("top", Some(9), None),
        result("second", Some(5), Some(1)),
        result("none", None, Some(99)),
        result("third", Some(5), Some(1)),
    ];
    sort_by_popularity(&mut items);
    assert_eq!(names(&items), vec!["top", "first", "second", "third", "none"]);
}

#[test]
fn post_process_twice_changes_nothing() {
    let make = || SearchResponse {
        total: 7,
        items: vec![
            result("a", Some(1), Some(70)),
            result("b", Some(3), None),
            result("c", Some(3), Some(80)),
            result("d", None, Some(90)),
        ],
    };
    let opts = SearchOptions { limit: 2, min_score: Some(60) };
    let mut once = make();
    post_process(&mut once, &opts);
    assert_eq!(names(&once.items), vec!["c", "a"]);
    assert_eq!(once.total, 7);
    let before = names(&once.items);
    post_process(&mut once, &opts);
    assert_eq!(names(&once.items), before);
}

#[test]
fn min_score_zero_keeps_unscored() {
    let mut resp = SearchResponse { total: 1, items: vec![result("u", None, None)] };
    post_process(&mut resp, &SearchOptions { limit: 5, min_score: Some(0) });
    assert_eq!(resp.items.len(), 1);
}

#[test]
fn urlencoded_escapes_every_reserved_character() {
    assert_eq!(urlencoded("#?+%"), "%23%3F%2B%25");
    assert_eq!(urlencoded(""), "");
    assert_eq!(urlencoded("a b"), "a+b");
}

// -- paths ---------------------------------------------------------------------

#[test]
fn untracked_kind_suffix() {
    assert_eq!(UntrackedKind::File.suffix(), "");
    assert_eq!(UntrackedKind::Directory.suffix(), "/");
}

#[test]
fn md_files_are_recognised_in_any_case() {
    assert!(is_md_file("a/b/notes.md"));
    assert!(is_md_file("README.MD"));
    assert!(!is_md_file("notes.txt"));
    assert!(!is_md_file(".md"));
    assert!(!is_md_file("dir/"));
}

#[test]
fn md_files_are_recognised_as_std_paths_see_them() {
    for p in ["a/b.md/", "x..md", "./a.md", "a/..", "/", "", ".md", "a/.md", "a.b.MD", "dir/x.md/.", "a//b.md", "md"] {
        let expected = std::path::Path::new(p)
            .extension()
            .is_some_and(|e| e.eq_ignore_ascii_case("md"));
        assert_eq!(is_md_file(p), expected, "{p}");
    }
}

#[test]
fn relative_to_strips_the_base() {
    assert_eq!(relative_to("/tmp/repo", "/tmp/repo/.editor/agents/a.md"), ".editor/agents/a.md");
    assert_eq!(relative_to("/elsewhere", "/tmp/repo/a.md"), "/tmp/repo/a.md");
}

fn entry(path: &str, is_dir: bool) -> ListedEntry {
    ListedEntry { path: path.to_string(), is_dir }
}

#[test]
fn scanner_reports_untracked_once() {
    let covered = vec!["/r/.editor/agents/helper.md".to_string()];
    let mut scanner = DirScanner::new(covered, "/r");
    let listing = vec![
        entry("/r/.editor/agents/helper.md", false),
        entry("/r/.editor/agents/rogue.md", false),
        entry("/r/.editor/agents/notes.txt", false),
        entry("/r/.editor/agents/sub", true),
    ];
    let spec = ScanSpec { entity_type: EntityType::Agent, nested: false };
    scanner.scan_listing(&listing, spec);
    scanner.scan_listing(&listing, spec);
    let found = scanner.into_sorted();
    assert_eq!(found.len(), 1);
    assert_eq!(found[0].path, ".editor/agents/rogue.md");
    assert_eq!(found[0].kind, UntrackedKind::File);
    assert_eq!(found[0].entity_type, EntityType::Agent);
}

#[test]
fn scanner_reports_directories_in_nested_layout() {
    let mut scanner = DirScanner::new(vec!["/r/.editor/skills//python-pro".to_string()], "/r");
    let listing = vec![
        entry("/r/.editor/skills/python-pro", true),
        entry("/r/.editor/skills/docker", true),
    ];
    scanner.scan_listing(&listing, ScanSpec { entity_type: EntityType::Skill, nested: true });
    let found = scanner.into_sorted();
    assert_eq!(found.len(), 1);
    assert_eq!(found[0].path, ".editor/skills/docker");
    assert_eq!(found[0].kind, UntrackedKind::Directory);
}

#[test]
fn scanner_sorts_by_path() {
    let mut scanner = DirScanner::new(Vec::new(), "/r");
    let listing = vec![
        entry("/r/.editor/agents/zeta.md", false),
        entry("/r/.editor/agents/alpha.md", false),
        entry("/r/.editor/agents/mid.MD", false),
    ];
    scanner.scan_listing(&listing, ScanSpec { entity_type: EntityType::Agent, nested: false });
    let found = scanner.into_sorted();
    let paths: Vec<&str> = found.iter().map(|f| f.path.as_str()).collect();
    assert_eq!(paths, vec![".editor/agents/alpha.md", ".editor/agents/mid.MD", ".editor/agents/zeta.md"]);
}

// -- screen --------------------------------------------------------------------

#[test]
fn screen_rows_are_trimmed_and_joined() {
    let row = |s: &str| s.chars().map(|c| c.to_string()).collect::<Vec<String>>();
    assert_eq!(row_text(&row("ab  ")), "ab");
    assert_eq!(row_text(&row(" \u{3000}")), "");
    let rows = vec![row("hi "), row("   "), row("x")];
    assert_eq!(buffer_text(&rows), "hi\n\nx");
    assert_eq!(buffer_text(&Vec::new()), "");
    assert_eq!((TERM_WIDTH, TERM_HEIGHT), (80, 24));
}
