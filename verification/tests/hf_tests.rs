use trench::dates::day_number;
use trench::huggingface::{
    abstracts_url, apply_abstracts, apply_repo, choose_repo, enrich_step, extract_arxiv_id, extract_authors,
    extract_github_from_text, extract_h3_papers, extract_json_meta, extract_paper_arxiv_id, extract_upvotes,
    hf_cache_stale, is_arxiv_id, json_meta_readable, parse_abstracts, parse_github_owner_repo, parse_papers,
    repo_candidates, repo_from_api_body, EnrichStep, TextMap, MAX_ENRICH_REQUESTS,
};
use trench::models::{ContentType, FeedItem, SignalLevel, SourcePlatform, WorkflowState};

fn chars(s: &str) -> Vec<char> {
    s.chars().collect()
}

#[test]
fn extracts_bare_arxiv_ids() {
    assert_eq!(extract_arxiv_id("http://arxiv.org/abs/2403.00001v2"), Some("2403.00001".to_string()));
    assert_eq!(extract_arxiv_id("http://arxiv.org/abs/2403.00001"), Some("2403.00001".to_string()));
    assert_eq!(extract_arxiv_id("http://arxiv.org/abs/"), None);
    assert!(is_arxiv_id(&chars("2403.00001")));
    assert!(is_arxiv_id(&chars("2403.00001v3")));
    assert!(!is_arxiv_id(&chars("403.00001")));
    assert!(!is_arxiv_id(&chars("2403.001")));
    assert!(!is_arxiv_id(&chars("abcd.efgh")));
}

const ABSTRACTS: &str = r#"<feed><entry><id>http://arxiv.org/abs/2403.00001v1</id>
<summary>  An   abstract
 over lines. </summary></entry>
<entry><id>http://arxiv.org/abs/2403.00002v1</id><summary>Other</summary></entry></feed>"#;

fn hf_item(id: &str, upvotes: u32) -> FeedItem {
    FeedItem {
        id: id.into(),
        title: "T".into(),
        source_platform: SourcePlatform::HuggingFace,
        content_type: ContentType::Paper,
        domain_tags: vec![],
        signal: SignalLevel::Primary,
        published_at: String::new(),
        authors: vec![],
        summary_short: "old".into(),
        workflow_state: WorkflowState::Inbox,
        url: format!("https://huggingface.co/papers/{id}"),
        upvote_count: upvotes,
        github_repo: None,
        github_owner: None,
        github_repo_name: None,
        benchmark_results: vec![],
        full_content: None,
        source_name: "huggingface".into(),
        title_lower: String::new(),
        authors_lower: Vec::new(),
    }
}

#[test]
fn parses_and_applies_abstracts() {
    let map = parse_abstracts(ABSTRACTS);
    assert_eq!(map.get("2403.00001").map(|s| s.as_str()), Some("An abstract over lines."));
    assert_eq!(map.get("2403.00002").map(|s| s.as_str()), Some("Other"));
    assert_eq!(map.get("2403.00003"), None);
    let mut items = vec![hf_item("2403.00002", 0), hf_item("2403.00009", 0)];
    apply_abstracts(&mut items, &map);
    assert_eq!(items[0].summary_short, "Other");
    assert_eq!(items[1].summary_short, "old");
    assert_eq!(
        abstracts_url(&items),
        Some("http://export.arxiv.org/api/query?id_list=2403.00002,2403.00009&max_results=50".to_string())
    );
    assert_eq!(abstracts_url(&vec![]), None);
}

#[test]
fn text_map_keeps_last_value_per_key() {
    let mut m = TextMap::new();
    m.insert("a".into(), "1".into());
    m.insert("b".into(), "2".into());
    m.insert("a".into(), "3".into());
    assert_eq!(m.get("a").map(|s| s.as_str()), Some("3"));
    assert_eq!(m.get("b").map(|s| s.as_str()), Some("2"));
}

const PAGE: &str = "<div><h3><a href=\"/papers/2403.00001\" class=\"x\">Sparse <b>Autoencoder</b> Scaling</a></h3><h3><a href=\"/papers/not-an-id\">Ignored</a></h3><h3><a href=\"/papers/2403.00002\">  Agents  </a></h3><h3><a href=\"/papers/2403.00001\">Duplicate</a></h3>&quot;id&quot;:&quot;2403.00001&quot;,&quot;authors&quot;:[{&quot;name&quot;:&quot;Jo Kim&quot;},{&quot;name&quot;:&quot;abc123&quot;},{&quot;name&quot;:&quot;Sam Roy&quot;}],&quot;upvotes&quot;:42,&quot;id&quot;:&quot;2403.00002&quot;,&quot;upvotes&quot;:x</div>";

#[test]
fn reads_the_daily_papers_page() {
    assert_eq!(
        extract_h3_papers(PAGE),
        vec![
            ("2403.00001".to_string(), "Sparse Autoencoder Scaling".to_string()),
            ("2403.00002".to_string(), "Agents".to_string()),
            ("2403.00001".to_string(), "Duplicate".to_string()),
        ]
    );
    assert!(json_meta_readable(PAGE));
    let meta = extract_json_meta(PAGE);
    let first = meta.iter().find(|m| m.0 == "2403.00001").unwrap();
    assert_eq!(first.1, Some(42));
    assert_eq!(first.2, vec!["Jo Kim".to_string(), "Sam Roy".to_string()]);
    let second = meta.iter().find(|m| m.0 == "2403.00002").unwrap();
    assert_eq!(second.1, None);
    let items = parse_papers(PAGE, "2024-05-01");
    assert_eq!(items.len(), 2);
    assert_eq!(items[0].title, "Sparse Autoencoder Scaling");
    assert_eq!(items[0].upvote_count, 42);
    assert_eq!(items[0].url, "https://huggingface.co/papers/2403.00001");
    assert_eq!(items[0].published_at, "2024-05-01");
    assert_eq!(items[0].authors, vec!["Jo Kim".to_string(), "Sam Roy".to_string()]);
    assert_eq!(items[0].signal, SignalLevel::Primary);
    assert_eq!(items[0].domain_tags, vec!["sparse autoencoders".to_string(), "scaling".to_string()]);
    assert_eq!(items[1].upvote_count, 0);
    assert_eq!(items[1].signal, SignalLevel::Tertiary);
    assert_eq!(items[1].domain_tags, vec!["agents".to_string()]);
}

#[test]
fn reads_upvotes_and_authors_from_blocks() {
    assert_eq!(extract_upvotes(b"x&quot;upvotes&quot;:17,"), Some(17));
    assert_eq!(extract_upvotes(b"&quot;upvotes&quot;:"), None);
    assert_eq!(extract_upvotes(b"&quot;upvotes&quot;:99999999999"), None);
    assert_eq!(extract_upvotes(b"nothing"), None);
    assert_eq!(
        extract_authors(b"&quot;name&quot;:&quot;Lee&quot; &quot;name&quot;:&quot;&quot; &quot;name&quot;:&quot;Zed"),
        vec!["Lee".to_string()]
    );
}

#[test]
fn github_links() {
    assert_eq!(
        extract_github_from_text("Code at https://github.com/org/repo. Enjoy"),
        Some("https://github.com/org/repo".to_string())
    );
    assert_eq!(extract_github_from_text("no link"), None);
    assert_eq!(
        parse_github_owner_repo("https://github.com/org/repo/"),
        (Some("org".to_string()), Some("repo".to_string()))
    );
    assert_eq!(parse_github_owner_repo("https://github.com/org"), (Some("org".to_string()), None));
    assert_eq!(parse_github_owner_repo("https://gitlab.com/a/b"), (None, None));
    assert_eq!(
        parse_github_owner_repo("http://github.com/a/b/tree/main"),
        (Some("a".to_string()), Some("b/tree/main".to_string()))
    );
    let mut items = vec![hf_item("2403.00001", 3)];
    apply_repo(&mut items, 0, "https://github.com/o/n");
    assert_eq!(items[0].github_repo.as_deref(), Some("https://github.com/o/n"));
    assert_eq!(items[0].github_owner.as_deref(), Some("o"));
    assert_eq!(items[0].github_repo_name.as_deref(), Some("n"));
    assert_eq!(repo_from_api_body("{\"githubRepo\":\"https://github.com/a/b\"}"), Some("https://github.com/a/b".to_string()));
    assert_eq!(repo_from_api_body("{\"githubRepo\":\"\"}"), None);
    assert_eq!(repo_from_api_body("{\"githubRepo\":\"https://gitlab.com/a/b\"}"), None);
    assert_eq!(repo_from_api_body("not json"), None);
}

#[test]
fn repo_enrichment_decisions() {
    assert_eq!(enrich_step(Some((Some("r".to_string()), false)), 99), EnrichStep::UseCached(Some("r".to_string())));
    assert_eq!(enrich_step(Some((None, true)), 0), EnrichStep::Fetch);
    assert_eq!(enrich_step(None, MAX_ENRICH_REQUESTS), EnrichStep::Stop);
    assert_eq!(choose_repo(Some("a".into()), "https://github.com/x/y"), Some("a".to_string()));
    assert_eq!(choose_repo(None, "see https://github.com/x/y."), Some("https://github.com/x/y".to_string()));
    let today = day_number("2024-03-11").unwrap();
    assert!(hf_cache_stale("not a date", today));
    assert!(hf_cache_stale("2024-03-01", today));
    assert!(!hf_cache_stale("2024-03-04", today));
    assert_eq!(day_number("2024-03-01").map(|d| today - d), Some(10));
    assert_eq!(day_number("2024-02-30"), None);
    let mut with_repo = hf_item("2403.00003", 50);
    with_repo.github_repo = Some("r".into());
    let items = vec![hf_item("2403.00001", 5), hf_item("x", 9), hf_item("2403.00002", 7), with_repo, hf_item("2403.00004", 5)];
    let c = repo_candidates(&items);
    let order: Vec<usize> = c.iter().map(|t| t.0).collect();
    assert_eq!(order, vec![2, 0, 4]);
    assert_eq!(c[0].1, "2403.00002");
    assert_eq!(extract_paper_arxiv_id(&items[0]), Some("2403.00001".to_string()));
    assert_eq!(extract_paper_arxiv_id(&items[1]), None);
}
