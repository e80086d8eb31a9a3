use trench::app::DiscoverResult;
use trench::discovery::{
    feed_name_from_url, first_sorted_unique, is_http_url, normalize_arxiv_category, normalize_arxiv_id,
    normalize_rss_feed, normalize_source, plan_from_raw, strip_json_fence, PlanObject, PlanValue,
    RawDiscoveryPlan, TextRule,
};
use trench::feeds::{
    attr_value, discover_from_candidate, discover_from_page, discover_offline, discovery_failure, domain_name,
    extract_rss_link, feed_candidates, url_origin,
};
use trench::intent::{classify, QueryIntent};
use trench::models::{ContentType, FeedItem, SignalLevel, SourcePlatform, WorkflowState};
use trench::tools::{
    err_result, items_summary, max_results, no_paper_with_id, no_search_results, paper_result, unknown_tool,
};

#[test]
fn normalizes_arxiv_categories() {
    assert_eq!(normalize_arxiv_category(" cs.LG "), Some("cs.LG".to_string()));
    assert_eq!(normalize_arxiv_category("q-bio.NC"), Some("q-bio.NC".to_string()));
    assert_eq!(normalize_arxiv_category("csLG"), None);
    assert_eq!(normalize_arxiv_category("cs.LG!"), None);
    assert_eq!(normalize_arxiv_category("a.bcdefghijklmnopqrstuvwxyz"), None);
}

#[test]
fn normalizes_arxiv_ids() {
    assert_eq!(normalize_arxiv_id("https://arxiv.org/abs/2312.01234v2"), Some("2312.01234".to_string()));
    assert_eq!(normalize_arxiv_id(" arxiv.org/abs/2401.00001?context=cs "), Some("2401.00001".to_string()));
    assert_eq!(normalize_arxiv_id("2312.01234"), Some("2312.01234".to_string()));
    assert_eq!(normalize_arxiv_id("2312.01234vx"), Some("2312.01234vx".to_string()));
    assert_eq!(normalize_arxiv_id("no-dot"), None);
    assert_eq!(normalize_arxiv_id("hep-th/9901001"), None);
}

#[test]
fn strips_code_fences() {
    assert_eq!(strip_json_fence("  {\"a\":1}  "), "{\"a\":1}");
    assert_eq!(strip_json_fence("```json\n{\"a\":1}\n```"), "{\"a\":1}");
    assert_eq!(strip_json_fence("```\n[]\n```"), "[]");
    assert_eq!(strip_json_fence("```json {}"), "{}");
}

#[test]
fn urls_and_feed_names() {
    assert!(is_http_url("https://x.org"));
    assert!(is_http_url("http://x.org"));
    assert!(!is_http_url("ftp://x.org"));
    assert_eq!(feed_name_from_url("https://blog.example.com/feed.xml"), "blog.example.com");
    assert_eq!(feed_name_from_url("example.com"), "example.com");
}

fn obj(url: Option<&str>) -> PlanObject {
    PlanObject {
        url: url.map(|u| Some(u.to_string())),
        value: None,
        name: None,
        title: None,
        kind: None,
        reason: None,
    }
}

#[test]
fn normalizes_proposed_feeds_and_sources() {
    let f = normalize_rss_feed(&PlanValue::Text("https://a.org/rss".into())).unwrap();
    assert_eq!((f.url.as_str(), f.name.as_str(), f.reason.as_str()), ("https://a.org/rss", "a.org", ""));
    assert!(normalize_rss_feed(&PlanValue::Text("a.org/rss".into())).is_none());
    assert!(normalize_rss_feed(&PlanValue::Other).is_none());
    let mut o = obj(Some("  https://b.org/feed "));
    o.title = Some(Some(" B blog ".into()));
    o.reason = Some(Some(" why ".into()));
    let f = normalize_rss_feed(&PlanValue::Object(o)).unwrap();
    assert_eq!((f.url.as_str(), f.name.as_str(), f.reason.as_str()), ("https://b.org/feed", "B blog", "why"));
    let mut o = obj(Some("https://c.org/x"));
    o.name = Some(Some("  ".into()));
    let f = normalize_rss_feed(&PlanValue::Object(o)).unwrap();
    assert_eq!(f.name, "c.org");
    assert!(normalize_rss_feed(&PlanValue::Object(obj(None))).is_none());

    let mut o = obj(None);
    o.value = Some(Some("https://github.com/org/repo".into()));
    o.kind = Some(Some(" repo ".into()));
    let s = normalize_source(&PlanValue::Object(o)).unwrap();
    assert_eq!((s.url.as_str(), s.kind.as_str(), s.reason.as_str()), ("https://github.com/org/repo", "repo", ""));
    let mut o = obj(None);
    o.url = Some(None);
    o.value = Some(Some("https://x.org".into()));
    assert!(normalize_source(&PlanValue::Object(o)).is_none());
}

#[test]
fn keeps_first_valid_values_sorted_and_unique() {
    let raw = vec![" b ".to_string(), "".to_string(), "a".to_string(), "b".to_string(), "c".to_string()];
    assert_eq!(first_sorted_unique(&raw, TextRule::SearchTerm, 3), vec!["a".to_string(), "b".to_string()]);
}

#[test]
fn cleans_a_discovery_plan() {
    let raw = RawDiscoveryPlan {
        topic: "  ".into(),
        arxiv_categories: vec!["cs.LG".into(), "bad".into(), "cs.AI".into(), "cs.LG".into()],
        paper_ids: vec!["2312.00002v1".into(), "2312.00001".into(), "nope".into()],
        rss_urls: vec![PlanValue::Text("https://a.org/rss".into()), PlanValue::Other],
        github_sources: vec![PlanValue::Text("not a url".into())],
        huggingface_sources: vec![],
        search_terms: vec![" sae ".into(), "".into(), "circuits".into()],
        summary: "x".repeat(100),
    };
    let plan = plan_from_raw("interp", &raw);
    assert_eq!(plan.topic, "interp");
    assert_eq!(plan.arxiv_categories, vec!["cs.AI".to_string(), "cs.LG".to_string()]);
    assert_eq!(plan.paper_ids, vec!["2312.00001".to_string(), "2312.00002".to_string()]);
    assert_eq!(plan.rss_urls.len(), 1);
    assert!(plan.github_sources.is_empty());
    assert_eq!(plan.search_terms, vec!["circuits".to_string(), "sae".to_string()]);
    assert_eq!(plan.summary.chars().count(), 80);
}

#[test]
fn classifies_query_intent() {
    assert_eq!(classify("SOTA on ImageNet"), QueryIntent::SotaLookup);
    assert_eq!(classify("a survey of RL"), QueryIntent::LiteratureReview);
    assert_eq!(classify("Learn transformers"), QueryIntent::ReadingList);
    assert_eq!(classify("pytorch diffusion"), QueryIntent::CodeSearch);
    assert_eq!(classify("sparse autoencoders"), QueryIntent::FindPapers);
    assert_eq!(QueryIntent::LiteratureReview.label(), "lit review");
}

#[test]
fn url_origin_and_domain() {
    assert_eq!(url_origin("https://www.example.com/a/b"), "https://www.example.com");
    assert_eq!(url_origin("example.com/x"), "http://example.com");
    assert_eq!(domain_name("https://www.openai.com/blog"), "openai");
    assert_eq!(domain_name("http://bair.berkeley.edu/blog/"), "bair");
}

#[test]
fn reads_tag_attributes() {
    assert_eq!(attr_value("<link href=\"/feed.xml\" rel=\"alternate\">", "href"), Some("/feed.xml".to_string()));
    assert_eq!(attr_value("<link href='/a'>", "href"), Some("/a".to_string()));
    assert_eq!(attr_value("<link href=/b type=x>", "href"), Some("/b".to_string()));
    assert_eq!(attr_value("<link href=\"/c>", "href"), None);
    assert_eq!(attr_value("<link rel=x>", "href"), None);
}

#[test]
fn finds_feed_links_in_pages() {
    let page = "<html><head><link rel=\"alternate\" type=\"application/rss+xml\" href=\"/feed.xml\"></head></html>";
    assert_eq!(extract_rss_link(page, "https://ex.com/blog"), Some("https://ex.com/feed.xml".to_string()));
    let page = "<link type=\"application/rss+xml\" href=\"rss\">";
    assert_eq!(extract_rss_link(page, "https://ex.com/blog"), Some("https://ex.com/blog/rss".to_string()));
    let page = "<link type=\"application/rss+xml\"><link type=\"application/rss+xml\" href=\"https://f.org/rss\">";
    assert_eq!(extract_rss_link(page, "https://ex.com"), Some("https://f.org/rss".to_string()));
    assert_eq!(extract_rss_link("<html></html>", "https://ex.com"), None);
}

#[test]
fn discovers_sources_without_fetching() {
    assert!(matches!(
        discover_offline("https://arxiv.org/list/cs.LG/recent"),
        Some(DiscoverResult::ArxivCategory(c)) if c == "cs.LG"
    ));
    assert!(matches!(
        discover_offline("https://export.arxiv.org/rss/stat.ML"),
        Some(DiscoverResult::ArxivCategory(c)) if c == "stat.ML"
    ));
    assert!(matches!(discover_offline("https://huggingface.co/papers"), Some(DiscoverResult::HuggingFaceAlreadyEnabled)));
    match discover_offline("https://importai.substack.com/p/x") {
        Some(DiscoverResult::RssFeed { url, name }) => {
            assert_eq!(url, "https://importai.substack.com/feed");
            assert_eq!(name, "importai");
        },
        _ => panic!("expected a Substack feed"),
    }
    assert!(discover_offline("https://example.com").is_none());
    // A code that is neither dotted nor short is not a category.
    assert!(discover_offline("https://arxiv.org/abs/averyverylongword").is_none());
}

#[test]
fn discovers_from_pages_and_candidates() {
    let page = "<link type=\"application/rss+xml\" href=\"/rss\">";
    match discover_from_page("https://www.lab.org/", page) {
        Some(DiscoverResult::RssFeed { url, name }) => {
            assert_eq!(url, "https://www.lab.org/rss");
            assert_eq!(name, "lab");
        },
        _ => panic!("expected a feed"),
    }
    assert!(discover_from_page("https://x.org", "<p>none</p>").is_none());
    match discover_from_candidate("https://blog.x.org/feed".to_string()) {
        DiscoverResult::RssFeed { url, name } => {
            assert_eq!(url, "https://blog.x.org/feed");
            assert_eq!(name, "blog");
        },
        _ => panic!("expected a feed"),
    }
    assert_eq!(
        feed_candidates("https://x.org//"),
        vec![
            "https://x.org/feed".to_string(),
            "https://x.org/rss".to_string(),
            "https://x.org/atom.xml".to_string(),
            "https://x.org/feed.xml".to_string(),
            "https://x.org/rss.xml".to_string()
        ]
    );
    match discovery_failure("https://x.org/") {
        DiscoverResult::Failed(m) => assert_eq!(
            m,
            "Could not find a feed. Tried: https://x.org/feed, https://x.org/rss, https://x.org/atom.xml, https://x.org/feed.xml, https://x.org/rss.xml"
        ),
        _ => panic!("expected a failure"),
    }
}

fn paper(title: &str) -> FeedItem {
    FeedItem {
        id: "x".into(),
        title: title.into(),
        source_platform: SourcePlatform::ArXiv,
        content_type: ContentType::Paper,
        domain_tags: vec![],
        signal: SignalLevel::Primary,
        published_at: String::new(),
        authors: vec![],
        summary_short: String::new(),
        workflow_state: WorkflowState::Inbox,
        url: "u".into(),
        upvote_count: 0,
        github_repo: None,
        github_owner: None,
        github_repo_name: None,
        benchmark_results: vec![],
        full_content: None,
        source_name: String::new(),
        title_lower: String::new(),
        authors_lower: Vec::new(),
    }
}

#[test]
fn summarizes_tool_results() {
    let two = vec![paper("A"), paper("B")];
    assert_eq!(items_summary(&two, "arXiv"), "Found 2 papers from arXiv:\n- A\n- B");
    let seven: Vec<FeedItem> = (1..=7).map(|i| paper(&format!("P{i}"))).collect();
    assert_eq!(
        items_summary(&seven, "arXiv"),
        "Found 7 papers from arXiv (showing first 5 of 7):\n- P1\n- P2\n- P3\n- P4\n- P5"
    );
    assert_eq!(err_result("Missing query").text, "Missing query");
    assert_eq!(unknown_tool("x").text, "Unknown tool: x");
    assert_eq!(max_results(None), 20);
    assert_eq!(max_results(Some(7)), 7);
    assert_eq!(max_results(Some(500)), 50);
    let r = paper_result(Ok(vec![]), no_search_results("q"), "arXiv search failed");
    assert!(r.items.is_empty());
    assert_eq!(r.text, "No arXiv papers found for 'q'");
    let r = paper_result(Ok(vec![paper("A")]), no_paper_with_id("1"), "arXiv fetch failed");
    assert_eq!(r.items.len(), 1);
    assert_eq!(r.text, "Found 1 papers from arXiv:\n- A");
    let r = paper_result(Err("boom".into()), String::new(), "arXiv search failed");
    assert_eq!(r.text, "arXiv search failed: boom");
    assert_eq!(no_paper_with_id("2401.1"), "No paper found with arXiv ID '2401.1'");
}
