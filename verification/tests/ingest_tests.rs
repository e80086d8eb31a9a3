use trench::dates::day_number;
use trench::arxiv::{encode_arxiv_query, fetch_by_ids_url, fetch_url, parse_atom, percent_encode_query_part, search_query_url};
use trench::core_api::{search_url, work_to_item, CoreAuthor, CoreLink, CoreWork};
use trench::crossref::{first_item, item_to_feed, lookup_url, CrAuthor, CrWork};
use trench::models::{ContentType, FeedItem, SignalLevel, SourcePlatform, WorkflowState};
use trench::rss::{normalise_date, parse_feed};
use trench::semantic_scholar::{
    apply_entry, arxiv_id_from_url as s2_arxiv_id, entry_from_paper, enrich_step as s2_step, is_stale, paper_api_url,
    EnrichmentEntry, S2Paper, S2Step,
};
use trench::xml::{local_name, raw_name, read_all_events, XmlEvent};

const RSS: &str = r#"<?xml version="1.0"?>
<rss xmlns:dc="http://purl.org/dc/elements/1.1/" xmlns:content="http://purl.org/rss/1.0/modules/content/">
<channel><title>Lab blog</title>
<item>
  <title>  Sparse   Autoencoder results </title>
  <link>https://ex.com/a</link>
  <pubDate>Mon, 04 Mar 2024 10:00:00 GMT</pubDate>
  <description>&lt;p&gt;We study RLHF.&lt;/p&gt;</description>
  <dc:creator>Jane Doe</dc:creator>
</item>
<item><title>No link here</title></item>
<item><title><![CDATA[Second post]]></title><link>https://ex.com/b</link><pubDate>2024-02-01T08:00:00Z</pubDate></item>
</channel></rss>"#;

#[test]
fn parses_rss_items() {
    let items = parse_feed(RSS, SourcePlatform::Rss, ContentType::Article, "lab").unwrap();
    assert_eq!(items.len(), 2);
    let a = &items[0];
    assert_eq!(a.title, "Sparse Autoencoder results");
    assert_eq!(a.url, "https://ex.com/a");
    assert_eq!(a.id, "https://ex.com/a");
    assert_eq!(a.published_at, "2024-03-04");
    assert_eq!(a.summary_short, "We study RLHF. ");
    assert_eq!(a.authors, vec!["Jane Doe".to_string()]);
    assert_eq!(a.source_name, "lab");
    assert_eq!(a.signal, SignalLevel::Tertiary);
    assert_eq!(a.domain_tags, vec!["sparse autoencoders".to_string(), "RLHF".to_string()]);
    assert_eq!(a.title_lower, "");
    assert_eq!(a.full_content, None);
    let b = &items[1];
    assert_eq!(b.title, "Second post");
    assert_eq!(b.published_at, "2024-02-01");
    assert!(b.authors.is_empty());
    assert_eq!(b.domain_tags, vec!["ml".to_string()]);
}

#[test]
fn parses_atom_feeds_with_link_elements() {
    let xml = r#"<feed xmlns="http://www.w3.org/2005/Atom"><entry><title>Post</title>
<link rel="alternate" href="https://ex.com/p"/><published>2024-05-06T00:00:00Z</published>
<author><name>Ann</name></author><summary>Short</summary></entry></feed>"#;
    let items = parse_feed(xml, SourcePlatform::Blog, ContentType::Article, "ex").unwrap();
    assert_eq!(items.len(), 1);
    assert_eq!(items[0].url, "https://ex.com/p");
    assert_eq!(items[0].authors, vec!["Ann".to_string()]);
    assert_eq!(items[0].published_at, "2024-05-06");
    assert_eq!(items[0].summary_short, "Short");
}

#[test]
fn malformed_feed_is_an_error() {
    assert!(parse_feed("<rss><item><title>x</item></rss>", SourcePlatform::Rss, ContentType::Article, "x").is_err());
}

#[test]
fn normalises_dates() {
    assert_eq!(normalise_date("2024-01-05T10:00:00Z"), "2024-01-05");
    assert_eq!(normalise_date("Tue, 5 Mar 2024 10:00:00 GMT"), "2024-03-05");
    assert_eq!(normalise_date("  5 Dec 2023"), "2023-12-05");
    assert_eq!(normalise_date("5 Foo 2023"), "");
    assert_eq!(normalise_date("zero Mar 2023"), "");
    assert_eq!(normalise_date("5 Mar"), "");
    assert_eq!(normalise_date(""), "");
}

const ATOM: &str = r#"<?xml version="1.0" encoding="UTF-8"?>
<feed xmlns="http://www.w3.org/2005/Atom">
<entry>
<id>http://arxiv.org/abs/2403.01234v1</id>
<published>2024-03-02T17:59:59Z</published>
<title>Scaling   Sparse Autoencoders</title>
<summary>  We train sparse autoencoders
 on activations.  </summary>
<author><name>Ada Lovelace</name></author>
<author><name> Alan Turing </name></author>
<category term="cs.LG" scheme="http://arxiv.org/schemas/atom"/>
<category term="cs.ZZ" scheme="http://arxiv.org/schemas/atom"/>
</entry>
</feed>"#;

#[test]
fn parses_arxiv_atom() {
    let items = parse_atom(ATOM).unwrap();
    assert_eq!(items.len(), 1);
    let p = &items[0];
    assert_eq!(p.title, "Scaling Sparse Autoencoders");
    assert_eq!(p.url, "http://arxiv.org/abs/2403.01234v1");
    assert_eq!(p.published_at, "2024-03-02");
    assert_eq!(p.summary_short, "We train sparse autoencoders on activations.");
    assert_eq!(p.authors, vec!["Ada Lovelace".to_string(), "Alan Turing".to_string()]);
    assert_eq!(
        p.domain_tags,
        vec!["machine learning".to_string(), "sparse autoencoders".to_string(), "scaling".to_string()]
    );
    assert_eq!(p.source_name, "arxiv");
    assert_eq!(p.source_platform, SourcePlatform::ArXiv);
    assert_eq!(p.signal, SignalLevel::Primary);
    assert!(parse_atom("<feed><entry></feed>").unwrap_err().starts_with("XML parse error: "));
    assert_eq!(parse_atom("<feed></feed>").unwrap().len(), 0);
}

#[test]
fn builds_arxiv_urls() {
    assert_eq!(
        fetch_url(&vec![]),
        "http://export.arxiv.org/api/query?search_query=cat:cs.LG+OR+cat:cs.AI+OR+cat:stat.ML&sortBy=submittedDate&sortOrder=descending&max_results=50"
    );
    assert_eq!(
        fetch_url(&vec!["cs.CL".to_string(), "cs.CV".to_string()]),
        "http://export.arxiv.org/api/query?search_query=cat:cs.CL+OR+cat:cs.CV&sortBy=submittedDate&sortOrder=descending&max_results=50"
    );
    assert_eq!(percent_encode_query_part("a&b é"), "a%26b%20%C3%A9");
    assert_eq!(encode_arxiv_query("  sparse  auto-encoder "), "sparse+AND+auto-encoder");
    assert_eq!(
        search_query_url("rl", 500),
        "http://export.arxiv.org/api/query?search_query=all:rl&sortBy=submittedDate&sortOrder=descending&max_results=100"
    );
    assert_eq!(
        fetch_by_ids_url(&vec!["https://arxiv.org/abs/2401.00001v3".to_string(), "junk".to_string()]),
        Some("http://export.arxiv.org/api/query?id_list=2401.00001&max_results=1".to_string())
    );
    assert_eq!(fetch_by_ids_url(&vec!["junk".to_string()]), None);
}

#[test]
fn reads_xml_events() {
    let ev = read_all_events("<a x=\"1\"><b/>hi</a>");
    assert!(matches!(&ev[0], XmlEvent::Start(n) if n == b"a"));
    assert!(matches!(&ev[1], XmlEvent::Empty(n, _) if n == b"b"));
    assert!(matches!(&ev[2], XmlEvent::Text(Some(t)) if t == "hi"));
    assert!(matches!(&ev[3], XmlEvent::End(n) if n == b"a"));
    assert!(matches!(ev.last(), Some(XmlEvent::Eof)));
    assert_eq!(local_name(&b"dc:creator".to_vec()), "creator");
    assert_eq!(raw_name(&b"dc:creator".to_vec()), "dc:creator");
    assert_eq!(raw_name(&vec![104, 0xff, 105]), "");
}

#[test]
fn maps_crossref_works() {
    let w = CrWork {
        doi: Some("10.1/x".into()),
        url: None,
        title: vec!["  Deep   RL ".into()],
        abstract_text: Some("<jats:p>Abstract here</jats:p><jats:p>More</jats:p>".into()),
        author: vec![
            CrAuthor { given: Some("Ann".into()), family: Some("Lee".into()) },
            CrAuthor { given: None, family: Some("Kim".into()) },
            CrAuthor { given: None, family: None },
        ],
        published: Some(vec![vec![2023, 7]]),
    };
    let item = item_to_feed(&w).unwrap();
    assert_eq!(item.title, "Deep RL");
    assert_eq!(item.url, "https://doi.org/10.1/x");
    assert_eq!(item.summary_short, "Abstract here More");
    assert_eq!(item.authors, vec!["Ann Lee".to_string(), "Kim".to_string()]);
    assert_eq!(item.published_at, "2023-07-01");
    assert_eq!(item.source_platform, SourcePlatform::Blog);
    let untitled = CrWork { title: vec![], ..w.clone() };
    assert!(item_to_feed(&untitled).is_none());
    assert_eq!(first_item(&vec![untitled, w]).unwrap().title, "Deep RL");
    assert_eq!(
        lookup_url(" https://arxiv.org/abs/2401.1 a=b "),
        "https://api.crossref.org/works?query=2401.1+a_b&rows=3&select=DOI,title,abstract,author,published,URL,type"
    );
}

#[test]
fn maps_core_works() {
    let w = CoreWork {
        title: Some("A  Paper".into()),
        abstract_text: None,
        authors: vec![CoreAuthor { name: Some("X".into()) }, CoreAuthor { name: None }],
        published_date: None,
        year_published: Some("2021".into()),
        source_fulltext_urls: vec!["https://x.org/pdf".into(), "https://arxiv.org/abs/2101.1".into()],
        links: vec![CoreLink { url: "https://core.ac.uk/1".into() }],
    };
    let item = work_to_item(&w).unwrap();
    assert_eq!(item.url, "https://arxiv.org/abs/2101.1");
    assert_eq!(item.title, "A Paper");
    assert_eq!(item.published_at, "2021");
    assert_eq!(item.authors, vec!["X".to_string()]);
    assert_eq!(item.source_name, "core");
    let no_arxiv = CoreWork { source_fulltext_urls: vec![], ..w.clone() };
    assert_eq!(work_to_item(&no_arxiv).unwrap().url, "https://core.ac.uk/1");
    let no_url = CoreWork { source_fulltext_urls: vec![], links: vec![CoreLink { url: "ftp://x".into() }], ..w };
    assert!(work_to_item(&no_url).is_none());
    assert!(search_url("K").ends_with("&sort=recency&apiKey=K"));
}

fn blank(tags: Vec<&str>, authors: Vec<&str>) -> FeedItem {
    FeedItem {
        id: "x".into(),
        title: "T".into(),
        source_platform: SourcePlatform::Rss,
        content_type: ContentType::Article,
        domain_tags: tags.into_iter().map(String::from).collect(),
        signal: SignalLevel::Primary,
        published_at: String::new(),
        authors: authors.into_iter().map(String::from).collect(),
        summary_short: String::new(),
        workflow_state: WorkflowState::Inbox,
        url: "https://arxiv.org/abs/2401.00001v2".into(),
        upvote_count: 0,
        github_repo: None,
        github_owner: None,
        github_repo_name: None,
        benchmark_results: vec![],
        full_content: None,
        source_name: String::new(),
        title_lower: String::new(),
        authors_lower: Vec::new(),
    }
}

#[test]
fn semantic_scholar_enrichment() {
    let p = S2Paper {
        is_error: false,
        author_names: vec![Some("A".into()), None, Some("B".into())],
        first_affiliation: Some("MIT".into()),
        citation_count: Some(0x1_0000_0005),
        field_categories: vec![Some("Computer Science".into())],
    };
    let e: EnrichmentEntry = entry_from_paper(&p, "2024-01-01").unwrap();
    assert_eq!(e.authors, vec!["A".to_string(), "B".to_string()]);
    assert_eq!(e.institution, "MIT");
    assert_eq!(e.citation_count, 5);
    assert_eq!(e.cached_at, "2024-01-01");
    assert!(entry_from_paper(&S2Paper { is_error: true, ..p }, "d").is_none());
    let mut item = blank(vec!["ml"], vec![]);
    apply_entry(&mut item, &e);
    assert_eq!(item.authors, vec!["A".to_string(), "B".to_string()]);
    assert_eq!(item.domain_tags, vec!["computer science".to_string()]);
    let mut item = blank(vec!["robotics"], vec!["Z"]);
    apply_entry(&mut item, &e);
    assert_eq!(item.authors, vec!["Z".to_string()]);
    assert_eq!(item.domain_tags, vec!["robotics".to_string()]);
    assert_eq!(s2_arxiv_id("https://arxiv.org/abs/2401.00001v2"), Some("2401.00001v2".to_string()));
    assert!(paper_api_url("2401.00001").contains("arXiv:2401.00001"));
    let today = day_number("2024-01-10").unwrap();
    assert!(is_stale("", today));
    assert!(!is_stale("2024-01-05", today));
    assert!(is_stale("2024-01-02", today));
    assert!(matches!(s2_step(false, false, true, 0), S2Step::Skip));
}
