use trench::commands::parser::{parse_slash_command, SlashCommandInvocation};
use trench::commands::registry::{command_specs, discovery_palette_completion, discovery_palette_count};
use trench::fulltext::{
    arxiv_html_url, cached_full_text, extract_arxiv_id, fulltext_next, fulltext_start, strip_html as page_text, wrap_lines,
    FulltextStage, FulltextStep,
};
use trench::github::{
    base64_decode, fetch_file, fetch_tree_dir, file_url, repo_url, tree_dir_url, ContentItem, FileContent, NodeType,
};
use trench::models::{ContentType, FeedItem, SignalLevel, SourcePlatform, WorkflowState};
use trench::sanitize::{is_control_char, sanitize_terminal_text};
use trench::text::{
    collapse_whitespace, join_strings, safe_truncate_chars, strip_ansi, strip_html, strip_tags, truncate,
    truncate_chars, truncate_str,
};

#[test]
fn collapses_and_truncates() {
    assert_eq!(collapse_whitespace("  a \n\t b  c "), "a b c");
    assert_eq!(collapse_whitespace("   "), "");
    assert_eq!(truncate_chars("héllo", 3), "hél…");
    assert_eq!(truncate_chars("abc", 3), "abc");
    assert_eq!(truncate("abcdef", 0), "");
    assert_eq!(truncate("abcdef", 4), "abcd…");
    assert_eq!(truncate_str("abcdef", 4), "abc…");
    assert_eq!(truncate_str("abc", 4), "abc");
    assert_eq!(safe_truncate_chars("añb", 2), "añ");
    assert_eq!(safe_truncate_chars("ab", 5), "ab");
    assert_eq!(join_strings(&vec!["a".to_string(), "b".to_string()], ", "), "a, b");
    assert_eq!(join_strings(&vec![], ", "), "");
}

#[test]
fn strips_markup() {
    assert_eq!(strip_html("<p>Hi</p>there"), "Hi there");
    assert_eq!(strip_html("<p>a</p><b>c</b>"), "a c");
    assert_eq!(strip_html("x<br/>y</DIV >z</span>!"), "xy z!");
    assert_eq!(strip_html("1 > 0 <i"), "1 > 0 ");
    assert_eq!(strip_tags("<a href=\"x\">Hi <b>you</b></a>"), "Hi you");
    assert_eq!(strip_ansi("a\x1b[31mred\x1b[0m b"), "ared b");
}

#[test]
fn converts_pages_to_text() {
    assert_eq!(page_text("<p>One</p><div>Two &amp; three</div>"), "\nOne\nTwo & three");
    assert_eq!(page_text("a<script>var x = 1;</script>b<style>p{}</style>c"), "abc");
    assert_eq!(page_text("x &mdash; y &bogus; z"), "x \u{2014} y &bogus; z");
    assert_eq!(page_text("AT&T rocks"), "AT& rocks");
    assert_eq!(page_text("a & b"), "a & b");
    assert_eq!(page_text("<BR/>end"), "\nend");
}

#[test]
fn wraps_paragraphs() {
    assert_eq!(
        wrap_lines("one two three four\nfive\n\n\nsix", 9),
        vec!["one two", "three", "four five", "", "six"].into_iter().map(String::from).collect::<Vec<_>>()
    );
    assert_eq!(wrap_lines("", 80), Vec::<String>::new());
    assert_eq!(wrap_lines("averyveryverylongword x", 5), vec!["averyveryverylongword".to_string(), "x".to_string()]);
    assert_eq!(wrap_lines("a\x1b[1mb\x1b[0m", 80), vec!["ab".to_string()]);
}

fn item(url: &str, full: Option<&str>) -> FeedItem {
    FeedItem {
        id: "x".into(),
        title: "T".into(),
        source_platform: SourcePlatform::ArXiv,
        content_type: ContentType::Paper,
        domain_tags: vec![],
        signal: SignalLevel::Primary,
        published_at: String::new(),
        authors: vec![],
        summary_short: String::new(),
        workflow_state: WorkflowState::Inbox,
        url: url.into(),
        upvote_count: 0,
        github_repo: None,
        github_owner: None,
        github_repo_name: None,
        benchmark_results: vec![],
        full_content: full.map(String::from),
        source_name: String::new(),
        title_lower: String::new(),
        authors_lower: Vec::new(),
    }
}

#[test]
fn full_text_sources() {
    assert_eq!(extract_arxiv_id("https://huggingface.co/papers/2401.1?x=1"), Some("2401.1".to_string()));
    assert_eq!(extract_arxiv_id("https://arxiv.org/abs/2401.2#s"), Some("2401.2".to_string()));
    assert_eq!(extract_arxiv_id("https://arxiv.org/abs/"), None);
    assert_eq!(extract_arxiv_id("https://example.com/post"), None);
    assert_eq!(arxiv_html_url("https://arxiv.org/pdf/2401.3"), Some("https://arxiv.org/html/2401.3".to_string()));
    assert_eq!(cached_full_text(&item("u", Some("hello world"))), Some(vec!["hello world".to_string()]));
    assert_eq!(cached_full_text(&item("u", Some(""))), None);
    assert_eq!(cached_full_text(&item("u", None)), None);
}

#[test]
fn sanitizes_terminal_text() {
    assert_eq!(sanitize_terminal_text("ok\ttext\n"), "ok\ttext\n");
    assert_eq!(sanitize_terminal_text("a\x07b\x7fc\u{9b}d"), "abcd");
    assert_eq!(sanitize_terminal_text("x\x1b[2Jy"), "xy");
    assert_eq!(sanitize_terminal_text("p\x1b]0;title\x07q"), "pq");
    let once = sanitize_terminal_text("A\x1b]8;;https://evil/\x1b\\Real\x1b]8;;\x1b\\B");
    assert_eq!(once, "ARealB");
    assert_eq!(sanitize_terminal_text(&once), once);
    assert!(is_control_char('\x1b'));
    assert!(!is_control_char('\n'));
    assert!(!is_control_char('é'));
}

#[test]
fn github_urls_and_listings() {
    assert_eq!(repo_url("o", "r"), "https://api.github.com/repos/o/r");
    assert_eq!(tree_dir_url("o", "r", "main", ""), "https://api.github.com/repos/o/r/contents?ref=main");
    assert_eq!(tree_dir_url("o", "r", "dev", "src/a"), "https://api.github.com/repos/o/r/contents/src/a?ref=dev");
    assert_eq!(file_url("o", "r", "README.md"), "https://api.github.com/repos/o/r/contents/README.md");
    let items = vec![
        ContentItem { name: "b.rs".into(), path: "b.rs".into(), item_type: "file".into() },
        ContentItem { name: "src".into(), path: "src".into(), item_type: "dir".into() },
        ContentItem { name: "a.rs".into(), path: "a.rs".into(), item_type: "file".into() },
        ContentItem { name: "docs".into(), path: "docs".into(), item_type: "dir".into() },
    ];
    let tree = fetch_tree_dir(items);
    let names: Vec<&str> = tree.iter().map(|n| n.name.as_str()).collect();
    assert_eq!(names, vec!["docs", "src", "a.rs", "b.rs"]);
    assert_eq!(tree[0].node_type, NodeType::Dir);
    assert_eq!(tree[3].node_type, NodeType::File);
}

#[test]
fn decodes_file_contents() {
    assert_eq!(base64_decode("aGVsbG8=\n"), Ok(b"hello".to_vec()));
    assert_eq!(base64_decode("aGk"), Ok(b"hi".to_vec()));
    let f = FileContent { content: "aGVs\nbG8=".into(), encoding: Some("base64".into()) };
    assert_eq!(fetch_file(&f), Ok("hello".to_string()));
    let bin = FileContent { content: "/w==".into(), encoding: Some("base64".into()) };
    assert_eq!(fetch_file(&bin), Err("Binary file — cannot display".to_string()));
    let other = FileContent { content: "x".into(), encoding: Some("utf-8".into()) };
    assert_eq!(fetch_file(&other), Err("Unexpected encoding: utf-8".to_string()));
    let none = FileContent { content: "x".into(), encoding: None };
    assert_eq!(fetch_file(&none), Err("Unexpected encoding: ".to_string()));
}

#[test]
fn parses_slash_commands() {
    assert_eq!(parse_slash_command("/clear"), SlashCommandInvocation::ClearChat);
    assert_eq!(parse_slash_command("  /clear history "), SlashCommandInvocation::ClearHistory);
    assert_eq!(
        parse_slash_command("/discover   sparse autoencoders "),
        SlashCommandInvocation::Discover { topic: "sparse autoencoders".into() }
    );
    assert_eq!(
        parse_slash_command("/add-feed https://x.org/rss"),
        SlashCommandInvocation::AddFeed { url: "https://x.org/rss".into() }
    );
    assert_eq!(parse_slash_command("/add cs.LG"), SlashCommandInvocation::AddArxivCategory { category: "cs.LG".into() });
    assert_eq!(parse_slash_command("/clearx"), SlashCommandInvocation::Unknown { raw: "/clearx".into() });
    assert_eq!(parse_slash_command("hello"), SlashCommandInvocation::Unknown { raw: "hello".into() });
    assert_eq!(parse_slash_command("/sota"), SlashCommandInvocation::Sota { topic: String::new() });
}

#[test]
fn palette_filters_discovery_commands() {
    let all = command_specs();
    assert_eq!(all.len(), 16);
    let shown = all.iter().filter(|s| s.show_in_discovery).count();
    assert_eq!(discovery_palette_count("/"), shown);
    assert_eq!(discovery_palette_count("/S"), 1);
    assert_eq!(discovery_palette_completion("/so", 0), Some("/sota ".to_string()));
    assert_eq!(discovery_palette_completion("/so", 1), None);
    assert_eq!(discovery_palette_count("/zzz"), 0);
}

#[test]
fn fulltext_chain_falls_through_to_the_summary() {
    let mut it = item("https://arxiv.org/abs/2401.00001", None);
    it.summary_short = "short summary".into();
    let step = fulltext_start(&it);
    let (stage, url) = match step {
        FulltextStep::Fetch { stage, url } => (stage, url),
        other => panic!("expected a fetch, got {other:?}"),
    };
    assert_eq!(stage, FulltextStage::ArxivHtml);
    assert_eq!(url, "https://arxiv.org/html/2401.00001");
    let step = fulltext_next(&it, stage, Err("404".into()));
    assert!(matches!(step, FulltextStep::Fetch { stage: FulltextStage::Readability, .. }));
    let step = fulltext_next(&it, FulltextStage::Readability, Err("x".into()));
    assert!(matches!(step, FulltextStep::Fetch { stage: FulltextStage::Chromium, .. }));
    match fulltext_next(&it, FulltextStage::Chromium, Err("x".into())) {
        FulltextStep::Done(lines) => assert_eq!(lines, vec!["short summary".to_string()]),
        other => panic!("expected the summary, got {other:?}"),
    }
    match fulltext_next(&it, FulltextStage::ArxivHtml, Ok("<p>Body</p>".into())) {
        FulltextStep::Done(lines) => assert_eq!(lines, vec![String::new(), "Body".to_string()]),
        other => panic!("expected the text, got {other:?}"),
    }
    let cached = item("https://blog.x/p", Some("cached text"));
    assert!(matches!(fulltext_start(&cached), FulltextStep::Done(_)));
    let plain = item("https://blog.x/p", None);
    assert!(matches!(fulltext_start(&plain), FulltextStep::Fetch { stage: FulltextStage::Readability, .. }));
}
