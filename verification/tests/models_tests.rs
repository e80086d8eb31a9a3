use trench::models::{
    arxiv_id_from_url, detect_subtopics, map_arxiv_category, ContentType, FeedItem, SignalLevel,
    SourcePlatform, WorkflowState,
};

#[test]
fn extracts_from_arxiv_abs() {
    assert_eq!(arxiv_id_from_url("https://arxiv.org/abs/2312.12345"), Some("2312.12345"));
}

#[test]
fn strips_version_suffix_via_terminator_logic() {
    assert_eq!(arxiv_id_from_url("http://arxiv.org/abs/2312.12345v1"), Some("2312.12345v1"));
}

#[test]
fn extracts_from_huggingface_papers() {
    assert_eq!(arxiv_id_from_url("https://huggingface.co/papers/2312.12345"), Some("2312.12345"));
}

#[test]
fn extracts_from_arxiv_pdf() {
    assert_eq!(arxiv_id_from_url("https://arxiv.org/pdf/2401.00001.pdf"), Some("2401.00001.pdf"));
}

#[test]
fn stops_at_query_string() {
    assert_eq!(
        arxiv_id_from_url("https://arxiv.org/abs/2312.12345?context=cs.LG"),
        Some("2312.12345")
    );
}

#[test]
fn returns_none_for_unrelated_urls() {
    assert_eq!(arxiv_id_from_url("https://github.com/foo/bar"), None);
    assert_eq!(arxiv_id_from_url("plain text"), None);
    assert_eq!(arxiv_id_from_url(""), None);
}

#[test]
fn returns_none_for_prefix_with_no_id() {
    assert_eq!(arxiv_id_from_url("https://arxiv.org/abs/"), None);
    assert_eq!(arxiv_id_from_url("https://arxiv.org/abs/?"), None);
}

#[test]
fn falls_through_to_later_prefix_when_first_has_no_id() {
    assert_eq!(
        arxiv_id_from_url("https://arxiv.org/abs/?x https://huggingface.co/papers/2401.1"),
        Some("2401.1")
    );
}

fn blank_item() -> FeedItem {
    FeedItem {
        id: "x".into(),
        title: String::new(),
        source_platform: SourcePlatform::ArXiv,
        content_type: ContentType::Paper,
        domain_tags: vec![],
        signal: SignalLevel::Primary,
        published_at: String::new(),
        authors: vec![],
        summary_short: String::new(),
        workflow_state: WorkflowState::Inbox,
        url: "u".into(),
        upvote_count: 0,
        github_repo: None,
        github_owner: None,
        github_repo_name: None,
        benchmark_results: vec![],
        full_content: None,
        source_name: String::new(),
        title_lower: String::new(),
        authors_lower: Vec::new(),
    }
}

#[test]
fn sanitize_in_place_populates_lowercase_search_cache() {
    let mut item = blank_item();
    item.title = "Mixed CASE Title".into();
    item.authors = vec!["Alice Smith".into(), "BOB JONES".into()];
    item.sanitize_in_place();
    assert_eq!(item.title_lower, "mixed case title");
    assert_eq!(item.authors_lower, vec!["alice smith".to_string(), "bob jones".to_string()]);
}

#[test]
fn sanitize_in_place_strips_escape_sequences() {
    let mut item = blank_item();
    item.title = "Paper Title\x1b[2J\x1b[Hhijack".into();
    item.domain_tags = vec!["legit\x1b]52;c;evil\x07tag".into()];
    item.authors = vec!["A\x1b]8;;https://evil/\x1b\\Real\x1b]8;;\x1b\\B".into()];
    item.summary_short = "Abstract\x1b[31mred\x1b[0m end".into();
    item.full_content = Some("body\x1b[2Kclear".into());
    item.sanitize_in_place();
    assert_eq!(item.title, "Paper Titlehijack");
    assert_eq!(item.domain_tags, vec!["legittag".to_string()]);
    assert_eq!(item.authors, vec!["ARealB".to_string()]);
    assert_eq!(item.summary_short, "Abstractred end");
    assert_eq!(item.full_content.as_deref(), Some("bodyclear"));
    // Idempotent.
    let before = item.title.clone();
    item.sanitize_in_place();
    assert_eq!(item.title, before);
}

#[test]
fn compute_signal_follows_platform_and_upvotes() {
    let mut item = blank_item();
    item.source_platform = SourcePlatform::HuggingFace;
    item.upvote_count = 0;
    assert_eq!(item.compute_signal(), SignalLevel::Tertiary);
    item.upvote_count = 1;
    assert_eq!(item.compute_signal(), SignalLevel::Secondary);
    item.upvote_count = 10;
    assert_eq!(item.compute_signal(), SignalLevel::Primary);
    item.source_platform = SourcePlatform::Rss;
    assert_eq!(item.compute_signal(), SignalLevel::Tertiary);
    item.source_platform = SourcePlatform::OpenReview;
    assert_eq!(item.compute_signal(), SignalLevel::Secondary);
}

#[test]
fn maps_known_categories() {
    assert_eq!(map_arxiv_category("cs.LG"), Some("machine learning"));
    assert_eq!(map_arxiv_category("q-bio.NC"), Some("neuroscience"));
    assert_eq!(map_arxiv_category("cs.XX"), None);
}

#[test]
fn detects_subtopics_case_insensitively_and_dedups() {
    let t = detect_subtopics("Sparse Autoencoder circuits with RLHF", "reinforcement learning from human feedback");
    assert_eq!(t, vec!["sparse autoencoders", "circuit analysis", "RLHF"]);
    assert!(detect_subtopics("", "").is_empty());
}

#[test]
fn labels() {
    assert_eq!(SourcePlatform::OpenReview.short_label(), "OR");
    assert_eq!(ContentType::Digest.short_label(), "digest");
    assert_eq!(SignalLevel::Secondary.indicator(), "·");
    assert_eq!(WorkflowState::DeepRead.short_label(), "read");
    assert_eq!(WorkflowState::from_stored_name("skimmed"), WorkflowState::Inbox);
    assert_eq!(WorkflowState::from_stored_name("deepread"), WorkflowState::DeepRead);
    assert_eq!(WorkflowState::Archived.stored_name(), "archived");
}

#[test]
fn deserializes_known_variants() {
    let cases = [
        ("\"inbox\"", WorkflowState::Inbox),
        ("\"queued\"", WorkflowState::Queued),
        ("\"deepread\"", WorkflowState::DeepRead),
        ("\"archived\"", WorkflowState::Archived),
    ];
    for (json, expected) in cases {
        let name: String = serde_json::from_str(json).unwrap();
        let got = WorkflowState::from_stored_name(&name);
        assert_eq!(got, expected, "input: {json}");
    }
}

#[test]
fn deserializes_legacy_skimmed_to_inbox() {
    let name: String = serde_json::from_str("\"skimmed\"").unwrap();
    assert_eq!(WorkflowState::from_stored_name(&name), WorkflowState::Inbox);
}

#[test]
fn deserializes_unknown_to_inbox() {
    for s in ["\"garbage\"", "\"\"", "\"INBOX\"", "\"future_variant\""] {
        let name: String = serde_json::from_str(s).unwrap();
        assert_eq!(WorkflowState::from_stored_name(&name), WorkflowState::Inbox, "input: {s}");
    }
}

#[test]
fn serializes_to_lowercase_variant_name() {
    assert_eq!(serde_json::to_string(WorkflowState::Inbox.stored_name()).unwrap(), "\"inbox\"");
    assert_eq!(serde_json::to_string(WorkflowState::Queued.stored_name()).unwrap(), "\"queued\"");
    assert_eq!(serde_json::to_string(WorkflowState::DeepRead.stored_name()).unwrap(), "\"deepread\"");
    assert_eq!(serde_json::to_string(WorkflowState::Archived.stored_name()).unwrap(), "\"archived\"");
}

#[test]
fn round_trips_via_json() {
    for v in [WorkflowState::Inbox, WorkflowState::Queued, WorkflowState::DeepRead, WorkflowState::Archived] {
        let s = serde_json::to_string(v.stored_name()).unwrap();
        let name: String = serde_json::from_str(&s).unwrap();
        assert_eq!(v, WorkflowState::from_stored_name(&name));
    }
}
