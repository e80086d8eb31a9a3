use trench::app::{FeedTab, FilterState};
use trench::config::SourcesConfig;
use trench::history::{record_paper_at, record_query_at, HistoryEntry, HistoryFilter, HistoryPaperMeta, Timestamp};
use trench::library::LibraryFilter;
use trench::merge::{sort_newest_first, FeedStore, KeyIndex};
use trench::models::{ContentType, FeedItem, SignalLevel, SourcePlatform, WorkflowState};
use trench::sets::StrSet;
use trench::tags::{add, ItemTags};
use trench::view::{
    filter_cursor_down, filter_source_names, filter_summary, filtered_history, summarize_labels, summarize_strings,
    toggle_filter_at, FeedView,
};

fn item(url: &str, date: &str, platform: SourcePlatform) -> FeedItem {
    FeedItem {
        id: url.into(),
        title: format!("T {url}"),
        source_platform: platform,
        content_type: ContentType::Paper,
        domain_tags: vec![],
        signal: SignalLevel::Primary,
        published_at: date.into(),
        authors: vec![],
        summary_short: String::new(),
        workflow_state: WorkflowState::Inbox,
        url: url.into(),
        upvote_count: 0,
        github_repo: None,
        github_owner: None,
        github_repo_name: None,
        benchmark_results: vec![],
        full_content: None,
        source_name: String::new(),
        title_lower: String::new(),
        authors_lower: Vec::new(),
    }
}

fn urls(items: &[FeedItem]) -> Vec<String> {
    items.iter().map(|i| i.url.clone()).collect()
}

#[test]
fn sorts_newest_first_and_keeps_ties_in_order() {
    let mut v = vec![
        item("a", "2024-01-01", SourcePlatform::Rss),
        item("b", "2024-03-01", SourcePlatform::Rss),
        item("c", "2024-01-01", SourcePlatform::Rss),
        item("d", "", SourcePlatform::Rss),
        item("e", "2024-03-01", SourcePlatform::Rss),
    ];
    sort_newest_first(&mut v);
    assert_eq!(urls(&v), vec!["b", "e", "a", "c", "d"]);
}

#[test]
fn merging_collapses_duplicates() {
    let mut store = FeedStore::new(vec![
        item("https://huggingface.co/papers/2401.00001", "2024-01-02", SourcePlatform::HuggingFace),
        item("https://blog.x/post", "2024-01-01", SourcePlatform::Rss),
    ]);
    store.items[0].workflow_state = WorkflowState::Queued;
    let saved: KeyIndex<WorkflowState> = KeyIndex::new();

    // Same URL: replaced in place.
    let mut again = item("https://blog.x/post", "2024-01-01", SourcePlatform::Rss);
    again.title = "Updated".into();
    store.merge_item(again, &saved);
    assert_eq!(store.items.len(), 2);
    assert_eq!(store.items[1].title, "Updated");

    // Another HF entry for the same paper: dropped.
    store.merge_item(item("https://huggingface.co/papers/2401.00001?ref=x", "2024-01-02", SourcePlatform::HuggingFace), &saved);
    assert_eq!(store.items.len(), 2);
    assert_eq!(store.items[0].url, "https://huggingface.co/papers/2401.00001");

    // The arXiv entry replaces the stub but keeps its reading state.
    store.merge_item(item("https://arxiv.org/abs/2401.00001", "2024-01-03", SourcePlatform::ArXiv), &saved);
    assert_eq!(store.items.len(), 2);
    assert_eq!(store.items[0].url, "https://arxiv.org/abs/2401.00001");
    assert_eq!(store.items[0].source_platform, SourcePlatform::ArXiv);
    assert_eq!(store.items[0].workflow_state, WorkflowState::Queued);

    // A new item is appended.
    store.merge_item(item("https://blog.y/new", "2024-05-01", SourcePlatform::Rss), &saved);
    assert_eq!(store.items.len(), 3);
    assert_eq!(store.items[2].url, "https://blog.y/new");
}

#[test]
fn merged_batches_take_saved_states_and_come_out_sorted() {
    let mut store = FeedStore::new(vec![item("u1", "2024-01-01", SourcePlatform::Rss)]);
    let mut saved: KeyIndex<WorkflowState> = KeyIndex::new();
    saved.insert("u2".to_string(), WorkflowState::Archived);
    saved.insert("u2".to_string(), WorkflowState::DeepRead);
    store.merge_batch(
        vec![
            item("u2", "2024-02-01", SourcePlatform::Rss),
            item("u3", "2023-12-01", SourcePlatform::Rss),
            item("u2", "2024-02-01", SourcePlatform::Rss),
        ],
        &saved,
    );
    assert_eq!(urls(&store.items), vec!["u2", "u1", "u3"]);
    assert_eq!(store.items[0].workflow_state, WorkflowState::DeepRead);
    assert_eq!(store.items[1].workflow_state, WorkflowState::Inbox);
    // The tables follow the new order.
    store.merge_item(item("u3", "2023-12-01", SourcePlatform::Blog), &saved);
    assert_eq!(store.items[2].source_platform, SourcePlatform::Blog);
    assert_eq!(store.items.len(), 3);
}

fn view(tab: FeedTab, query: &str) -> FeedView {
    FeedView {
        tab,
        library_filter: LibraryFilter::All,
        library_time_filter: HistoryFilter::All,
        search_query: query.into(),
        now: Timestamp { secs: 100 * 86400, nanos: 0 },
    }
}

fn meta() -> HistoryPaperMeta {
    HistoryPaperMeta {
        authors: vec![],
        source_platform: SourcePlatform::Rss,
        published_at: String::new(),
        summary_short: String::new(),
    }
}

#[test]
fn feed_view_shows_what_tab_search_and_filters_allow() {
    let mut a = item("a", "1", SourcePlatform::Rss);
    a.source_name = "openai".into();
    a.title_lower = "sparse autoencoders".into();
    let mut b = item("b", "1", SourcePlatform::HuggingFace);
    b.workflow_state = WorkflowState::Queued;
    b.authors_lower = vec!["ada lovelace".into()];
    let mut c = item("c", "1", SourcePlatform::Rss);
    c.source_name = "bair".into();
    c.workflow_state = WorkflowState::DeepRead;
    let items = vec![a, b, c];
    let history: Vec<HistoryEntry> = Vec::new();
    let mut sources = SourcesConfig::default();
    let filters = FilterState::new();
    let tags = ItemTags::new();

    assert_eq!(view(FeedTab::Inbox, "").visible_indices(&items, &history, &sources, &filters, &tags), vec![0]);
    assert_eq!(view(FeedTab::Library, "").visible_indices(&items, &history, &sources, &filters, &tags), vec![1, 2]);
    assert_eq!(view(FeedTab::Discoveries, "LOVELACE").visible_indices(&items, &history, &sources, &filters, &tags), vec![1]);
    assert_eq!(view(FeedTab::Discoveries, "Sparse").visible_indices(&items, &history, &sources, &filters, &tags), vec![0]);
    sources.set_enabled("huggingface", false);
    assert_eq!(view(FeedTab::Discoveries, "").visible_indices(&items, &history, &sources, &filters, &tags), vec![0, 2]);

    let mut tags = ItemTags::new();
    add(&mut tags, "c", "robotics".into());
    let mut filters = FilterState::new();
    filters.tags.insert("robotics".into());
    assert_eq!(view(FeedTab::Discoveries, "").visible_indices(&items, &history, &sources, &filters, &tags), vec![2]);
}

#[test]
fn library_time_window_uses_last_open() {
    let mut b = item("b", "1", SourcePlatform::Rss);
    b.workflow_state = WorkflowState::Queued;
    let mut c = item("c", "1", SourcePlatform::Rss);
    c.workflow_state = WorkflowState::Queued;
    let items = vec![b, c];
    let mut history: Vec<HistoryEntry> = Vec::new();
    record_paper_at(&mut history, "b".into(), "B".into(), "rss".into(), meta(), Timestamp { secs: 100 * 86400 - 3600, nanos: 0 });
    record_paper_at(&mut history, "c".into(), "C".into(), "rss".into(), meta(), Timestamp { secs: 90 * 86400, nanos: 0 });
    let mut v = view(FeedTab::Library, "");
    v.library_time_filter = HistoryFilter::Last24h;
    let sources = SourcesConfig::default();
    let filters = FilterState::new();
    let tags = ItemTags::new();
    assert_eq!(v.visible_indices(&items, &history, &sources, &filters, &tags), vec![0]);
    v.library_time_filter = HistoryFilter::Month;
    assert_eq!(v.visible_indices(&items, &history, &sources, &filters, &tags), vec![0, 1]);
    v.library_filter = LibraryFilter::Read;
    assert!(v.visible_indices(&items, &history, &sources, &filters, &tags).is_empty());
}

#[test]
fn history_view_filters_by_window_title_and_source() {
    let mut history: Vec<HistoryEntry> = Vec::new();
    record_paper_at(&mut history, "u1".into(), "Old Paper".into(), "arxiv".into(), meta(), Timestamp { secs: 0, nanos: 0 });
    record_paper_at(&mut history, "u2".into(), "New Paper".into(), "hf".into(), meta(), Timestamp { secs: 1000, nanos: 0 });
    record_query_at(&mut history, "Agents".into(), "papers", Timestamp { secs: 1100, nanos: 0 });
    let now = Timestamp { secs: 2000, nanos: 0 };
    let none = StrSet::new();
    assert_eq!(filtered_history(&history, HistoryFilter::All, now, "", &none), vec![0, 1, 2]);
    assert_eq!(filtered_history(&history, HistoryFilter::All, now, "PAPER", &none), vec![1, 2]);
    let mut hf = StrSet::new();
    hf.insert("hf".into());
    assert_eq!(filtered_history(&history, HistoryFilter::All, now, "", &hf), vec![1]);
    let later = Timestamp { secs: 86400 + 500, nanos: 0 };
    assert_eq!(filtered_history(&history, HistoryFilter::Last24h, later, "", &none), vec![0, 1]);
}

#[test]
fn filter_panel_rows() {
    let mut a = item("a", "1", SourcePlatform::Rss);
    a.source_name = "openai".into();
    let b = item("b", "1", SourcePlatform::OpenReview);
    let names = filter_source_names(&vec![a, b]);
    assert_eq!(names, vec!["OR".to_string(), "arxiv".to_string(), "hf".to_string(), "openai".to_string()]);
    let tags = vec!["agents".to_string()];
    let mut f = FilterState::new();
    toggle_filter_at(&mut f, 3, &names, &tags);
    assert!(f.sources.contains("openai"));
    toggle_filter_at(&mut f, 4, &names, &tags);
    assert!(f.signals.contains(&SignalLevel::Primary));
    toggle_filter_at(&mut f, 8, &names, &tags);
    assert!(f.content_types.contains(&ContentType::Article));
    toggle_filter_at(&mut f, 10, &names, &tags);
    assert!(f.tags.contains("agents"));
    toggle_filter_at(&mut f, 3, &names, &tags);
    assert!(!f.sources.contains("openai"));
    assert_eq!(f.active_count(), 3);
    toggle_filter_at(&mut f, 11, &names, &tags);
    assert!(f.is_empty());
    assert_eq!(filter_cursor_down(0, 4, 1), 1);
    assert_eq!(filter_cursor_down(10, 4, 1), 11);
    assert_eq!(filter_cursor_down(11, 4, 1), 11);
    assert_eq!(filter_cursor_down(50, 4, 1), 11);
}

#[test]
fn summarizes_filters() {
    assert_eq!(summarize_labels(&vec![]), "any");
    assert_eq!(summarize_labels(&vec!["a".to_string()]), "a");
    assert_eq!(summarize_labels(&vec!["a".to_string(), "b".to_string()]), "a,b");
    assert_eq!(summarize_labels(&vec!["a".to_string(), "b".to_string(), "c".to_string()]), "a+2");
    let mut s = StrSet::new();
    s.insert("openai".into());
    s.insert("bair".into());
    s.insert("arxiv".into());
    assert_eq!(summarize_strings(&s), "arxiv+2");
    let mut f = FilterState::new();
    assert_eq!(filter_summary(&f), "source:any  state:any  type:any  signal:any");
    f.sources.insert("openai".into());
    f.sources.insert("bair".into());
    trench::app::toggle_set(&mut f.workflow_states, WorkflowState::Archived);
    trench::app::toggle_set(&mut f.workflow_states, WorkflowState::Inbox);
    trench::app::toggle_set(&mut f.signals, SignalLevel::Tertiary);
    assert_eq!(filter_summary(&f), "source:bair,openai  state:inbox,archived  type:any  signal:tertiary");
}

#[test]
fn sets_and_tags_list_their_members() {
    let mut s = StrSet::new();
    s.insert("x".into());
    s.insert("y".into());
    s.insert("x".into());
    let mut v = s.values();
    v.sort();
    assert_eq!(v, vec!["x".to_string(), "y".to_string()]);
    let mut tags = ItemTags::new();
    add(&mut tags, "u1", "a".into());
    add(&mut tags, "u2", "b".into());
    let mut urls = tags.urls();
    urls.sort();
    assert_eq!(urls, vec!["u1".to_string(), "u2".to_string()]);
}
