use trench::config::{next_custom_theme_id, next_custom_theme_name};
use trench::history::{reconstruct_feed_item, HistoryEntry, HistoryKind, HistoryPaperMeta, Timestamp};
use trench::history::HistoryFilter;
use trench::input::Key;
use trench::library::{apply_workflow_to_selection, library_recompute_selection, LibraryAction, LibraryFilter, LibraryTab};
use trench::merge::KeyIndex;
use trench::models::{ContentType, FeedItem, SignalLevel, SourcePlatform, WorkflowState};
use trench::sets::StrSet;
use trench::tags::{add, for_url, toggle_tag_on_targets, ItemTags};

fn row(url: &str) -> FeedItem {
    FeedItem {
        id: url.into(),
        title: format!("T {url}"),
        source_platform: SourcePlatform::Rss,
        content_type: ContentType::Article,
        domain_tags: vec![],
        signal: SignalLevel::Secondary,
        published_at: "2024-01-01".into(),
        authors: vec![],
        summary_short: String::new(),
        workflow_state: WorkflowState::Inbox,
        url: url.into(),
        upvote_count: 0,
        github_repo: None,
        github_owner: None,
        github_repo_name: None,
        benchmark_results: vec![],
        full_content: None,
        source_name: String::new(),
        title_lower: String::new(),
        authors_lower: Vec::new(),
    }
}

fn sorted(set: &StrSet) -> Vec<String> {
    let mut v = set.values();
    v.sort();
    v
}

#[test]
fn custom_theme_names_take_the_first_free_number() {
    assert_eq!(next_custom_theme_name(&vec![]), "Custom 1");
    assert_eq!(next_custom_theme_name(&vec!["Custom 1".into(), "Custom 3".into()]), "Custom 2");
    assert_eq!(next_custom_theme_name(&vec!["Custom 2".into(), "Custom 1".into()]), "Custom 3");
    let many: Vec<String> = (1..=11).map(|n| format!("Custom {n}")).collect();
    assert_eq!(next_custom_theme_name(&many), "Custom 12");
}

#[test]
fn custom_theme_ids_take_the_first_free_number() {
    assert_eq!(next_custom_theme_id(&vec!["Custom 1".into()]), "custom-1");
    assert_eq!(next_custom_theme_id(&vec!["custom-1".into(), "custom-1".into()]), "custom-2");
}

#[test]
fn history_entry_rebuilds_a_feed_item() {
    let entry = HistoryEntry {
        kind: HistoryKind::Paper,
        key: "https://arxiv.org/abs/2401.00001".into(),
        title: "Big Paper".into(),
        source: "arXiv".into(),
        paper_meta: None,
        opened_at: Timestamp { secs: 0, nanos: 0 },
        visit_count: 1,
    };
    let meta = HistoryPaperMeta {
        authors: vec!["Ada LOVELACE".into()],
        source_platform: SourcePlatform::ArXiv,
        published_at: "2024-01-02".into(),
        summary_short: "abstract".into(),
    };
    let item = reconstruct_feed_item(&entry, &meta);
    assert_eq!(item.id, entry.key);
    assert_eq!(item.url, entry.key);
    assert_eq!(item.title_lower, "big paper");
    assert_eq!(item.authors_lower, vec!["ada lovelace".to_string()]);
    assert_eq!(item.signal, SignalLevel::Tertiary);
    assert_eq!(item.workflow_state, WorkflowState::Inbox);
    assert_eq!(item.source_name, "arXiv");
    assert_eq!(item.summary_short, "abstract");
}

#[test]
fn visual_selection_covers_anchor_to_cursor() {
    let items = vec![row("a"), row("b"), row("c"), row("d")];
    let visible = vec![3, 1, 0];
    let sel = library_recompute_selection(&items, &visible, true, 2, 1);
    assert_eq!(sorted(&sel), vec!["a", "b"]);
    let sel = library_recompute_selection(&items, &visible, true, 0, 5);
    assert_eq!(sorted(&sel), vec!["a", "b", "d"]);
    let sel = library_recompute_selection(&items, &visible, false, 0, 2);
    assert!(sel.is_empty());
}

#[test]
fn bulk_state_changes_selected_items_once() {
    let mut items = vec![row("a"), row("b"), row("a"), row("c")];
    let mut saved: KeyIndex<WorkflowState> = KeyIndex::new();
    let mut selected = StrSet::new();
    selected.insert("a".into());
    selected.insert("zzz".into());
    selected.insert("c".into());
    let n = apply_workflow_to_selection(&mut items, &mut saved, &selected, WorkflowState::Queued);
    assert_eq!(n, 2);
    let states: Vec<WorkflowState> = items.iter().map(|i| i.workflow_state).collect();
    assert_eq!(
        states,
        vec![WorkflowState::Queued, WorkflowState::Inbox, WorkflowState::Inbox, WorkflowState::Queued]
    );
    assert_eq!(saved.get("a"), Some(WorkflowState::Queued));
    assert_eq!(saved.get("zzz"), None);
    assert_eq!(saved.len(), 2);
}

#[test]
fn toggling_adds_to_all_when_one_lacks_then_removes_from_all() {
    let mut tags = ItemTags::new();
    add(&mut tags, "u1", "ml".into());
    add(&mut tags, "u1", "old".into());
    let targets = vec!["u1".to_string(), "u2".to_string()];
    toggle_tag_on_targets(&mut tags, &targets, "  ML ");
    assert_eq!(for_url(&tags, "u1"), ["ml", "old"]);
    assert_eq!(for_url(&tags, "u2"), ["ml"]);
    toggle_tag_on_targets(&mut tags, &targets, "ml");
    assert_eq!(for_url(&tags, "u1"), ["old"]);
    assert!(for_url(&tags, "u2").is_empty());
    toggle_tag_on_targets(&mut tags, &targets, "   ");
    assert_eq!(for_url(&tags, "u1"), ["old"]);
}

fn key(c: char) -> Key {
    Key::Char { c, ctrl: false }
}

#[test]
fn library_visual_mode_selects_and_moves_items() {
    let mut items = vec![row("a"), row("b"), row("c"), row("d")];
    let visible = vec![0, 1, 2, 3];
    let mut saved: KeyIndex<WorkflowState> = KeyIndex::new();
    let mut tab = LibraryTab::new();
    tab.selected_index = 1;
    assert!(matches!(tab.handle_key(key('v'), &mut items, &visible, &mut saved), LibraryAction::Handled));
    assert!(tab.visual_mode);
    tab.handle_key(key('j'), &mut items, &visible, &mut saved);
    tab.handle_key(Key::Down, &mut items, &visible, &mut saved);
    assert_eq!(tab.selected_index, 3);
    assert_eq!(sorted(&tab.selected_urls), vec!["b", "c", "d"]);
    tab.handle_key(key('j'), &mut items, &visible, &mut saved);
    assert_eq!(tab.selected_index, 3);
    assert!(matches!(tab.handle_key(key('f'), &mut items, &visible, &mut saved), LibraryAction::Handled));
    match tab.handle_key(key('x'), &mut items, &visible, &mut saved) {
        LibraryAction::Marked { state, count, notice } => {
            assert_eq!(state, WorkflowState::Archived);
            assert_eq!(count, 3);
            assert_eq!(notice, "Archived 3 items");
        }
        other => panic!("expected a bulk change, got {other:?}"),
    }
    assert!(!tab.visual_mode);
    assert!(tab.selected_urls.is_empty());
    assert_eq!(items[0].workflow_state, WorkflowState::Inbox);
    assert_eq!(items[3].workflow_state, WorkflowState::Archived);
    assert_eq!(saved.get("c"), Some(WorkflowState::Archived));
}

#[test]
fn library_keys_step_filters_and_reset_the_cursor() {
    let mut items = vec![row("a"), row("b")];
    let visible = vec![1];
    let mut saved: KeyIndex<WorkflowState> = KeyIndex::new();
    let mut tab = LibraryTab::new();
    tab.selected_index = 5;
    tab.list_offset = 2;
    tab.handle_key(key(']'), &mut items, &visible, &mut saved);
    assert_eq!(tab.filter, LibraryFilter::Queue);
    assert_eq!(tab.selected_index, 0);
    assert_eq!(tab.list_offset, 0);
    tab.handle_key(key('['), &mut items, &visible, &mut saved);
    tab.handle_key(key('['), &mut items, &visible, &mut saved);
    assert_eq!(tab.filter, LibraryFilter::Archived);
    tab.handle_key(key('{'), &mut items, &visible, &mut saved);
    assert_eq!(tab.time_filter, HistoryFilter::Month);
    match tab.handle_key(key('t'), &mut items, &visible, &mut saved) {
        LibraryAction::TagPicker(urls) => assert_eq!(urls, vec!["b".to_string()]),
        other => panic!("expected the tag picker, got {other:?}"),
    }
    assert!(matches!(tab.handle_key(key('j'), &mut items, &visible, &mut saved), LibraryAction::Pass));
}

#[test]
fn library_marks_read_with_a_count_in_the_notice() {
    let mut items = vec![row("a"), row("b")];
    let visible = vec![0, 1];
    let mut saved: KeyIndex<WorkflowState> = KeyIndex::new();
    let mut tab = LibraryTab::new();
    tab.handle_key(key('v'), &mut items, &visible, &mut saved);
    tab.handle_key(Key::Esc, &mut items, &visible, &mut saved);
    assert!(!tab.visual_mode);
    tab.handle_key(key('v'), &mut items, &visible, &mut saved);
    match tab.handle_key(key('r'), &mut items, &visible, &mut saved) {
        LibraryAction::Marked { notice, .. } => assert_eq!(notice, "Marked 1 as read"),
        other => panic!("expected a bulk change, got {other:?}"),
    }
    assert_eq!(items[0].workflow_state, WorkflowState::DeepRead);
}
