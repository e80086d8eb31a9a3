use trench::app::NotesTab;
use trench::config::{
    color_to_hex, custom_theme_roles, known_arxiv_cats, parse_hex_color, predefined_sources, CustomThemeColors,
    SourcesConfig, TermColor,
};
use trench::fetch::{FetchMessage, LoadProgress};
use trench::history::{
    format_ago, record_paper, record_paper_at, record_query_at, HistoryEntry, HistoryFilter, HistoryKind,
    HistoryPaperMeta, Timestamp, HISTORY_CAP,
};
use trench::intent::QueryIntent;
use trench::library::LibraryFilter;
use trench::models::{ContentType, FeedItem, SignalLevel, SourcePlatform, WorkflowState};
use trench::session::{SessionHistory, MAX_SESSION_MESSAGES};
use trench::store::UiState;
use trench::tags::{add, all_tags, count_for, for_url, normalize, remove, ItemTags};
use trench::theme::ThemeId;

#[test]
fn parses_hex_colors_with_or_without_hash() {
    assert_eq!(parse_hex_color("#0A1B2C"), Some(TermColor::Rgb(10, 27, 44)));
    assert_eq!(parse_hex_color("0a1b2c"), Some(TermColor::Rgb(10, 27, 44)));
    assert_eq!(parse_hex_color("#XYZ123"), None);
    assert_eq!(parse_hex_color("#123"), None);
}

#[test]
fn hex_colors_round_trip() {
    for (r, g, b) in [(0u8, 0u8, 0u8), (255, 255, 255), (10, 27, 44), (171, 205, 239)] {
        let text = color_to_hex(TermColor::Rgb(r, g, b));
        assert_eq!(parse_hex_color(&text), Some(TermColor::Rgb(r, g, b)));
    }
    assert_eq!(color_to_hex(TermColor::Rgb(10, 27, 44)), "#0A1B2C");
    assert_eq!(color_to_hex(TermColor::Red), "#FF0000");
}

fn colors() -> CustomThemeColors {
    let c = || "#000000".to_string();
    CustomThemeColors {
        accent: c(),
        header: c(),
        text: c(),
        text_dim: c(),
        border: c(),
        border_active: c(),
        bg: c(),
        bg_panel: c(),
        bg_input: c(),
        bg_selection: c(),
        bg_code: c(),
        bg_chat: c(),
        bg_user_msg: c(),
        bg_popup: c(),
        text_on_accent: c(),
        success: c(),
        warning: c(),
        error: c(),
        math: c(),
        mono: c(),
        rule: c(),
        toc_dim: c(),
        bookmark_bg: c(),
        cursor_bg: c(),
        cursor_fg: c(),
        search_match_bg: c(),
        search_match_fg: c(),
    }
}

#[test]
fn theme_roles_read_back_what_was_written() {
    let mut t = colors();
    assert!(t.set_role("accent", "#112233".to_string()));
    assert_eq!(t.get_role("accent"), Some("#112233"));
    assert_eq!(t.get_role("header"), Some("#000000"));
    assert!(!t.set_role("bg_code", "#FFFFFF".to_string()));
    assert_eq!(t.bg_code, "#000000");
    assert_eq!(t.get_role("nope"), None);
    let roles = custom_theme_roles();
    assert_eq!(roles.len(), 14);
    for r in roles {
        assert!(t.get_role(r.key).is_some());
    }
}

#[test]
fn sources_are_on_unless_switched_off() {
    let mut s = SourcesConfig::default();
    assert!(s.is_enabled("openai"));
    assert!(!s.is_enabled("core"));
    assert!(s.is_enabled("not-listed"));
    s.set_enabled("openai", false);
    assert!(!s.is_enabled("openai"));
    assert!(s.is_enabled("bair"));
    s.set_enabled("core", true);
    assert!(s.is_enabled("core"));
    assert_eq!(s.arxiv_categories, vec!["cs.LG".to_string(), "cs.AI".to_string(), "stat.ML".to_string()]);
    assert!(predefined_sources().contains(&"huggingface"));
    assert!(known_arxiv_cats().iter().any(|(code, _)| *code == "cs.LG"));
}

fn ts(secs: i64) -> Timestamp {
    Timestamp { secs, nanos: 0 }
}

fn meta() -> HistoryPaperMeta {
    HistoryPaperMeta {
        authors: vec!["A".to_string()],
        source_platform: SourcePlatform::ArXiv,
        published_at: "2024-01-01".to_string(),
        summary_short: "s".to_string(),
    }
}

#[test]
fn history_moves_repeated_paper_to_front() {
    let mut h: Vec<HistoryEntry> = Vec::new();
    record_paper_at(&mut h, "u1".into(), "One".into(), "arxiv".into(), meta(), ts(100));
    record_paper_at(&mut h, "u2".into(), "Two".into(), "arxiv".into(), meta(), ts(200));
    record_paper_at(&mut h, "u1".into(), "One again".into(), "arxiv".into(), meta(), ts(300));
    assert_eq!(h.len(), 2);
    assert_eq!(h[0].key, "u1");
    assert_eq!(h[0].visit_count, 2);
    assert_eq!(h[0].opened_at, ts(300));
    assert_eq!(h[1].key, "u2");
    assert_eq!(h[1].visit_count, 1);
    assert_eq!(h[0].kind, HistoryKind::Paper);
}

#[test]
fn history_is_capped() {
    let mut h: Vec<HistoryEntry> = Vec::new();
    for i in 0..(HISTORY_CAP + 5) {
        record_paper_at(&mut h, format!("u{i}"), "t".into(), "s".into(), meta(), ts(i as i64));
    }
    assert_eq!(h.len(), HISTORY_CAP);
    assert_eq!(h[0].key, format!("u{}", HISTORY_CAP + 4));
}

#[test]
fn record_paper_uses_the_clock() {
    let mut h: Vec<HistoryEntry> = Vec::new();
    record_paper(&mut h, "u".into(), "t".into(), "s".into(), meta());
    assert_eq!(h.len(), 1);
    assert!(h[0].opened_at.secs > 1_600_000_000);
}

#[test]
fn repeated_query_within_a_minute_refreshes_in_place() {
    let mut h: Vec<HistoryEntry> = Vec::new();
    record_query_at(&mut h, "rl".into(), "papers", ts(1000));
    record_query_at(&mut h, "rl".into(), "sota", ts(1030));
    assert_eq!(h.len(), 1);
    assert_eq!(h[0].visit_count, 2);
    assert_eq!(h[0].source, "sota");
    record_query_at(&mut h, "other".into(), "papers", ts(1040));
    record_query_at(&mut h, "rl".into(), "papers", ts(5000));
    assert_eq!(h.len(), 2);
    assert_eq!(h[0].key, "rl");
    assert_eq!(h[0].visit_count, 3);
    assert_eq!(h[0].title, "rl");
    assert_eq!(h[1].key, "other");
}

#[test]
fn formats_time_ago() {
    assert_eq!(format_ago(ts(0), ts(59)), "now");
    assert_eq!(format_ago(ts(100), ts(0)), "now");
    assert_eq!(format_ago(ts(0), ts(60)), "1m ago");
    assert_eq!(format_ago(ts(0), ts(7200)), "2h ago");
    assert_eq!(format_ago(ts(0), ts(3 * 86400)), "3d ago");
    assert_eq!(format_ago(ts(0), ts(14 * 86400)), "2w ago");
    assert_eq!(format_ago(ts(0), ts(65 * 86400)), "2mo ago");
}

#[test]
fn history_filters_cycle_and_nest() {
    let mut f = HistoryFilter::All;
    let mut labels = Vec::new();
    for _ in 0..6 {
        labels.push(f.label());
        assert_eq!(f.next().prev(), f);
        f = f.next();
    }
    assert_eq!(f, HistoryFilter::All);
    assert_eq!(labels, vec!["All", "Today", "24h", "48h", "Week", "Month"]);
    let now = ts(10 * 86400 + 100);
    let two_days = ts(8 * 86400 + 50);
    assert!(!HistoryFilter::Last24h.matches_time(two_days, now));
    assert!(!HistoryFilter::Last48h.matches_time(two_days, now));
    assert!(HistoryFilter::Week.matches_time(two_days, now));
    assert!(HistoryFilter::Month.matches_time(two_days, now));
    assert!(HistoryFilter::Today.matches_time(ts(10 * 86400), now));
    assert!(!HistoryFilter::Today.matches_time(ts(10 * 86400 - 1), now));
    assert!(HistoryFilter::Last24h.matches_time(ts(20 * 86400), now));
}

#[test]
fn tags_add_remove_and_count() {
    let mut t = ItemTags::new();
    add(&mut t, "u1", "  Robotics ".to_string());
    add(&mut t, "u1", "agents".to_string());
    add(&mut t, "u1", "robotics".to_string());
    add(&mut t, "u2", "agents".to_string());
    add(&mut t, "u3", "   ".to_string());
    assert_eq!(for_url(&t, "u1").to_vec(), vec!["agents".to_string(), "robotics".to_string()]);
    assert_eq!(count_for(&t, "agents"), 2);
    assert_eq!(all_tags(&t), vec!["agents".to_string(), "robotics".to_string()]);
    assert!(for_url(&t, "u3").is_empty());
    remove(&mut t, "u1", "agents");
    assert_eq!(for_url(&t, "u1").to_vec(), vec!["robotics".to_string()]);
    remove(&mut t, "u2", "AGENTS");
    assert!(for_url(&t, "u2").is_empty());
    assert_eq!(count_for(&t, "agents"), 0);
    assert_eq!(normalize("  MiXed "), "mixed");
}

#[test]
fn removing_an_added_tag_restores_the_list() {
    let mut t = ItemTags::new();
    add(&mut t, "u", "a".to_string());
    let before = for_url(&t, "u").to_vec();
    add(&mut t, "u", "b".to_string());
    remove(&mut t, "u", "b");
    assert_eq!(for_url(&t, "u").to_vec(), before);
}

#[test]
fn library_filters_cycle_and_partition() {
    assert_eq!(LibraryFilter::All.next(), LibraryFilter::Queue);
    assert_eq!(LibraryFilter::All.prev(), LibraryFilter::Archived);
    assert_eq!(LibraryFilter::Read.label(), "Read");
    assert!(LibraryFilter::All.matches(WorkflowState::Queued));
    assert!(LibraryFilter::All.matches(WorkflowState::DeepRead));
    assert!(!LibraryFilter::All.matches(WorkflowState::Inbox));
    assert!(LibraryFilter::Archived.matches(WorkflowState::Archived));
    assert!(!LibraryFilter::Queue.matches(WorkflowState::DeepRead));
}

#[test]
fn themes_cycle_with_period_three() {
    assert_eq!(ThemeId::Dark.cycle().cycle().cycle(), ThemeId::Dark);
    assert_eq!(ThemeId::Light.label(), "light");
    assert_eq!(ThemeId::Dark.cycle(), ThemeId::Light);
}

#[test]
fn session_keeps_first_and_latest_messages() {
    let mut s = SessionHistory::default();
    assert!(s.is_empty());
    for i in 0..50 {
        s.messages.push(serde_json::Value::from(i));
    }
    s.initial_query = "q".into();
    s.query_intent = QueryIntent::SotaLookup;
    s.truncate_to_limit();
    assert_eq!(s.messages.len(), MAX_SESSION_MESSAGES);
    assert_eq!(s.messages[0], serde_json::Value::from(0));
    assert_eq!(s.messages[1], serde_json::Value::from(11));
    assert_eq!(s.messages[39], serde_json::Value::from(49));
    assert_eq!(s.initial_query, "q");
    let before = s.messages.clone();
    s.truncate_to_limit();
    assert_eq!(s.messages, before);
    assert!(!s.is_empty());
}

fn feed_item(title: &str, source_name: &str) -> FeedItem {
    FeedItem {
        id: "x".into(),
        title: title.into(),
        source_platform: SourcePlatform::HuggingFace,
        content_type: ContentType::Paper,
        domain_tags: vec![],
        signal: SignalLevel::Primary,
        published_at: String::new(),
        authors: vec![],
        summary_short: String::new(),
        workflow_state: WorkflowState::Inbox,
        url: "u".into(),
        upvote_count: 0,
        github_repo: None,
        github_owner: None,
        github_repo_name: None,
        benchmark_results: vec![],
        full_content: None,
        source_name: source_name.into(),
        title_lower: String::new(),
        authors_lower: Vec::new(),
    }
}

fn tab(id: &str) -> NotesTab {
    NotesTab { note_id: id.into(), title: id.into() }
}

#[test]
fn ui_state_remembers_last_read() {
    let mut ui = UiState::default();
    ui.mark_read(&feed_item("Paper", ""));
    assert_eq!(ui.last_read.as_deref(), Some("Paper"));
    assert_eq!(ui.last_read_source.as_deref(), Some("hf"));
    ui.mark_read(&feed_item("Post", "openai"));
    assert_eq!(ui.last_read_source.as_deref(), Some("openai"));
}

#[test]
fn notes_tabs_move_and_close() {
    let mut ui = UiState::default();
    ui.notes_next_tab();
    assert_eq!(ui.notes_active_tab, 0);
    assert!(!ui.notes_close_active_tab());
    ui.notes_tabs = vec![tab("a"), tab("b"), tab("c")];
    ui.notes_next_tab();
    ui.notes_next_tab();
    ui.notes_next_tab();
    assert_eq!(ui.notes_active_tab, 2);
    ui.notes_prev_tab();
    assert_eq!(ui.notes_active_tab, 1);
    assert!(ui.notes_close_active_tab());
    assert_eq!(ui.notes_tabs.iter().map(|t| t.note_id.clone()).collect::<Vec<_>>(), vec!["a", "c"]);
    assert_eq!(ui.notes_active_tab, 1);
    // A stale saved index is clamped before closing.
    ui.notes_active_tab = 9;
    assert!(ui.notes_close_active_tab());
    assert_eq!(ui.notes_tabs.len(), 1);
    assert_eq!(ui.notes_tabs[0].note_id, "a");
    assert_eq!(ui.notes_active_tab, 0);
    assert!(!ui.notes_close_active_tab());
    assert!(ui.notes_tabs.is_empty());
}

#[test]
fn load_progress_follows_reports() {
    let mut p = LoadProgress {
        loading_sources: vec!["arxiv".into(), "openai".into(), "arxiv".into()],
        loaded_sources: vec![],
        status_message: None,
        is_loading: true,
        is_refreshing: true,
    };
    p.apply(&FetchMessage::Items(vec![]));
    assert_eq!(p.loading_sources.len(), 3);
    p.apply(&FetchMessage::SourceComplete("arxiv".into()));
    assert_eq!(p.loading_sources, vec!["openai".to_string()]);
    assert_eq!(p.loaded_sources, vec!["arxiv".to_string()]);
    p.apply(&FetchMessage::SourceError("openai".into(), "timeout".into()));
    assert!(p.loading_sources.is_empty());
    assert_eq!(p.status_message.as_deref(), Some("timeout"));
    assert!(p.is_loading);
    p.apply(&FetchMessage::AllComplete);
    assert!(!p.is_loading);
    assert!(!p.is_refreshing);
}
