use trench::sources_popup::{sources_popup_rows, sources_popup_scroll};
use trench::app::{DiscoverResult, SourcesDetectState};
use trench::config::{CustomFeed, SourcesConfig};
use trench::input::Key;
use trench::sources_popup::{sources_popup_arxiv_cats, PopupAction, SourcesPopup};

fn ch(c: char) -> Key {
    Key::Char { c, ctrl: false }
}

fn config() -> SourcesConfig {
    let mut s = SourcesConfig::default();
    s.arxiv_categories.push("q-bio.NC".into());
    s.custom_feeds.push(CustomFeed { url: "https://x.dev/rss".into(), name: "x.dev".into(), feed_type: "rss".into() });
    s
}

#[test]
fn category_rows_list_known_then_user_categories() {
    let cats = sources_popup_arxiv_cats(&config());
    assert_eq!(cats.len(), 8);
    assert_eq!(cats[0], ("cs.LG".to_string(), "machine learning".to_string()));
    assert_eq!(cats[7], ("q-bio.NC".to_string(), String::new()));
}

#[test]
fn space_toggles_categories_and_sources() {
    let mut s = config();
    let mut p = SourcesPopup::new();
    p.handle_key(ch('j'), &mut s);
    assert!(matches!(p.handle_key(ch(' '), &mut s), PopupAction::Changed { refresh: true }));
    assert!(!s.arxiv_categories.iter().any(|c| c == "cs.LG"));
    p.handle_key(ch(' '), &mut s);
    assert!(s.arxiv_categories.iter().any(|c| c == "cs.LG"));
    // row 9 is the first built-in source
    for _ in 0..8 {
        p.handle_key(Key::Down, &mut s);
    }
    assert_eq!(p.cursor, 9);
    assert!(s.is_enabled("huggingface"));
    p.handle_key(ch(' '), &mut s);
    assert!(!s.is_enabled("huggingface"));
}

#[test]
fn d_deletes_a_custom_feed_and_cursor_stops_at_the_last_row() {
    let mut s = config();
    let mut p = SourcesPopup::new();
    for _ in 0..30 {
        p.handle_key(ch('j'), &mut s);
    }
    assert_eq!(p.cursor, 17);
    assert!(matches!(p.handle_key(ch('d'), &mut s), PopupAction::Changed { refresh: false }));
    assert!(s.custom_feeds.is_empty());
    assert_eq!(p.cursor, 16);
    assert!(matches!(p.handle_key(ch('d'), &mut s), PopupAction::Nothing));
    assert!(matches!(p.handle_key(ch('q'), &mut s), PopupAction::Close));
    assert_eq!(p.cursor, 0);
}

#[test]
fn add_source_field_detects_then_adds() {
    let mut s = config();
    let mut p = SourcesPopup::new();
    p.handle_key(Key::Enter, &mut s);
    assert!(p.input_active);
    for c in "cs.CR".chars() {
        p.handle_key(ch(c), &mut s);
    }
    match p.handle_key(Key::Enter, &mut s) {
        PopupAction::Detect(u) => assert_eq!(u, "cs.CR"),
        other => panic!("expected detection, got {other:?}"),
    }
    assert!(matches!(p.detect, SourcesDetectState::Detecting));
    p.detect = SourcesDetectState::Result(DiscoverResult::ArxivCategory("cs.CR".into()));
    assert!(matches!(p.handle_key(Key::Enter, &mut s), PopupAction::Changed { refresh: true }));
    assert!(s.arxiv_categories.iter().any(|c| c == "cs.CR"));
    assert!(!p.input_active);
    assert_eq!(p.input, "");
}

#[test]
fn sources_popup_scroll_follows_cursor() {
    assert_eq!(sources_popup_scroll(0, 2, 5, 20), 0);
    assert_eq!(sources_popup_scroll(1, 2, 5, 5), 4);
    assert_eq!(sources_popup_scroll(3, 2, 5, 10), 4);
    assert_eq!(sources_popup_scroll(10, 2, 5, 10), 14);
    assert_eq!(sources_popup_scroll(10, 2, 5, 40), 0);
    assert_eq!(sources_popup_scroll(0, 0, 0, 0), 2);
}

#[test]
fn sources_popup_rows_show_checkboxes_in_cursor_order() {
    let rows = sources_popup_rows(&config());
    let expected: Vec<(String, bool)> = [
        ("cs.LG", true),
        ("cs.AI", true),
        ("cs.CL", false),
        ("cs.CV", false),
        ("cs.NE", false),
        ("cs.RO", false),
        ("stat.ML", true),
        ("q-bio.NC", true),
        ("huggingface", true),
        ("openai", true),
        ("deepmind", true),
        ("import_ai", true),
        ("bair", true),
        ("mit_news_ai", true),
        ("openreview", true),
        ("core", false),
        ("x.dev", true),
    ]
    .iter()
    .map(|(n, b)| (n.to_string(), *b))
    .collect();
    assert_eq!(rows, expected);
}
