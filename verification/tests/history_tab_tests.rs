use trench::history::{HistoryEntry, HistoryFilter, HistoryKind, HistoryPaperMeta, Timestamp};
use trench::history_tab::{HistoryAction, HistoryTab};
use trench::input::Key;
use trench::models::SourcePlatform;
use trench::sets::StrSet;

const NOW: Timestamp = Timestamp { secs: 1_700_000_000, nanos: 0 };

fn entry(kind: HistoryKind, key: &str, title: &str, age_secs: i64, meta: bool) -> HistoryEntry {
    HistoryEntry {
        kind,
        key: key.into(),
        title: title.into(),
        source: "arXiv".into(),
        paper_meta: if meta {
            Some(HistoryPaperMeta {
                authors: vec!["A. Author".into()],
                source_platform: SourcePlatform::ArXiv,
                published_at: "2024-01-01".into(),
                summary_short: "s".into(),
            })
        } else {
            None
        },
        opened_at: Timestamp { secs: NOW.secs - age_secs, nanos: 0 },
        visit_count: 1,
    }
}

fn sample() -> Vec<HistoryEntry> {
    vec![
        entry(HistoryKind::Paper, "https://arxiv.org/abs/1", "A very long paper title that will not fit in forty", 60, true),
        entry(HistoryKind::Query, "sparse attention", "sparse attention", 120, false),
        entry(HistoryKind::Paper, "https://blog.example/post", "Blog post", 3 * 86_400, false),
    ]
}

fn ch(c: char) -> Key {
    Key::Char { c, ctrl: false }
}

#[test]
fn history_cursor_moves_within_the_shown_rows() {
    let mut h = sample();
    let mut tab = HistoryTab::new();
    let none = StrSet::new();
    for _ in 0..5 {
        tab.handle_key(ch('j'), &mut h, NOW, "", &none);
    }
    assert_eq!(tab.selected_index, 2);
    tab.handle_key(ch('g'), &mut h, NOW, "", &none);
    assert_eq!(tab.selected_index, 0);
    tab.handle_key(ch('G'), &mut h, NOW, "", &none);
    assert_eq!(tab.selected_index, 2);
    tab.handle_key(Key::Up, &mut h, NOW, "", &none);
    assert_eq!(tab.selected_index, 1);
    tab.handle_key(ch(']'), &mut h, NOW, "", &none);
    assert_eq!(tab.filter, HistoryFilter::Today);
    assert_eq!(tab.selected_index, 0);
    tab.handle_key(ch('G'), &mut h, NOW, "", &none);
    assert_eq!(tab.selected_index, 1);
    assert!(matches!(tab.handle_key(ch('z'), &mut h, NOW, "", &none), HistoryAction::Pass));
    assert!(matches!(tab.handle_key(ch('d'), &mut h, NOW, "", &none), HistoryAction::Pass));
}

#[test]
fn ctrl_d_deletes_the_entry_and_keeps_the_cursor_on_a_row() {
    let mut h = sample();
    let mut tab = HistoryTab::new();
    let none = StrSet::new();
    tab.handle_key(ch('G'), &mut h, NOW, "", &none);
    let act = tab.handle_key(Key::Char { c: 'd', ctrl: true }, &mut h, NOW, "", &none);
    assert!(matches!(act, HistoryAction::Deleted));
    assert_eq!(h.len(), 2);
    assert_eq!(tab.selected_index, 1);
    assert!(h.iter().all(|e| e.key != "https://blog.example/post"));
}

#[test]
fn o_and_enter_reopen_papers_and_queries() {
    let mut h = sample();
    let mut tab = HistoryTab::new();
    let none = StrSet::new();
    match tab.handle_key(ch('o'), &mut h, NOW, "", &none) {
        HistoryAction::OpenInBrowser { url, notice } => {
            assert_eq!(url, "https://arxiv.org/abs/1");
            assert_eq!(notice, "Opened in browser: A very long paper title that will not fi…");
        }
        other => panic!("expected the browser, got {other:?}"),
    }
    match tab.handle_key(Key::Enter, &mut h, NOW, "", &none) {
        HistoryAction::Reopen { item, notice } => {
            assert_eq!(item.url, "https://arxiv.org/abs/1");
            assert_eq!(notice, "Fetching: A very long paper title that will not fi……");
        }
        other => panic!("expected a reopen, got {other:?}"),
    }
    tab.handle_key(ch('j'), &mut h, NOW, "", &none);
    match tab.handle_key(Key::Enter, &mut h, NOW, "", &none) {
        HistoryAction::Rerun(topic) => assert_eq!(topic, "sparse attention"),
        other => panic!("expected a rerun, got {other:?}"),
    }
    assert!(matches!(tab.handle_key(ch('o'), &mut h, NOW, "", &none), HistoryAction::Handled));
    tab.handle_key(ch('j'), &mut h, NOW, "", &none);
    assert!(matches!(tab.handle_key(Key::Enter, &mut h, NOW, "", &none), HistoryAction::Handled));
}

#[test]
fn search_narrows_the_rows() {
    let mut h = sample();
    let mut tab = HistoryTab::new();
    let none = StrSet::new();
    tab.handle_key(ch('G'), &mut h, NOW, "BLOG", &none);
    assert_eq!(tab.selected_index, 0);
}
