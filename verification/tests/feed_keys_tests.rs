use trench::app::{FeedTab, PaneId};
use trench::feed_keys::{FeedAction, FeedContext, FeedKeys, FeedPos};
use trench::input::Key;
use trench::models::WorkflowState;

fn keys() -> FeedKeys {
    FeedKeys {
        pos: FeedPos {
            feed_tab: FeedTab::Inbox,
            search_active: false,
            filter_focus: false,
            reader_split_active: false,
            narrow_details_open: false,
            details_scroll: 3,
            focused_pane: PaneId::Feed,
            selected: 2,
            list_offset: 1,
        },
        search_query: String::new(),
    }
}

fn ctx(n: usize) -> FeedContext {
    FeedContext { visible_count: n, scroll_ok: true, fulltext_loading: false, refreshing: false }
}

fn ch(c: char) -> Key {
    Key::Char { c, ctrl: false }
}

#[test]
fn tabs_cycle_and_reset_the_position() {
    let mut k = keys();
    assert_eq!(k.feed_view_key(Key::Tab, ctx(5)), FeedAction::ViewChanged);
    assert_eq!(k.pos.feed_tab, FeedTab::Library);
    assert_eq!((k.pos.selected, k.pos.list_offset, k.pos.details_scroll), (0, 0, 0));
    k.feed_view_key(Key::BackTab, ctx(5));
    k.feed_view_key(Key::BackTab, ctx(5));
    assert_eq!(k.pos.feed_tab, FeedTab::History);
}

#[test]
fn moving_stays_in_the_list() {
    let mut k = keys();
    assert_eq!(k.feed_view_key(ch('j'), ctx(4)), FeedAction::Moved);
    assert_eq!(k.pos.selected, 3);
    k.feed_view_key(Key::Down, ctx(4));
    assert_eq!(k.pos.selected, 3);
    assert_eq!(k.feed_view_key(ch('j'), ctx(0)), FeedAction::Nothing);
    k.feed_view_key(ch('g'), ctx(4));
    assert_eq!(k.pos.selected, 0);
    k.feed_view_key(ch('k'), ctx(4));
    assert_eq!(k.pos.selected, 0);
    k.feed_view_key(ch('G'), ctx(4));
    assert_eq!(k.pos.selected, 3);
}

#[test]
fn search_field_edits_its_text() {
    let mut k = keys();
    k.feed_view_key(ch('/'), ctx(4));
    assert!(k.pos.search_active);
    for c in "rlhf".chars() {
        k.feed_view_key(ch(c), ctx(4));
    }
    k.feed_view_key(Key::Backspace, ctx(4));
    assert_eq!(k.search_query, "rlh");
    k.feed_view_key(Key::Enter, ctx(4));
    assert!(!k.pos.search_active);
    assert_eq!(k.search_query, "rlh");
    k.feed_view_key(ch('/'), ctx(4));
    k.feed_view_key(ch('a'), ctx(4));
    k.feed_view_key(Key::Esc, ctx(4));
    assert_eq!(k.search_query, "");
}

#[test]
fn item_keys_ask_for_actions() {
    let mut k = keys();
    assert_eq!(k.feed_view_key(ch('r'), ctx(4)), FeedAction::SetWorkflow(WorkflowState::DeepRead));
    assert_eq!(k.feed_view_key(Key::Enter, ctx(4)), FeedAction::OpenSelected);
    assert_eq!(k.feed_view_key(Key::Enter, ctx(1)), FeedAction::Nothing);
    let busy = FeedContext { refreshing: true, ..ctx(4) };
    assert_eq!(k.feed_view_key(ch('R'), busy), FeedAction::AlreadyRefreshing);
    assert_eq!(k.feed_view_key(ch('f'), ctx(4)), FeedAction::Nothing);
    assert!(k.pos.filter_focus);
    assert_eq!(k.feed_view_key(ch(' '), ctx(4)), FeedAction::ToggleFilterAtCursor);
    assert_eq!(k.feed_view_key(Key::Esc, ctx(4)), FeedAction::ClearFilters);
    assert!(!k.pos.filter_focus);
}

#[test]
fn narrow_feed_beside_the_reader() {
    let mut k = keys();
    k.pos.reader_split_active = true;
    k.feed_view_key(ch('d'), ctx(4));
    assert!(k.pos.narrow_details_open);
    k.feed_view_key(ch('j'), ctx(4));
    assert_eq!(k.pos.details_scroll, 1);
    k.feed_view_key(ch('q'), ctx(4));
    assert!(!k.pos.narrow_details_open);
    assert_eq!(k.feed_view_key(Key::Enter, ctx(4)), FeedAction::OpenSelected);
    assert_eq!(k.pos.focused_pane, PaneId::Reader);
}
