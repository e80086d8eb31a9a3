use trench::app::{FocusedReader, NavDirection, PaneId};
use trench::input::Key;
use trench::leader::{Layout, LeaderAction, LeaderContext};

fn layout() -> Layout {
    Layout {
        leader_active: true,
        notes_active: false,
        chat_active: false,
        chat_fullscreen: false,
        chat_at_top: false,
        reader_active: false,
        reader_split_active: false,
        reader_dual_active: false,
        reader_bottom_open: false,
        reader_bottom_focused: false,
        reader_bottom_details: false,
        reader_bottom_scroll: 0,
        fulltext_for_secondary: false,
        focused_pane: PaneId::Feed,
        focused_reader: FocusedReader::Primary,
        help_active: false,
        help_section: 0,
        help_scroll: 0,
    }
}

fn ctx() -> LeaderContext {
    LeaderContext { fulltext_loading: false, popup_active: false, has_selection: true, chat_in_session: true }
}

fn ch(c: char) -> Key {
    Key::Char { c, ctrl: false }
}

#[test]
fn chat_opens_and_closes() {
    let mut l = layout();
    assert_eq!(l.leader_key(ch('c'), ctx()), LeaderAction::EnsureChat);
    assert!(l.chat_active && !l.leader_active);
    assert_eq!(l.focused_pane, PaneId::Chat);
    l.leader_active = true;
    assert_eq!(l.leader_key(ch('c'), ctx()), LeaderAction::Nothing);
    assert!(!l.chat_active);
    assert_eq!(l.focused_pane, PaneId::Feed);
}

#[test]
fn f_cycles_the_reader_states() {
    let mut l = layout();
    l.reader_active = true;
    l.focused_pane = PaneId::Reader;
    l.leader_key(ch('f'), ctx());
    assert!(l.reader_split_active);
    assert_eq!(l.focused_pane, PaneId::Feed);
    assert_eq!(l.leader_key(ch('f'), ctx()), LeaderAction::FetchSecondary);
    assert!(l.reader_dual_active && l.fulltext_for_secondary);
    assert_eq!(l.focused_pane, PaneId::Reader);
    l.leader_key(ch('f'), ctx());
    assert!(l.reader_bottom_open && l.reader_bottom_focused);
    l.leader_key(ch('f'), ctx());
    assert!(!l.reader_bottom_open);
}

#[test]
fn navigation_keeps_the_leader_and_esc_closes_readers() {
    let mut l = layout();
    assert_eq!(l.leader_key(ch('l'), ctx()), LeaderAction::Navigate(NavDirection::Right));
    assert!(l.leader_active);
    assert_eq!(l.leader_key(ch('2'), ctx()), LeaderAction::FocusNumber(2));
    assert!(!l.leader_active);
    l.reader_active = true;
    l.reader_dual_active = true;
    l.focused_pane = PaneId::SecondaryReader;
    l.focused_reader = FocusedReader::Secondary;
    assert_eq!(l.leader_key(Key::Esc, ctx()), LeaderAction::ClearReaderTabs);
    assert!(!l.reader_active && !l.reader_dual_active);
    assert_eq!(l.focused_pane, PaneId::Feed);
    assert_eq!(l.focused_reader, FocusedReader::Primary);
}

#[test]
fn closing_the_last_tab_folds_the_readers() {
    let mut l = layout();
    l.reader_active = true;
    l.reader_dual_active = true;
    l.focused_pane = PaneId::Reader;
    assert_eq!(l.leader_key(ch('w'), ctx()), LeaderAction::CloseTab(PaneId::Reader));
    assert!(l.after_tab_closed(PaneId::Reader, true));
    assert!(!l.reader_dual_active);
    assert_eq!(l.focused_pane, PaneId::Feed);
    assert!(!l.after_tab_closed(PaneId::Reader, false));
}

#[test]
fn enter_opens_the_popup_reader_only_when_idle() {
    let mut l = layout();
    assert_eq!(l.leader_key(Key::Enter, ctx()), LeaderAction::OpenPopupReader);
    let busy = LeaderContext { fulltext_loading: true, ..ctx() };
    assert_eq!(l.leader_key(Key::Enter, busy), LeaderAction::Nothing);
    assert_eq!(l.leader_key(ch('t'), busy), LeaderAction::Nothing);
    assert_eq!(l.leader_key(ch('t'), ctx()), LeaderAction::OpenTab);
}
