use trench::commands::parser::SlashCommandInvocation;
use trench::input::{clamp_discovery_palette_scroll, clamp_theme_picker_scroll, BarAction, DiscoveryBar, Key};

fn ch(c: char) -> Key {
    Key::Char { c, ctrl: false }
}

fn typed(text: &str) -> DiscoveryBar {
    let mut bar = DiscoveryBar::new();
    bar.focused = true;
    for c in text.chars() {
        bar.handle_key(ch(c), false);
    }
    bar
}

#[test]
fn unfocused_bar_takes_characters_but_q() {
    let mut bar = DiscoveryBar::new();
    assert!(matches!(bar.handle_key(ch('q'), false), BarAction::Pass));
    assert!(matches!(bar.handle_key(Key::Down, false), BarAction::Pass));
    assert!(!bar.focused);
    assert!(matches!(bar.handle_key(ch('x'), false), BarAction::Nothing));
    assert!(bar.focused);
    assert_eq!(bar.query, "x");
}

#[test]
fn palette_selection_stops_at_the_last_command_and_scrolls() {
    let mut bar = typed("/");
    for _ in 0..12 {
        bar.handle_key(Key::Down, false);
    }
    assert_eq!(bar.palette_selected, 8);
    assert_eq!(bar.palette_scroll, 1);
    for _ in 0..8 {
        bar.handle_key(Key::Up, false);
    }
    assert_eq!(bar.palette_selected, 0);
    assert_eq!(bar.palette_scroll, 0);
    bar.handle_key(Key::Up, false);
    assert_eq!(bar.palette_selected, 0);
}

#[test]
fn tab_completes_the_selected_command() {
    let mut bar = typed("/c");
    bar.handle_key(Key::Down, false);
    assert_eq!(bar.palette_selected, 1);
    bar.handle_key(Key::Tab, false);
    assert_eq!(bar.query, "/compare ");
    assert_eq!(bar.palette_selected, 0);
}

#[test]
fn enter_runs_a_command_and_clears_the_bar() {
    let mut bar = typed("/digest");
    let act = bar.handle_key(Key::Enter, false);
    assert!(matches!(act, BarAction::Command(SlashCommandInvocation::Digest)));
    assert_eq!(bar.query, "");
    assert!(!bar.focused);
}

#[test]
fn enter_starts_a_search_unless_one_is_running() {
    let mut bar = typed("graph nets");
    assert!(matches!(bar.handle_key(Key::Enter, true), BarAction::Nothing));
    match bar.handle_key(Key::Enter, false) {
        BarAction::Discover(q) => assert_eq!(q, "graph nets"),
        other => panic!("expected a search, got {other:?}"),
    }
    assert_eq!(bar.query, "graph nets");
    assert!(bar.focused);
}

#[test]
fn ctrl_n_starts_fresh_and_other_ctrl_keys_type() {
    let mut bar = typed("abc");
    bar.handle_key(Key::Char { c: 'a', ctrl: true }, false);
    assert_eq!(bar.query, "abca");
    bar.handle_key(Key::Char { c: 'n', ctrl: true }, false);
    assert_eq!(bar.query, "");
    assert!(bar.force_new);
}

#[test]
fn backspace_keeps_the_palette_selection_while_still_a_command() {
    let mut bar = typed("/c");
    bar.handle_key(Key::Down, false);
    bar.handle_key(Key::Backspace, false);
    assert_eq!(bar.query, "/");
    assert_eq!(bar.palette_selected, 1);
    bar.handle_key(Key::Backspace, false);
    assert_eq!(bar.query, "");
    assert_eq!(bar.palette_selected, 0);
    bar.handle_key(Key::Backspace, false);
    assert_eq!(bar.query, "");
    bar.handle_key(Key::Esc, false);
    assert!(!bar.focused);
}

#[test]
fn scroll_windows_follow_the_selection() {
    assert_eq!(clamp_discovery_palette_scroll(8, 0), 1);
    assert_eq!(clamp_discovery_palette_scroll(2, 5), 2);
    assert_eq!(clamp_discovery_palette_scroll(3, 1), 1);
    assert_eq!(clamp_theme_picker_scroll(12, 0), 3);
    assert_eq!(clamp_theme_picker_scroll(0, 4), 0);
    assert_eq!(clamp_theme_picker_scroll(9, 0), 0);
}
