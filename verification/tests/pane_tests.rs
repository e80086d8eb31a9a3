use trench::app::{FocusedReader, NavDirection, PaneId};
use trench::mouse::{mouse_action, MouseAction, MouseInput, MouseKind};
use trench::panes::{Panes, Rect};

fn rect(x: u16, y: u16, width: u16, height: u16) -> Rect {
    Rect { x, y, width, height }
}

/// Feed on the left, reader top right, notes bottom right, details strip
/// under the feed; chat and the secondary panes closed.
fn laid_out() -> Panes {
    let mut panes = Panes::new();
    let rects = vec![
        Some(rect(0, 0, 40, 20)),
        Some(rect(40, 0, 40, 12)),
        Some(rect(40, 12, 40, 12)),
        Some(rect(0, 20, 40, 4)),
        None,
        None,
        None,
    ];
    panes.update_pane_rects(&rects);
    panes
}

#[test]
fn new_registry_has_every_pane_closed() {
    let panes = Panes::new();
    assert_eq!(panes.panes.len(), 7);
    assert!(panes.panes.iter().all(|p| !p.is_open));
    assert_eq!(panes.pane(PaneId::Chat).id, PaneId::Chat);
}

#[test]
fn update_marks_rendered_panes_open_and_keeps_old_rects() {
    let mut panes = laid_out();
    assert!(panes.pane(PaneId::Reader).is_open);
    assert!(!panes.pane(PaneId::Chat).is_open);
    let rects = vec![Some(rect(0, 0, 80, 24)), None, None, None, None, None, None];
    panes.update_pane_rects(&rects);
    let reader = panes.pane(PaneId::Reader);
    assert!(!reader.is_open);
    assert_eq!(reader.rect, rect(40, 0, 40, 12));
}

#[test]
fn hit_testing_finds_the_pane_under_a_cell() {
    let panes = laid_out();
    assert_eq!(panes.pane_at(5, 5), Some(PaneId::Feed));
    assert_eq!(panes.pane_at(79, 11), Some(PaneId::Reader));
    assert_eq!(panes.pane_at(40, 12), Some(PaneId::Notes));
    assert_eq!(panes.pane_at(3, 21), Some(PaneId::Details));
    assert_eq!(panes.focusable_pane_at(3, 21), None);
    assert_eq!(panes.pane_at(80, 0), None);
    assert_eq!(panes.pane_at(0, 24), None);
}

#[test]
fn directional_focus_picks_the_nearest_centre() {
    let panes = laid_out();
    assert_eq!(panes.find_pane_in_direction(PaneId::Feed, NavDirection::Right), Some(PaneId::Reader));
    assert_eq!(panes.find_pane_in_direction(PaneId::Feed, NavDirection::Left), None);
    assert_eq!(panes.find_pane_in_direction(PaneId::Reader, NavDirection::Down), Some(PaneId::Notes));
    assert_eq!(panes.find_pane_in_direction(PaneId::Notes, NavDirection::Up), Some(PaneId::Reader));
    assert_eq!(panes.find_pane_in_direction(PaneId::Notes, NavDirection::Left), Some(PaneId::Feed));
    assert_eq!(panes.find_pane_in_direction(PaneId::Chat, NavDirection::Left), None);
}

#[test]
fn secondary_panes_come_top_to_bottom_then_left_to_right() {
    let panes = laid_out();
    assert_eq!(panes.secondary_panes_sorted(false), vec![PaneId::Reader, PaneId::Notes]);
    assert_eq!(panes.secondary_panes_sorted(true), vec![PaneId::Feed, PaneId::Notes]);
}

#[test]
fn number_keys_pick_primary_then_secondaries() {
    let panes = laid_out();
    assert_eq!(panes.get_pane_by_number(0, false), Some(PaneId::Feed));
    assert_eq!(panes.get_pane_by_number(0, true), Some(PaneId::Reader));
    assert_eq!(panes.get_pane_by_number(1, false), Some(PaneId::Reader));
    assert_eq!(panes.get_pane_by_number(2, false), Some(PaneId::Notes));
    assert_eq!(panes.get_pane_by_number(3, false), None);
    assert_eq!(panes.get_pane_by_number(4, false), None);
}

fn ev(kind: MouseKind, column: u16, row: u16) -> MouseInput {
    MouseInput { kind, column, row }
}

#[test]
fn wheel_scrolls_the_pane_under_the_pointer() {
    let p = laid_out();
    assert_eq!(mouse_action(&p, ev(MouseKind::ScrollDown, 5, 5), 80, 24, false, 10, true), MouseAction::StepSelection { down: true });
    assert_eq!(mouse_action(&p, ev(MouseKind::ScrollUp, 5, 5), 80, 24, true, 10, true), MouseAction::StepFilterCursor { down: false });
    assert_eq!(
        mouse_action(&p, ev(MouseKind::ScrollDown, 50, 15), 80, 24, false, 10, true),
        MouseAction::StepNote { pane: PaneId::Notes, down: true }
    );
    assert_eq!(mouse_action(&p, ev(MouseKind::ScrollDown, 3, 21), 80, 24, false, 10, true), MouseAction::Nothing);
    assert_eq!(mouse_action(&p, ev(MouseKind::ScrollDown, 5, 5), 80, 24, false, 10, false), MouseAction::Nothing);
}

#[test]
fn clicks_jump_on_the_scrollbar_and_focus_panes() {
    let p = laid_out();
    assert_eq!(mouse_action(&p, ev(MouseKind::LeftDown, 29, 11), 80, 24, false, 10, true), MouseAction::JumpTo(5));
    assert_eq!(mouse_action(&p, ev(MouseKind::LeftDown, 29, 17), 80, 24, false, 3, true), MouseAction::JumpTo(2));
    assert_eq!(
        mouse_action(&p, ev(MouseKind::LeftDown, 50, 3), 80, 24, false, 10, true),
        MouseAction::Focus { pane: PaneId::Reader, reader: Some(FocusedReader::Primary), leave_filter: false }
    );
    assert_eq!(
        mouse_action(&p, ev(MouseKind::LeftDown, 2, 2), 80, 24, true, 10, true),
        MouseAction::Focus { pane: PaneId::Feed, reader: None, leave_filter: true }
    );
    assert_eq!(mouse_action(&p, ev(MouseKind::LeftDown, 3, 21), 80, 24, false, 10, true), MouseAction::Nothing);
}
