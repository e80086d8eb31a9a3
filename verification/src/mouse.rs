//! What a mouse event on the feed view does: the wheel scrolls the pane
//! under the pointer, a left click on the feed's scrollbar jumps in the
//! list, and a left click on a pane gives it focus.
use vstd::prelude::*;

use crate::app::{FocusedReader, PaneId};
use crate::panes::Panes;

verus! {

/// Width of the right-hand column of the feed view.
pub const RIGHT_COL_WIDTH: u16 = 50;

/// First row of the feed scrollbar's track.
pub const TRACK_TOP: u16 = 4;

/// Rows under the feed scrollbar's track.
pub const TRACK_BOTTOM_MARGIN: u16 = 6;

/// The kinds of mouse event the feed view reacts to.
#[derive(Clone, Copy, PartialEq, Eq, Debug, Structural)]
pub enum MouseKind {
    ScrollDown,
    ScrollUp,
    LeftDown,
    Other,
}

/// A mouse event: its kind and the cell it happened on.
#[derive(Clone, Copy, PartialEq, Eq, Debug, Structural)]
pub struct MouseInput {
    pub kind: MouseKind,
    pub column: u16,
    pub row: u16,
}

/// What the caller does for a mouse event.
#[derive(Clone, Copy, PartialEq, Eq, Debug, Structural)]
pub enum MouseAction {
    Nothing,
    /// Select the next (`down`) or previous note in this notes pane.
    StepNote { pane: PaneId, down: bool },
    /// Scroll the chat by three lines, down or up.
    ScrollChat { down: bool },
    /// Move the filter panel's cursor down or up.
    StepFilterCursor { down: bool },
    /// Move the feed selection down or up.
    StepSelection { down: bool },
    /// Select this row of the feed list.
    JumpTo(usize),
    /// Focus this pane; `reader` says which reader counts as focused, if
    /// it changes; `leave_filter` says the filter panel loses focus.
    Focus { pane: PaneId, reader: Option<FocusedReader>, leave_filter: bool },
}

/// `a - b`, or 0 when `b` is larger.
pub open spec fn sat_sub(a: int, b: int) -> int {
    if a > b { a - b } else { 0 }
}

/// The wheel's effect on the pane under the pointer.
pub open spec fn wheel_action(hovered: Option<PaneId>, down: bool, filter_focus: bool) -> MouseAction {
    match hovered {
        Some(PaneId::Details) => MouseAction::Nothing,
        Some(PaneId::Notes) => MouseAction::StepNote { pane: PaneId::Notes, down },
        Some(PaneId::SecondaryNotes) => MouseAction::StepNote { pane: PaneId::SecondaryNotes, down },
        Some(PaneId::Chat) => MouseAction::ScrollChat { down },
        _ => if filter_focus {
            MouseAction::StepFilterCursor { down }
        } else {
            MouseAction::StepSelection { down }
        },
    }
}

/// Giving focus to `pane` by a click.
pub open spec fn focus_action(pane: PaneId) -> MouseAction {
    MouseAction::Focus {
        pane,
        reader: match pane {
            PaneId::Reader | PaneId::Notes => Some(FocusedReader::Primary),
            PaneId::SecondaryReader | PaneId::SecondaryNotes => Some(FocusedReader::Secondary),
            _ => None,
        },
        leave_filter: pane == PaneId::Feed,
    }
}

/// What a mouse event does on a `width` × `height` terminal.  `scroll_ok`
/// says whether the wheel is past its debounce interval; `visible` is the
/// number of rows in the feed list.  A left click on the scrollbar column of
/// the feed, between its track's top and bottom, selects the row at the
/// same proportion of the list (the last one at most); any other left click
/// focuses the focusable pane under it.
pub open spec fn spec_mouse_action(
    panes: Panes,
    ev: MouseInput,
    width: u16,
    height: u16,
    filter_focus: bool,
    visible: usize,
    scroll_ok: bool,
) -> MouseAction {
    let hovered = panes.spec_pane_at(ev.column as int, ev.row as int, false);
    match ev.kind {
        MouseKind::ScrollDown => if scroll_ok { wheel_action(hovered, true, filter_focus) } else { MouseAction::Nothing },
        MouseKind::ScrollUp => if scroll_ok { wheel_action(hovered, false, filter_focus) } else { MouseAction::Nothing },
        MouseKind::LeftDown => {
            let col = sat_sub(width as int, RIGHT_COL_WIDTH + 1);
            let bottom = sat_sub(height as int, TRACK_BOTTOM_MARGIN as int);
            if ev.column == col && TRACK_TOP <= ev.row < bottom && hovered == Some(PaneId::Feed) {
                let track = bottom - TRACK_TOP;
                if visible > 0 && track > 0 {
                    let i = (ev.row - TRACK_TOP) * visible / track;
                    MouseAction::JumpTo(if i < visible - 1 { i as usize } else { (visible - 1) as usize })
                } else {
                    MouseAction::Nothing
                }
            } else {
                match panes.spec_pane_at(ev.column as int, ev.row as int, true) {
                    Some(p) => focus_action(p),
                    None => MouseAction::Nothing,
                }
            }
        },
        MouseKind::Other => MouseAction::Nothing,
    }
}

fn wheel(hovered: Option<PaneId>, down: bool, filter_focus: bool) -> (r: MouseAction)
    ensures
        r == wheel_action(hovered, down, filter_focus),
{
    match hovered {
        Some(PaneId::Details) => MouseAction::Nothing,
        Some(PaneId::Notes) => MouseAction::StepNote { pane: PaneId::Notes, down },
        Some(PaneId::SecondaryNotes) => MouseAction::StepNote { pane: PaneId::SecondaryNotes, down },
        Some(PaneId::Chat) => MouseAction::ScrollChat { down },
        _ => if filter_focus {
            MouseAction::StepFilterCursor { down }
        } else {
            MouseAction::StepSelection { down }
        },
    }
}

/// What a mouse event on the feed view does (see `spec_mouse_action`).
pub fn mouse_action(
    panes: &Panes,
    ev: MouseInput,
    width: u16,
    height: u16,
    filter_focus: bool,
    visible: usize,
    scroll_ok: bool,
) -> (r: MouseAction)
    requires
        panes.wf(),
    ensures
        r == spec_mouse_action(*panes, ev, width, height, filter_focus, visible, scroll_ok),
{
    let hovered = panes.pane_at(ev.column, ev.row);
    match ev.kind {
        MouseKind::ScrollDown => if scroll_ok { wheel(hovered, true, filter_focus) } else { MouseAction::Nothing },
        MouseKind::ScrollUp => if scroll_ok { wheel(hovered, false, filter_focus) } else { MouseAction::Nothing },
        MouseKind::LeftDown => {
            let col: u16 = if width > RIGHT_COL_WIDTH + 1 { width - (RIGHT_COL_WIDTH + 1) } else { 0 };
            let bottom: u16 = if height > TRACK_BOTTOM_MARGIN { height - TRACK_BOTTOM_MARGIN } else { 0 };
            let on_feed = match hovered {
                Some(PaneId::Feed) => true,
                _ => false,
            };
            if ev.column == col && TRACK_TOP <= ev.row && ev.row < bottom && on_feed {
                let track = bottom - TRACK_TOP;
                if visible > 0 && track > 0 {
                    let off = (ev.row - TRACK_TOP) as u128;
                    let v = visible as u128;
                    let t = track as u128;
                    assert(off * v <= 65535 * 18446744073709551615u128) by (nonlinear_arith)
                        requires
                            off <= 65535,
                            v <= 18446744073709551615u128,
                    ;
                    let i = off * v / t;
                    let last = visible - 1;
                    if i < last as u128 {
                        MouseAction::JumpTo(i as usize)
                    } else {
                        MouseAction::JumpTo(last)
                    }
                } else {
                    MouseAction::Nothing
                }
            } else {
                match panes.focusable_pane_at(ev.column, ev.row) {
                    Some(p) => {
                        let reader = match p {
                            PaneId::Reader | PaneId::Notes => Some(FocusedReader::Primary),
                            PaneId::SecondaryReader | PaneId::SecondaryNotes => Some(FocusedReader::Secondary),
                            _ => None,
                        };
                        let leave_filter = match p {
                            PaneId::Feed => true,
                            _ => false,
                        };
                        MouseAction::Focus { pane: p, reader, leave_filter }
                    },
                    None => MouseAction::Nothing,
                }
            }
        },
        MouseKind::Other => MouseAction::Nothing,
    }
}

/// A scrollbar click selects a row of the list.
pub proof fn law_scrollbar_jump_in_list(
    panes: Panes,
    ev: MouseInput,
    width: u16,
    height: u16,
    filter_focus: bool,
    visible: usize,
    scroll_ok: bool,
)
    ensures
        spec_mouse_action(panes, ev, width, height, filter_focus, visible, scroll_ok) matches MouseAction::JumpTo(i)
            ==> i < visible,
{
}

} // verus!
