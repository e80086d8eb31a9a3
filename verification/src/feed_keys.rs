//! Keys on the feed view itself (after the discovery bar and the library and
//! history tabs had their turn): the search field, the filter panel, the
//! narrow feed beside the reader, and the feed list.
use vstd::prelude::*;

use crate::app::{FeedTab, PaneId};
use crate::input::Key;
use crate::models::WorkflowState;
use crate::strs::{chars_of, string_of};

verus! {

broadcast use vstd::string::group_string_axioms;

/// Where the feed view stands.
#[derive(Clone, Copy, PartialEq, Eq, Debug, Structural)]
pub struct FeedPos {
    pub feed_tab: FeedTab,
    pub search_active: bool,
    pub filter_focus: bool,
    /// The feed is shown beside the reader (the reader's state 2).
    pub reader_split_active: bool,
    /// The narrow feed shows the selected item's description.
    pub narrow_details_open: bool,
    pub details_scroll: usize,
    pub focused_pane: PaneId,
    /// The selected row of the current tab, and the tab's first shown row.
    pub selected: usize,
    pub list_offset: usize,
}

/// What the caller knows that the feed view does not.
#[derive(Clone, Copy, PartialEq, Eq, Debug, Structural)]
pub struct FeedContext {
    /// Rows the current tab shows.
    pub visible_count: usize,
    /// The keyboard is past its scroll debounce interval.
    pub scroll_ok: bool,
    /// A paper is being fetched.
    pub fulltext_loading: bool,
    /// A refresh is running.
    pub refreshing: bool,
}

/// What the caller does after a feed-view key.
#[derive(Clone, Copy, PartialEq, Eq, Debug, Structural)]
pub enum FeedAction {
    Nothing,
    /// The view changed (tab, search or position): recompute what it shows.
    ViewChanged,
    /// The selection moved: clear the notification.
    Moved,
    /// Open the selected item in the reader (fetching its text).
    OpenSelected,
    /// Show the selected item's abstract.
    AbstractPopup,
    /// Move the selected item to this workflow state.
    SetWorkflow(WorkflowState),
    /// Open the selected item in the browser.
    OpenInBrowser,
    /// Open the selected item's repository.
    OpenRepo,
    /// Fetch every source again.
    Refresh,
    /// Tell the user a refresh is already running.
    AlreadyRefreshing,
    /// Clear the notification and the status line.
    ClearNotice,
    /// Ask whether to quit.
    Quit,
    FilterCursorDown,
    FilterCursorUp,
    ToggleFilterAtCursor,
    ClearFilters,
}

/// The tab after `t` (Tab) or before it (Shift-Tab).
pub open spec fn next_tab(t: FeedTab, forward: bool) -> FeedTab {
    match t {
        FeedTab::Inbox => if forward { FeedTab::Library } else { FeedTab::History },
        FeedTab::Library => if forward { FeedTab::Discoveries } else { FeedTab::Inbox },
        FeedTab::Discoveries => if forward { FeedTab::History } else { FeedTab::Library },
        FeedTab::History => if forward { FeedTab::Inbox } else { FeedTab::Discoveries },
    }
}

/// The position back at the top of the current tab.
pub open spec fn reset(p: FeedPos) -> FeedPos {
    FeedPos { selected: 0, list_offset: 0, details_scroll: 0, ..p }
}

/// One row down, staying on the last (nothing happens on an empty list).
pub open spec fn moved_down(p: FeedPos, n: usize) -> (FeedPos, FeedAction) {
    if n == 0 {
        (p, FeedAction::Nothing)
    } else {
        (FeedPos { selected: if p.selected + 1 < n { (p.selected + 1) as usize } else { (n - 1) as usize }, details_scroll: 0, ..p }, FeedAction::Moved)
    }
}

/// One row up, staying on the first.
pub open spec fn moved_up(p: FeedPos) -> (FeedPos, FeedAction) {
    (FeedPos { selected: if p.selected > 0 { (p.selected - 1) as usize } else { 0 }, details_scroll: 0, ..p }, FeedAction::Moved)
}

pub open spec fn is_key(key: Key, c: char) -> bool {
    key matches Key::Char { c: k, ctrl: _ } && k == c
}

/// The feed view after `key`, with the search text `q`: the new position,
/// search text and action.
pub open spec fn feed_step(p: FeedPos, q: Seq<char>, key: Key, ctx: FeedContext) -> (FeedPos, Seq<char>, FeedAction) {
    let sel = p.selected < ctx.visible_count;
    if p.search_active {
        match key {
            Key::Esc => (reset(FeedPos { search_active: false, ..p }), Seq::empty(), FeedAction::ViewChanged),
            Key::Enter => (FeedPos { search_active: false, ..p }, q, FeedAction::Nothing),
            Key::Backspace => (reset(p), if q.len() > 0 { q.drop_last() } else { q }, FeedAction::ViewChanged),
            Key::Char { c, ctrl: _ } => (reset(p), q.push(c), FeedAction::ViewChanged),
            _ => (p, q, FeedAction::Nothing),
        }
    } else if p.filter_focus {
        if is_key(key, 'j') || key == Key::Down {
            (p, q, if ctx.scroll_ok { FeedAction::FilterCursorDown } else { FeedAction::Nothing })
        } else if is_key(key, 'k') || key == Key::Up {
            (p, q, if ctx.scroll_ok { FeedAction::FilterCursorUp } else { FeedAction::Nothing })
        } else if is_key(key, ' ') {
            (p, q, FeedAction::ToggleFilterAtCursor)
        } else if is_key(key, 'c') {
            (p, q, FeedAction::ClearFilters)
        } else if is_key(key, 'f') || key == Key::Tab {
            (FeedPos { filter_focus: false, ..p }, q, FeedAction::Nothing)
        } else if key == Key::Esc {
            (FeedPos { filter_focus: false, ..p }, q, FeedAction::ClearFilters)
        } else {
            (p, q, FeedAction::Nothing)
        }
    } else if p.focused_pane != PaneId::Feed {
        (p, q, FeedAction::Nothing)
    } else if p.reader_split_active {
        if p.narrow_details_open {
            if key == Key::Esc || is_key(key, 'q') || is_key(key, 'd') {
                (FeedPos { narrow_details_open: false, ..p }, q, FeedAction::Nothing)
            } else if is_key(key, 'j') || key == Key::Down {
                (FeedPos { details_scroll: if p.details_scroll < usize::MAX { (p.details_scroll + 1) as usize } else { p.details_scroll }, ..p }, q, FeedAction::Nothing)
            } else if is_key(key, 'k') || key == Key::Up {
                (FeedPos { details_scroll: if p.details_scroll > 0 { (p.details_scroll - 1) as usize } else { 0 }, ..p }, q, FeedAction::Nothing)
            } else {
                (p, q, FeedAction::Nothing)
            }
        } else if key == Key::Esc || is_key(key, 'q') {
            (FeedPos { reader_split_active: false, narrow_details_open: false, focused_pane: PaneId::Reader, ..p }, q, FeedAction::Nothing)
        } else if is_key(key, 'd') {
            (FeedPos { narrow_details_open: true, details_scroll: 0, ..p }, q, FeedAction::Nothing)
        } else if is_key(key, '/') {
            (reset(FeedPos { search_active: true, ..p }), Seq::empty(), FeedAction::ViewChanged)
        } else if is_key(key, 'j') || key == Key::Down {
            if ctx.scroll_ok {
                let (p2, a) = moved_down(p, ctx.visible_count);
                (FeedPos { narrow_details_open: false, ..p2 }, q, a)
            } else {
                (p, q, FeedAction::Nothing)
            }
        } else if is_key(key, 'k') || key == Key::Up {
            if ctx.scroll_ok {
                let (p2, a) = moved_up(p);
                (FeedPos { narrow_details_open: false, ..p2 }, q, a)
            } else {
                (p, q, FeedAction::Nothing)
            }
        } else if key == Key::Enter {
            if !ctx.fulltext_loading && sel {
                (FeedPos { narrow_details_open: false, focused_pane: PaneId::Reader, ..p }, q, FeedAction::OpenSelected)
            } else {
                (p, q, FeedAction::Nothing)
            }
        } else {
            (p, q, FeedAction::Nothing)
        }
    } else {
        main_step(p, q, key, ctx)
    }
}

/// The feed list's own keys.
pub open spec fn main_step(p: FeedPos, q: Seq<char>, key: Key, ctx: FeedContext) -> (FeedPos, Seq<char>, FeedAction) {
    let sel = p.selected < ctx.visible_count;
    if key == Key::Tab || key == Key::BackTab {
        (reset(FeedPos { feed_tab: next_tab(p.feed_tab, key == Key::Tab), ..p }), q, FeedAction::ViewChanged)
    } else if key == Key::Esc {
        (p, q, FeedAction::ClearNotice)
    } else if key == Key::Enter {
        (p, q, if !ctx.fulltext_loading && sel { FeedAction::OpenSelected } else { FeedAction::Nothing })
    } else if is_key(key, 'j') || key == Key::Down {
        if ctx.scroll_ok { let (p2, a) = moved_down(p, ctx.visible_count); (p2, q, a) } else { (p, q, FeedAction::Nothing) }
    } else if is_key(key, 'k') || key == Key::Up {
        if ctx.scroll_ok { let (p2, a) = moved_up(p); (p2, q, a) } else { (p, q, FeedAction::Nothing) }
    } else {
        match key {
            Key::Char { c, ctrl: _ } => {
                let (p2, clear, a) = char_step(p, c, ctx);
                (p2, if clear { Seq::empty() } else { q }, a)
            },
            _ => (p, q, FeedAction::Nothing),
        }
    }
}

/// The feed list's character keys: the new position, whether the search
/// text is cleared, and the action.
pub open spec fn char_step(p: FeedPos, c: char, ctx: FeedContext) -> (FeedPos, bool, FeedAction) {
    let sel = p.selected < ctx.visible_count;
    if c == 'f' {
        (FeedPos { filter_focus: true, ..p }, false, FeedAction::Nothing)
    } else if c == 'q' {
        (p, false, FeedAction::Quit)
    } else if c == 'g' {
        (FeedPos { selected: 0, details_scroll: 0, ..p }, false, FeedAction::Moved)
    } else if c == 'G' {
        (FeedPos { selected: if ctx.visible_count > 0 { (ctx.visible_count - 1) as usize } else { p.selected }, details_scroll: 0, ..p }, false, FeedAction::Moved)
    } else if c == ' ' {
        (p, false, if sel { FeedAction::AbstractPopup } else { FeedAction::Nothing })
    } else if c == '/' {
        (reset(FeedPos { search_active: true, ..p }), true, FeedAction::ViewChanged)
    } else if c == 'i' || c == 'r' || c == 'w' || c == 'x' {
        (p, false, FeedAction::SetWorkflow(
            if c == 'i' { WorkflowState::Inbox } else if c == 'r' { WorkflowState::DeepRead } else if c == 'w' { WorkflowState::Queued } else { WorkflowState::Archived },
        ))
    } else if c == 'o' {
        (p, false, if sel { FeedAction::OpenInBrowser } else { FeedAction::Nothing })
    } else if c == 'R' {
        (p, false, if ctx.refreshing { FeedAction::AlreadyRefreshing } else { FeedAction::Refresh })
    } else if c == 'v' {
        (p, false, if sel { FeedAction::OpenRepo } else { FeedAction::Nothing })
    } else {
        (p, false, FeedAction::Nothing)
    }
}

fn reset_pos(p: FeedPos) -> (r: FeedPos)
    ensures
        r == reset(p),
{
    FeedPos { selected: 0, list_offset: 0, details_scroll: 0, ..p }
}

fn move_down(p: FeedPos, n: usize) -> (r: (FeedPos, FeedAction))
    ensures
        r == moved_down(p, n),
{
    if n == 0 {
        (p, FeedAction::Nothing)
    } else {
        let s = if p.selected < n - 1 { p.selected + 1 } else { n - 1 };
        (FeedPos { selected: s, details_scroll: 0, ..p }, FeedAction::Moved)
    }
}

fn move_up(p: FeedPos) -> (r: (FeedPos, FeedAction))
    ensures
        r == moved_up(p),
{
    let s = if p.selected > 0 { p.selected - 1 } else { 0 };
    (FeedPos { selected: s, details_scroll: 0, ..p }, FeedAction::Moved)
}

fn char_key(p: FeedPos, c: char, ctx: FeedContext) -> (r: (FeedPos, bool, FeedAction))
    ensures
        r == char_step(p, c, ctx),
{
    let sel = p.selected < ctx.visible_count;
    if c == 'f' {
        (FeedPos { filter_focus: true, ..p }, false, FeedAction::Nothing)
    } else if c == 'q' {
        (p, false, FeedAction::Quit)
    } else if c == 'g' {
        (FeedPos { selected: 0, details_scroll: 0, ..p }, false, FeedAction::Moved)
    } else if c == 'G' {
        let s = if ctx.visible_count > 0 { ctx.visible_count - 1 } else { p.selected };
        (FeedPos { selected: s, details_scroll: 0, ..p }, false, FeedAction::Moved)
    } else if c == ' ' {
        (p, false, if sel { FeedAction::AbstractPopup } else { FeedAction::Nothing })
    } else if c == '/' {
        (reset_pos(FeedPos { search_active: true, ..p }), true, FeedAction::ViewChanged)
    } else if c == 'i' || c == 'r' || c == 'w' || c == 'x' {
        let st = if c == 'i' {
            WorkflowState::Inbox
        } else if c == 'r' {
            WorkflowState::DeepRead
        } else if c == 'w' {
            WorkflowState::Queued
        } else {
            WorkflowState::Archived
        };
        (p, false, FeedAction::SetWorkflow(st))
    } else if c == 'o' {
        (p, false, if sel { FeedAction::OpenInBrowser } else { FeedAction::Nothing })
    } else if c == 'R' {
        (p, false, if ctx.refreshing { FeedAction::AlreadyRefreshing } else { FeedAction::Refresh })
    } else if c == 'v' {
        (p, false, if sel { FeedAction::OpenRepo } else { FeedAction::Nothing })
    } else {
        (p, false, FeedAction::Nothing)
    }
}

/// The feed view's state: its position and the search text.
pub struct FeedKeys {
    pub pos: FeedPos,
    pub search_query: String,
}

impl FeedKeys {
    /// Handle one feed-view key (see `feed_step`).
    #[verifier::rlimit(40)]
    pub fn feed_view_key(&mut self, key: Key, ctx: FeedContext) -> (r: FeedAction)
        ensures
            (final(self).pos, final(self).search_query@, r) == feed_step(old(self).pos, old(self).search_query@, key, ctx),
    {
        let p = self.pos;
        let sel = p.selected < ctx.visible_count;
        let is_down = match key {
            Key::Down => true,
            Key::Char { c, ctrl: _ } => c == 'j',
            _ => false,
        };
        let is_up = match key {
            Key::Up => true,
            Key::Char { c, ctrl: _ } => c == 'k',
            _ => false,
        };
        let ch: Option<char> = match key {
            Key::Char { c, ctrl: _ } => Some(c),
            _ => None,
        };
        if p.search_active {
            match key {
                Key::Esc => {
                    self.pos = reset_pos(FeedPos { search_active: false, ..p });
                    self.search_query = string_of(&Vec::new());
                    return FeedAction::ViewChanged;
                },
                Key::Enter => {
                    self.pos = FeedPos { search_active: false, ..p };
                    return FeedAction::Nothing;
                },
                Key::Backspace => {
                    let mut v = chars_of(self.search_query.as_str());
                    if v.len() > 0 {
                        v.pop();
                    }
                    self.search_query = string_of(&v);
                    self.pos = reset_pos(p);
                    return FeedAction::ViewChanged;
                },
                Key::Char { c, ctrl: _ } => {
                    let mut v = chars_of(self.search_query.as_str());
                    v.push(c);
                    self.search_query = string_of(&v);
                    self.pos = reset_pos(p);
                    return FeedAction::ViewChanged;
                },
                _ => {
                    return FeedAction::Nothing;
                },
            }
        }
        if p.filter_focus {
            if is_down {
                return if ctx.scroll_ok { FeedAction::FilterCursorDown } else { FeedAction::Nothing };
            } else if is_up {
                return if ctx.scroll_ok { FeedAction::FilterCursorUp } else { FeedAction::Nothing };
            } else if ch == Some(' ') {
                return FeedAction::ToggleFilterAtCursor;
            } else if ch == Some('c') {
                return FeedAction::ClearFilters;
            } else if ch == Some('f') || key == Key::Tab {
                self.pos = FeedPos { filter_focus: false, ..p };
                return FeedAction::Nothing;
            } else if key == Key::Esc {
                self.pos = FeedPos { filter_focus: false, ..p };
                return FeedAction::ClearFilters;
            } else {
                return FeedAction::Nothing;
            }
        }
        if p.focused_pane != PaneId::Feed {
            return FeedAction::Nothing;
        }
        if p.reader_split_active {
            if p.narrow_details_open {
                if key == Key::Esc || ch == Some('q') || ch == Some('d') {
                    self.pos = FeedPos { narrow_details_open: false, ..p };
                } else if is_down {
                    let d = if p.details_scroll < usize::MAX { p.details_scroll + 1 } else { p.details_scroll };
                    self.pos = FeedPos { details_scroll: d, ..p };
                } else if is_up {
                    let d = if p.details_scroll > 0 { p.details_scroll - 1 } else { 0 };
                    self.pos = FeedPos { details_scroll: d, ..p };
                }
                return FeedAction::Nothing;
            }
            if key == Key::Esc || ch == Some('q') {
                self.pos = FeedPos { reader_split_active: false, narrow_details_open: false, focused_pane: PaneId::Reader, ..p };
                return FeedAction::Nothing;
            } else if ch == Some('d') {
                self.pos = FeedPos { narrow_details_open: true, details_scroll: 0, ..p };
                return FeedAction::Nothing;
            } else if ch == Some('/') {
                self.pos = reset_pos(FeedPos { search_active: true, ..p });
                self.search_query = string_of(&Vec::new());
                return FeedAction::ViewChanged;
            } else if is_down {
                if ctx.scroll_ok {
                    let (p2, a) = move_down(p, ctx.visible_count);
                    self.pos = FeedPos { narrow_details_open: false, ..p2 };
                    return a;
                }
                return FeedAction::Nothing;
            } else if is_up {
                if ctx.scroll_ok {
                    let (p2, a) = move_up(p);
                    self.pos = FeedPos { narrow_details_open: false, ..p2 };
                    return a;
                }
                return FeedAction::Nothing;
            } else if key == Key::Enter {
                if !ctx.fulltext_loading && sel {
                    self.pos = FeedPos { narrow_details_open: false, focused_pane: PaneId::Reader, ..p };
                    return FeedAction::OpenSelected;
                }
                return FeedAction::Nothing;
            }
            return FeedAction::Nothing;
        }
        if key == Key::Tab || key == Key::BackTab {
            let t = match p.feed_tab {
                FeedTab::Inbox => if key == Key::Tab { FeedTab::Library } else { FeedTab::History },
                FeedTab::Library => if key == Key::Tab { FeedTab::Discoveries } else { FeedTab::Inbox },
                FeedTab::Discoveries => if key == Key::Tab { FeedTab::History } else { FeedTab::Library },
                FeedTab::History => if key == Key::Tab { FeedTab::Inbox } else { FeedTab::Discoveries },
            };
            self.pos = reset_pos(FeedPos { feed_tab: t, ..p });
            return FeedAction::ViewChanged;
        } else if key == Key::Esc {
            return FeedAction::ClearNotice;
        } else if key == Key::Enter {
            return if !ctx.fulltext_loading && sel { FeedAction::OpenSelected } else { FeedAction::Nothing };
        } else if is_down {
            if ctx.scroll_ok {
                let (p2, a) = move_down(p, ctx.visible_count);
                self.pos = p2;
                return a;
            }
            return FeedAction::Nothing;
        } else if is_up {
            if ctx.scroll_ok {
                let (p2, a) = move_up(p);
                self.pos = p2;
                return a;
            }
            return FeedAction::Nothing;
        }
        match ch {
            Some(c) => {
                let (p2, clear, a) = char_key(p, c, ctx);
                self.pos = p2;
                if clear {
                    self.search_query = string_of(&Vec::new());
                }
                a
            },
            None => FeedAction::Nothing,
        }
    }
}

/// Tab and Shift-Tab undo each other.
pub proof fn law_tab_cycle(t: FeedTab)
    ensures
        next_tab(next_tab(t, true), false) == t,
        next_tab(next_tab(t, false), true) == t,
        next_tab(next_tab(next_tab(next_tab(t, true), true), true), true) == t,
{
}

/// Moving keeps the selection on a row of a non-empty list.
pub proof fn law_moves_stay_in_list(p: FeedPos, n: usize)
    requires
        n > 0,
    ensures
        moved_down(p, n).0.selected < n,
        p.selected < n ==> moved_up(p).0.selected < n,
{
}

} // verus!
