//! The leader key: after it, one more key opens or closes the notes, chat
//! and reader panes, moves focus between panes and works the reader's tabs.
//! This module decides what the layout becomes and what the caller has to
//! do (load notes, start a chat, fetch a paper, close tabs).
use vstd::prelude::*;

use crate::app::{FocusedReader, NavDirection, PaneId};
use crate::input::Key;

verus! {

/// Which panes are shown and which has focus.
#[derive(Clone, Copy, PartialEq, Eq, Debug, Structural)]
pub struct Layout {
    /// The leader key was pressed and waits for its second key.
    pub leader_active: bool,
    pub notes_active: bool,
    pub chat_active: bool,
    pub chat_fullscreen: bool,
    pub chat_at_top: bool,
    /// A paper is open in the reader (state 1).
    pub reader_active: bool,
    /// The feed is shown beside the reader (state 2).
    pub reader_split_active: bool,
    /// Two readers side by side (state 3).
    pub reader_dual_active: bool,
    pub reader_bottom_open: bool,
    pub reader_bottom_focused: bool,
    pub reader_bottom_details: bool,
    pub reader_bottom_scroll: usize,
    /// The next fetched paper goes to the second reader.
    pub fulltext_for_secondary: bool,
    pub focused_pane: PaneId,
    pub focused_reader: FocusedReader,
    pub help_active: bool,
    pub help_section: usize,
    pub help_scroll: usize,
}

/// What the caller knows that the layout does not.
#[derive(Clone, Copy, PartialEq, Eq, Debug, Structural)]
pub struct LeaderContext {
    /// A paper is being fetched.
    pub fulltext_loading: bool,
    /// The floating reader popup is open.
    pub popup_active: bool,
    /// A feed item is selected.
    pub has_selection: bool,
    /// The chat (created first if there was none) is in a conversation.
    pub chat_in_session: bool,
}

/// What the caller does after the leader's second key.
#[derive(Clone, Copy, PartialEq, Eq, Debug, Structural)]
pub enum LeaderAction {
    Nothing,
    /// Open the notes pane on the selected item.
    OpenNotes,
    /// Create the chat if there is none.
    EnsureChat,
    /// Show the settings view.
    OpenSettings,
    /// Fetch the selected paper into the floating reader popup.
    OpenPopupReader,
    /// Fetch the selected paper into the second reader.
    FetchSecondary,
    /// Ask whether to quit.
    QuitPopup,
    /// Move focus to the nearest pane in this direction.
    Navigate(NavDirection),
    /// Focus the pane with this number (0 the primary, then 1 to 3).
    FocusNumber(u8),
    /// Ask which reader gets the selected paper as a new tab.
    ChooseTabWindow,
    /// Open the selected paper as a new reader tab.
    OpenTab,
    NotesPrevTab,
    NotesNextTab,
    ReaderPrevTab,
    ReaderNextTab,
    /// Close the active tab of this pane, then report back whether the
    /// pane is left empty (see `after_tab_closed`).
    CloseTab(PaneId),
    /// Save the notes' state (the notes pane was closed).
    PersistNotes,
    /// Drop every reader tab (the readers were closed).
    ClearReaderTabs,
}

/// The primary pane: the reader when one is open, else the feed.
pub open spec fn primary(l: Layout) -> PaneId {
    if l.reader_active { PaneId::Reader } else { PaneId::Feed }
}

/// The key moves focus between panes (h, j, k, l).
pub open spec fn nav_dir(key: Key) -> Option<NavDirection> {
    match key {
        Key::Char { c, ctrl: _ } => if c == 'h' {
            Some(NavDirection::Left)
        } else if c == 'j' {
            Some(NavDirection::Down)
        } else if c == 'k' {
            Some(NavDirection::Up)
        } else if c == 'l' {
            Some(NavDirection::Right)
        } else {
            None
        },
        _ => None,
    }
}

/// The layout after closing every reader.
pub open spec fn readers_closed(l: Layout) -> Layout {
    Layout {
        reader_active: false,
        reader_dual_active: false,
        reader_split_active: false,
        reader_bottom_open: false,
        reader_bottom_focused: false,
        focused_reader: FocusedReader::Primary,
        focused_pane: PaneId::Feed,
        ..l
    }
}

/// The layout and the caller's action after the leader's second key `key`
/// on layout `l0`.  Every key but h/j/k/l ends the leader.
pub open spec fn leader_step(l0: Layout, key: Key, ctx: LeaderContext) -> (Layout, LeaderAction) {
    let l = if nav_dir(key) is Some { l0 } else { Layout { leader_active: false, ..l0 } };
    match key {
        Key::Char { c, ctrl: _ } => if is_pane_key(c) { pane_key_step(l, c, ctx) } else { other_key_step(l, c, ctx) },
        Key::Enter => (
            l,
            if !ctx.fulltext_loading && !ctx.popup_active && ctx.has_selection {
                LeaderAction::OpenPopupReader
            } else {
                LeaderAction::Nothing
            },
        ),
        Key::Esc => esc_step(l),
        _ => (l, LeaderAction::Nothing),
    }
}

/// The keys that open, close or rearrange panes.
pub open spec fn is_pane_key(c: char) -> bool {
    c == 'n' || c == 'c' || c == 'C' || c == 'z' || c == 'f'
}

/// Esc: closes the chat, the notes or the readers, whichever has focus.
pub open spec fn esc_step(l: Layout) -> (Layout, LeaderAction) {
    match l.focused_pane {
        PaneId::Chat => (
            Layout { chat_active: false, chat_fullscreen: false, focused_pane: primary(l), ..l },
            LeaderAction::Nothing,
        ),
        PaneId::Notes => (Layout { notes_active: false, focused_pane: primary(l), ..l }, LeaderAction::PersistNotes),
        PaneId::SecondaryReader | PaneId::Reader => (readers_closed(l), LeaderAction::ClearReaderTabs),
        _ => (l, LeaderAction::Nothing),
    }
}

/// n (notes), c and C (chat, C also full screen), z (chat at the top), f
/// (the reader's three states).
pub open spec fn pane_key_step(l: Layout, c: char, ctx: LeaderContext) -> (Layout, LeaderAction) {
    if c == 'n' {
        if l.notes_active {
            (Layout { notes_active: false, focused_pane: primary(l), ..l }, LeaderAction::Nothing)
        } else {
            (l, LeaderAction::OpenNotes)
        }
    } else if c == 'c' {
        if l.chat_active {
            (Layout { chat_active: false, chat_fullscreen: false, focused_pane: primary(l), ..l }, LeaderAction::Nothing)
        } else {
            (Layout { notes_active: false, chat_active: true, focused_pane: PaneId::Chat, ..l }, LeaderAction::EnsureChat)
        }
    } else if c == 'C' {
        (
            Layout {
                notes_active: false,
                chat_active: true,
                chat_fullscreen: ctx.chat_in_session && !l.chat_fullscreen,
                focused_pane: PaneId::Chat,
                ..l
            },
            LeaderAction::EnsureChat,
        )
    } else if c == 'z' {
        (if l.chat_active { Layout { chat_at_top: !l.chat_at_top, ..l } } else { l }, LeaderAction::Nothing)
    } else {
        reader_cycle_step(l, ctx)
    }
}

/// f: in state 1 the feed appears beside the reader (state 2); in state 2 a
/// second reader opens with the selected paper (state 3); in state 3 the
/// bottom feed pane opens or closes.
pub open spec fn reader_cycle_step(l: Layout, ctx: LeaderContext) -> (Layout, LeaderAction) {
    if l.reader_dual_active {
        if l.reader_bottom_open {
            (
                Layout {
                    reader_bottom_open: false,
                    reader_bottom_focused: false,
                    reader_bottom_details: false,
                    focused_pane: if l.focused_pane == PaneId::Feed { PaneId::Reader } else { l.focused_pane },
                    ..l
                },
                LeaderAction::Nothing,
            )
        } else {
            (
                Layout { reader_bottom_open: true, reader_bottom_focused: true, reader_bottom_details: false, ..l },
                LeaderAction::Nothing,
            )
        }
    } else if l.reader_split_active {
        (
            Layout {
                reader_dual_active: true,
                reader_bottom_focused: false,
                reader_bottom_details: false,
                reader_bottom_scroll: 0,
                fulltext_for_secondary: true,
                focused_pane: PaneId::Reader,
                ..l
            },
            if !ctx.fulltext_loading && ctx.has_selection {
                LeaderAction::FetchSecondary
            } else {
                LeaderAction::Nothing
            },
        )
    } else if l.reader_active {
        (Layout { reader_split_active: true, focused_pane: PaneId::Feed, ..l }, LeaderAction::Nothing)
    } else {
        (l, LeaderAction::Nothing)
    }
}

/// s (settings), ? (help), q (quit), h/j/k/l (move focus), 0-3 (focus by
/// number), t (new tab), [ and ] (switch tab), w (close tab).
pub open spec fn other_key_step(l: Layout, c: char, ctx: LeaderContext) -> (Layout, LeaderAction) {
    if c == 's' {
        (l, LeaderAction::OpenSettings)
    } else if c == '?' {
        (Layout { help_active: true, help_section: 0, help_scroll: 0, ..l }, LeaderAction::Nothing)
    } else if c == 'q' {
        (l, LeaderAction::QuitPopup)
    } else if c == 'h' {
        (l, LeaderAction::Navigate(NavDirection::Left))
    } else if c == 'j' {
        (l, LeaderAction::Navigate(NavDirection::Down))
    } else if c == 'k' {
        (l, LeaderAction::Navigate(NavDirection::Up))
    } else if c == 'l' {
        (l, LeaderAction::Navigate(NavDirection::Right))
    } else if c == '0' {
        (l, LeaderAction::FocusNumber(0))
    } else if c == '1' {
        (l, LeaderAction::FocusNumber(1))
    } else if c == '2' {
        (l, LeaderAction::FocusNumber(2))
    } else if c == '3' {
        (l, LeaderAction::FocusNumber(3))
    } else if c == 't' {
        if ctx.fulltext_loading {
            (l, LeaderAction::Nothing)
        } else if l.reader_dual_active {
            (l, LeaderAction::ChooseTabWindow)
        } else {
            (Layout { fulltext_for_secondary: false, ..l }, LeaderAction::OpenTab)
        }
    } else if c == '[' || c == ']' {
        if l.focused_pane == PaneId::Notes && l.notes_active {
            (l, if c == '[' { LeaderAction::NotesPrevTab } else { LeaderAction::NotesNextTab })
        } else if l.reader_active {
            (l, if c == '[' { LeaderAction::ReaderPrevTab } else { LeaderAction::ReaderNextTab })
        } else {
            (l, LeaderAction::Nothing)
        }
    } else if c == 'w' {
        if l.focused_pane == PaneId::Notes && l.notes_active {
            (l, LeaderAction::CloseTab(PaneId::Notes))
        } else if l.focused_pane == PaneId::SecondaryReader {
            (l, LeaderAction::CloseTab(PaneId::SecondaryReader))
        } else if l.focused_pane == PaneId::Reader && l.reader_active {
            (l, LeaderAction::CloseTab(PaneId::Reader))
        } else {
            (l, LeaderAction::Nothing)
        }
    } else {
        (l, LeaderAction::Nothing)
    }
}

/// The layout after the active tab of `pane` was closed, `pane_empty`
/// telling whether that was its last tab: an empty second reader folds
/// back into the first; an empty first reader leaves the reader view
/// (dual or split) and hands focus to the feed.
pub open spec fn tab_closed_step(l: Layout, pane: PaneId, pane_empty: bool) -> (Layout, bool) {
    if !pane_empty {
        (l, false)
    } else if pane == PaneId::SecondaryReader {
        (
            Layout {
                reader_dual_active: false,
                reader_bottom_open: false,
                reader_bottom_focused: false,
                focused_reader: FocusedReader::Primary,
                focused_pane: PaneId::Reader,
                ..l
            },
            false,
        )
    } else if pane == PaneId::Reader {
        if l.reader_dual_active {
            (
                Layout {
                    reader_dual_active: false,
                    reader_bottom_open: false,
                    reader_bottom_focused: false,
                    focused_pane: PaneId::Feed,
                    ..l
                },
                true,
            )
        } else if l.reader_split_active {
            (Layout { reader_split_active: false, focused_pane: PaneId::Feed, ..l }, false)
        } else {
            (Layout { focused_pane: PaneId::Feed, ..l }, false)
        }
    } else {
        (l, false)
    }
}

fn primary_of(l: &Layout) -> (r: PaneId)
    ensures
        r == primary(*l),
{
    if l.reader_active { PaneId::Reader } else { PaneId::Feed }
}

fn esc_key(l: Layout) -> (r: (Layout, LeaderAction))
    ensures
        r == esc_step(l),
{
    match l.focused_pane {
        PaneId::Chat => (
            Layout { chat_active: false, chat_fullscreen: false, focused_pane: primary_of(&l), ..l },
            LeaderAction::Nothing,
        ),
        PaneId::Notes => (Layout { notes_active: false, focused_pane: primary_of(&l), ..l }, LeaderAction::PersistNotes),
        PaneId::SecondaryReader | PaneId::Reader => (
            Layout {
                reader_active: false,
                reader_dual_active: false,
                reader_split_active: false,
                reader_bottom_open: false,
                reader_bottom_focused: false,
                focused_reader: FocusedReader::Primary,
                focused_pane: PaneId::Feed,
                ..l
            },
            LeaderAction::ClearReaderTabs,
        ),
        _ => (l, LeaderAction::Nothing),
    }
}

fn reader_cycle(l: Layout, ctx: LeaderContext) -> (r: (Layout, LeaderAction))
    ensures
        r == reader_cycle_step(l, ctx),
{
    if l.reader_dual_active {
        if l.reader_bottom_open {
            let fp = if l.focused_pane == PaneId::Feed { PaneId::Reader } else { l.focused_pane };
            (
                Layout {
                    reader_bottom_open: false,
                    reader_bottom_focused: false,
                    reader_bottom_details: false,
                    focused_pane: fp,
                    ..l
                },
                LeaderAction::Nothing,
            )
        } else {
            (
                Layout { reader_bottom_open: true, reader_bottom_focused: true, reader_bottom_details: false, ..l },
                LeaderAction::Nothing,
            )
        }
    } else if l.reader_split_active {
        (
            Layout {
                reader_dual_active: true,
                reader_bottom_focused: false,
                reader_bottom_details: false,
                reader_bottom_scroll: 0,
                fulltext_for_secondary: true,
                focused_pane: PaneId::Reader,
                ..l
            },
            if !ctx.fulltext_loading && ctx.has_selection {
                LeaderAction::FetchSecondary
            } else {
                LeaderAction::Nothing
            },
        )
    } else if l.reader_active {
        (Layout { reader_split_active: true, focused_pane: PaneId::Feed, ..l }, LeaderAction::Nothing)
    } else {
        (l, LeaderAction::Nothing)
    }
}

fn pane_key(l: Layout, c: char, ctx: LeaderContext) -> (r: (Layout, LeaderAction))
    ensures
        r == pane_key_step(l, c, ctx),
{
    if c == 'n' {
        if l.notes_active {
            (Layout { notes_active: false, focused_pane: primary_of(&l), ..l }, LeaderAction::Nothing)
        } else {
            (l, LeaderAction::OpenNotes)
        }
    } else if c == 'c' {
        if l.chat_active {
            (Layout { chat_active: false, chat_fullscreen: false, focused_pane: primary_of(&l), ..l }, LeaderAction::Nothing)
        } else {
            (Layout { notes_active: false, chat_active: true, focused_pane: PaneId::Chat, ..l }, LeaderAction::EnsureChat)
        }
    } else if c == 'C' {
        let full = ctx.chat_in_session && !l.chat_fullscreen;
        (
            Layout { notes_active: false, chat_active: true, chat_fullscreen: full, focused_pane: PaneId::Chat, ..l },
            LeaderAction::EnsureChat,
        )
    } else if c == 'z' {
        (if l.chat_active { Layout { chat_at_top: !l.chat_at_top, ..l } } else { l }, LeaderAction::Nothing)
    } else {
        reader_cycle(l, ctx)
    }
}

fn other_key(l: Layout, c: char, ctx: LeaderContext) -> (r: (Layout, LeaderAction))
    ensures
        r == other_key_step(l, c, ctx),
{
    if c == 's' {
        (l, LeaderAction::OpenSettings)
    } else if c == '?' {
        (Layout { help_active: true, help_section: 0, help_scroll: 0, ..l }, LeaderAction::Nothing)
    } else if c == 'q' {
        (l, LeaderAction::QuitPopup)
    } else if c == 'h' {
        (l, LeaderAction::Navigate(NavDirection::Left))
    } else if c == 'j' {
        (l, LeaderAction::Navigate(NavDirection::Down))
    } else if c == 'k' {
        (l, LeaderAction::Navigate(NavDirection::Up))
    } else if c == 'l' {
        (l, LeaderAction::Navigate(NavDirection::Right))
    } else if c == '0' {
        (l, LeaderAction::FocusNumber(0))
    } else if c == '1' {
        (l, LeaderAction::FocusNumber(1))
    } else if c == '2' {
        (l, LeaderAction::FocusNumber(2))
    } else if c == '3' {
        (l, LeaderAction::FocusNumber(3))
    } else if c == 't' {
        if ctx.fulltext_loading {
            (l, LeaderAction::Nothing)
        } else if l.reader_dual_active {
            (l, LeaderAction::ChooseTabWindow)
        } else {
            (Layout { fulltext_for_secondary: false, ..l }, LeaderAction::OpenTab)
        }
    } else if c == '[' || c == ']' {
        if l.focused_pane == PaneId::Notes && l.notes_active {
            (l, if c == '[' { LeaderAction::NotesPrevTab } else { LeaderAction::NotesNextTab })
        } else if l.reader_active {
            (l, if c == '[' { LeaderAction::ReaderPrevTab } else { LeaderAction::ReaderNextTab })
        } else {
            (l, LeaderAction::Nothing)
        }
    } else if c == 'w' {
        if l.focused_pane == PaneId::Notes && l.notes_active {
            (l, LeaderAction::CloseTab(PaneId::Notes))
        } else if l.focused_pane == PaneId::SecondaryReader {
            (l, LeaderAction::CloseTab(PaneId::SecondaryReader))
        } else if l.focused_pane == PaneId::Reader && l.reader_active {
            (l, LeaderAction::CloseTab(PaneId::Reader))
        } else {
            (l, LeaderAction::Nothing)
        }
    } else {
        (l, LeaderAction::Nothing)
    }
}

impl Layout {
    /// Handle the leader's second key (see `leader_step`).
    pub fn leader_key(&mut self, key: Key, ctx: LeaderContext) -> (r: LeaderAction)
        ensures
            (*final(self), r) == leader_step(*old(self), key, ctx),
    {
        let nav = match key {
            Key::Char { c, ctrl: _ } => c == 'h' || c == 'j' || c == 'k' || c == 'l',
            _ => false,
        };
        let l0 = *self;
        let l = if nav { l0 } else { Layout { leader_active: false, ..l0 } };
        let (nl, a) = match key {
            Key::Char { c, ctrl: _ } => if c == 'n' || c == 'c' || c == 'C' || c == 'z' || c == 'f' {
                pane_key(l, c, ctx)
            } else {
                other_key(l, c, ctx)
            },
            Key::Enter => (
                l,
                if !ctx.fulltext_loading && !ctx.popup_active && ctx.has_selection {
                    LeaderAction::OpenPopupReader
                } else {
                    LeaderAction::Nothing
                },
            ),
            Key::Esc => esc_key(l),
            _ => (l, LeaderAction::Nothing),
        };
        *self = nl;
        a
    }

    /// Apply the outcome of closing a tab (see `tab_closed_step`); returns
    /// whether the second reader's tabs are to be dropped as well.
    #[verifier::rlimit(30)]
    pub fn after_tab_closed(&mut self, pane: PaneId, pane_empty: bool) -> (r: bool)
        ensures
            (*final(self), r) == tab_closed_step(*old(self), pane, pane_empty),
    {
        let l = *self;
        let (nl, clear) = if !pane_empty {
            (l, false)
        } else {
            match pane {
                PaneId::SecondaryReader => (
                    Layout {
                        reader_dual_active: false,
                        reader_bottom_open: false,
                        reader_bottom_focused: false,
                        focused_reader: FocusedReader::Primary,
                        focused_pane: PaneId::Reader,
                        ..l
                    },
                    false,
                ),
                PaneId::Reader => if l.reader_dual_active {
                    (
                        Layout {
                            reader_dual_active: false,
                            reader_bottom_open: false,
                            reader_bottom_focused: false,
                            focused_pane: PaneId::Feed,
                            ..l
                        },
                        true,
                    )
                } else if l.reader_split_active {
                    (Layout { reader_split_active: false, focused_pane: PaneId::Feed, ..l }, false)
                } else {
                    (Layout { focused_pane: PaneId::Feed, ..l }, false)
                },
                _ => (l, false),
            }
        };
        *self = nl;
        clear
    }
}

/// Leader then `c` twice opens the chat and closes it again, giving focus
/// back to the primary pane; the leader is done either way.
pub proof fn law_chat_toggle(l: Layout, ctx: LeaderContext)
    requires
        !l.chat_active,
    ensures
        ({
            let (l1, a1) = leader_step(l, Key::Char { c: 'c', ctrl: false }, ctx);
            let (l2, a2) = leader_step(l1, Key::Char { c: 'c', ctrl: false }, ctx);
            &&& a1 == LeaderAction::EnsureChat
            &&& l1.focused_pane == PaneId::Chat
            &&& !l2.chat_active && !l2.chat_fullscreen
            &&& l2.focused_pane == primary(l)
            &&& !l2.leader_active
        }),
{
}

/// Moving focus with h/j/k/l keeps the leader waiting for another key; any
/// other key ends it.
pub proof fn law_leader_ends_unless_navigating(l: Layout, key: Key, ctx: LeaderContext)
    ensures
        leader_step(l, key, ctx).0.leader_active == (l.leader_active && nav_dir(key) is Some),
{
    let l1 = if nav_dir(key) is Some { l } else { Layout { leader_active: false, ..l } };
    lemma_steps_keep_leader(l1, ctx);
    match key {
        Key::Char { c, ctrl: _ } => {
            assert(pane_key_step(l1, c, ctx).0.leader_active == l1.leader_active);
            assert(other_key_step(l1, c, ctx).0.leader_active == l1.leader_active);
        },
        _ => {},
    }
}

proof fn lemma_steps_keep_leader(l: Layout, ctx: LeaderContext)
    ensures
        forall|c: char| #[trigger] pane_key_step(l, c, ctx).0.leader_active == l.leader_active,
        forall|c: char| #[trigger] other_key_step(l, c, ctx).0.leader_active == l.leader_active,
        esc_step(l).0.leader_active == l.leader_active,
        reader_cycle_step(l, ctx).0.leader_active == l.leader_active,
{
}

} // verus!
