//! Key handling for the discovery search bar and the scroll windows of the
//! pickers that go with it.
use vstd::prelude::*;

use crate::commands::parser::{parse_slash_command, spec_parsed, SlashCommandInvocation};
use crate::commands::registry::{
    discovery_palette_completion, discovery_palette_count, palette_rows, spec_row, COMMAND_COUNT,
};
use crate::strs::{chars_of, lowercase, string_of};

verus! {

broadcast use vstd::string::group_string_axioms;

/// A key press, as far as the inputs here read it.
#[derive(Clone, Copy, PartialEq, Eq, Debug, Structural)]
pub enum Key {
    Esc,
    Up,
    Down,
    Tab,
    /// Shift-Tab.
    BackTab,
    Enter,
    Backspace,
    /// A character key, and whether Ctrl was held.
    Char { c: char, ctrl: bool },
    Other,
}

// ---------------------------------------------------------------------------
// Scroll windows
// ---------------------------------------------------------------------------

/// Rows the discovery command palette shows at once.
pub const PALETTE_ROWS: usize = 8;

/// Rows the theme picker shows at once.
pub const THEME_PICKER_ROWS: usize = 10;

/// The first row of a window of `visible` rows after moving the selection
/// to `sel`: unchanged while `sel` is inside it, else scrolled just far
/// enough to show `sel`.
pub open spec fn scrolled(sel: int, scroll: int, visible: int) -> int {
    if sel < scroll {
        sel
    } else if sel >= scroll + visible {
        sel + 1 - visible
    } else {
        scroll
    }
}

/// The palette's first shown row once `selected` must be visible.
pub fn clamp_discovery_palette_scroll(selected: usize, scroll: usize) -> (r: usize)
    ensures
        r == scrolled(selected as int, scroll as int, PALETTE_ROWS as int),
{
    if selected < scroll {
        selected
    } else if selected - scroll >= PALETTE_ROWS {
        selected - (PALETTE_ROWS - 1)
    } else {
        scroll
    }
}

/// The theme picker's first shown row once `cursor` must be visible.
pub fn clamp_theme_picker_scroll(cursor: usize, scroll: usize) -> (r: usize)
    ensures
        r == scrolled(cursor as int, scroll as int, THEME_PICKER_ROWS as int),
{
    if cursor < scroll {
        cursor
    } else if cursor - scroll >= THEME_PICKER_ROWS {
        cursor - (THEME_PICKER_ROWS - 1)
    } else {
        scroll
    }
}

/// After scrolling, the selected row is on screen; a window that already
/// showed it does not move.
pub proof fn law_scrolled_shows_selection(sel: int, scroll: int, visible: int)
    requires
        visible > 0,
    ensures
        scrolled(sel, scroll, visible) <= sel < scrolled(sel, scroll, visible) + visible,
        scroll <= sel < scroll + visible ==> scrolled(sel, scroll, visible) == scroll,
{
}

// ---------------------------------------------------------------------------
// The discovery search bar
// ---------------------------------------------------------------------------

/// The discovery tab's search bar: what is typed, whether it has focus, the
/// command palette's selection and scroll, and whether the next search
/// starts a fresh session.
pub struct DiscoveryBar {
    pub query: String,
    pub focused: bool,
    pub palette_selected: usize,
    pub palette_scroll: usize,
    pub force_new: bool,
}

/// What the caller does after a key reached the bar.
#[derive(Debug)]
pub enum BarAction {
    /// The bar did not take the key; other handlers see it.
    Pass,
    /// The bar took the key; nothing more to do.
    Nothing,
    /// Run the slash command that was submitted.
    Command(SlashCommandInvocation),
    /// Start a discovery search for the submitted text.
    Discover(String),
}

/// The kind of a `BarAction`, for the model below.
pub enum Act {
    Pass,
    Nothing,
    Command,
    Discover,
}

/// The bar as values: query, focus, palette selection, palette scroll,
/// fresh-session flag.
pub type BarModel = (Seq<char>, bool, int, int, bool);

/// A query that starts with `/` drives the command palette.
pub open spec fn palette_active(q: Seq<char>) -> bool {
    q.len() > 0 && q[0] == '/'
}

/// The bar after `key` (and what it asks of the caller); `loading` tells
/// whether a discovery search is running.  Unfocused, a character other
/// than `q` focuses the bar and is typed into it; any other key passes.
/// Focused, the bar takes every key.
pub open spec fn bar_step(s: BarModel, key: Key, loading: bool) -> (BarModel, Act) {
    let (q, focused, sel, scr, fresh) = s;
    let rows = palette_rows(lowercase(q), COMMAND_COUNT as int);
    if !focused {
        match key {
            Key::Char { c, ctrl } => if c != 'q' {
                ((q.push(c), true, sel, scr, fresh), Act::Nothing)
            } else {
                (s, Act::Pass)
            },
            _ => (s, Act::Pass),
        }
    } else {
        match key {
            Key::Esc => ((q, false, 0, 0, fresh), Act::Nothing),
            Key::Up => if palette_active(q) {
                let ns = if sel > 0 { sel - 1 } else { 0 };
                ((q, focused, ns, scrolled(ns, scr, PALETTE_ROWS as int), fresh), Act::Nothing)
            } else {
                (s, Act::Nothing)
            },
            Key::Down => if palette_active(q) && sel + 1 < rows.len() {
                ((q, focused, sel + 1, scrolled(sel + 1, scr, PALETTE_ROWS as int), fresh), Act::Nothing)
            } else {
                (s, Act::Nothing)
            },
            Key::Tab => if palette_active(q) && sel < rows.len() {
                ((spec_row(rows[sel]).2, focused, 0, 0, fresh), Act::Nothing)
            } else {
                (s, Act::Nothing)
            },
            Key::Enter => if q.len() > 0 && !loading {
                if palette_active(q) {
                    ((Seq::empty(), false, 0, 0, fresh), Act::Command)
                } else {
                    ((q, focused, 0, 0, fresh), Act::Discover)
                }
            } else {
                (s, Act::Nothing)
            },
            Key::Backspace => {
                let q2 = if q.len() > 0 { q.drop_last() } else { q };
                if palette_active(q2) {
                    ((q2, focused, sel, scr, fresh), Act::Nothing)
                } else {
                    ((q2, focused, 0, 0, fresh), Act::Nothing)
                }
            },
            Key::Char { c, ctrl } => if c == 'n' && ctrl {
                ((Seq::empty(), focused, 0, 0, true), Act::Nothing)
            } else {
                ((q.push(c), focused, 0, 0, fresh), Act::Nothing)
            },
            Key::BackTab | Key::Other => (s, Act::Nothing),
        }
    }
}

/// `r` is the action `act` asks for, the query having been `q`.
pub open spec fn action_is(r: BarAction, act: Act, q: Seq<char>) -> bool {
    match act {
        Act::Pass => r is Pass,
        Act::Nothing => r is Nothing,
        Act::Command => r matches BarAction::Command(c) && spec_parsed(c, q),
        Act::Discover => r matches BarAction::Discover(d) && d@ == q,
    }
}

impl DiscoveryBar {
    pub open spec fn model(&self) -> BarModel {
        (self.query@, self.focused, self.palette_selected as int, self.palette_scroll as int, self.force_new)
    }

    /// An empty, unfocused bar.
    pub fn new() -> (r: Self)
        ensures
            r.model() == (Seq::<char>::empty(), false, 0int, 0int, false),
    {
        DiscoveryBar {
            query: string_of(&Vec::new()),
            focused: false,
            palette_selected: 0,
            palette_scroll: 0,
            force_new: false,
        }
    }

    /// Handle one key on the discovery tab (see `bar_step`).
    pub fn handle_key(&mut self, key: Key, loading: bool) -> (r: BarAction)
        ensures
            final(self).model() == bar_step(old(self).model(), key, loading).0,
            action_is(r, bar_step(old(self).model(), key, loading).1, old(self).query@),
    {
        let mut v = chars_of(self.query.as_str());
        if !self.focused {
            match key {
                Key::Char { c, ctrl: _ } => {
                    if c != 'q' {
                        v.push(c);
                        self.query = string_of(&v);
                        self.focused = true;
                        return BarAction::Nothing;
                    }
                    return BarAction::Pass;
                },
                _ => {
                    return BarAction::Pass;
                },
            }
        }
        let palette = v.len() > 0 && v[0] == '/';
        match key {
            Key::Esc => {
                self.focused = false;
                self.palette_selected = 0;
                self.palette_scroll = 0;
            },
            Key::Up => {
                if palette {
                    let ns = if self.palette_selected > 0 { self.palette_selected - 1 } else { 0 };
                    self.palette_selected = ns;
                    self.palette_scroll = clamp_discovery_palette_scroll(ns, self.palette_scroll);
                }
            },
            Key::Down => {
                if palette {
                    let count = discovery_palette_count(self.query.as_str());
                    if self.palette_selected < count && count - self.palette_selected > 1 {
                        let ns = self.palette_selected + 1;
                        self.palette_selected = ns;
                        self.palette_scroll = clamp_discovery_palette_scroll(ns, self.palette_scroll);
                    }
                }
            },
            Key::Tab => {
                if palette {
                    match discovery_palette_completion(self.query.as_str(), self.palette_selected) {
                        Some(completion) => {
                            self.query = completion;
                            self.palette_selected = 0;
                            self.palette_scroll = 0;
                        },
                        None => {},
                    }
                }
            },
            Key::Enter => {
                if v.len() > 0 && !loading {
                    let query = string_of(&v);
                    self.palette_selected = 0;
                    self.palette_scroll = 0;
                    if palette {
                        self.focused = false;
                        self.query = string_of(&Vec::new());
                        return BarAction::Command(parse_slash_command(query.as_str()));
                    }
                    return BarAction::Discover(query);
                }
            },
            Key::Backspace => {
                if v.len() > 0 {
                    v.pop();
                }
                self.query = string_of(&v);
                if !(v.len() > 0 && v[0] == '/') {
                    self.palette_selected = 0;
                    self.palette_scroll = 0;
                }
            },
            Key::Char { c, ctrl } => {
                if c == 'n' && ctrl {
                    self.force_new = true;
                    self.query = string_of(&Vec::new());
                } else {
                    v.push(c);
                    self.query = string_of(&v);
                }
                self.palette_selected = 0;
                self.palette_scroll = 0;
            },
            Key::BackTab | Key::Other => {},
        }
        BarAction::Nothing
    }
}

/// Typing a character into the focused bar and erasing it gives back the
/// query, with the palette selection reset.
pub proof fn law_type_then_erase(q: Seq<char>, sel: int, scr: int, fresh: bool, c: char, ctrl: bool, loading: bool)
    requires
        !(c == 'n' && ctrl),
    ensures
        bar_step(bar_step((q, true, sel, scr, fresh), Key::Char { c, ctrl }, loading).0, Key::Backspace, loading).0
            == (q, true, 0int, 0int, fresh),
{
    assert(q.push(c).drop_last() =~= q);
}

/// Moving through the palette keeps the selection on a listed command and
/// keeps it on screen.
pub proof fn law_palette_selection_stays_listed(q: Seq<char>, sel: int, scr: int, fresh: bool, key: Key, loading: bool)
    requires
        palette_active(q),
        0 <= sel < palette_rows(lowercase(q), COMMAND_COUNT as int).len(),
        key == Key::Up || key == Key::Down,
    ensures
        ({
            let (s2, act) = bar_step((q, true, sel, scr, fresh), key, loading);
            &&& 0 <= s2.2 < palette_rows(lowercase(q), COMMAND_COUNT as int).len()
            &&& s2.0 == q
            &&& (s2.2 != sel ==> s2.3 <= s2.2 < s2.3 + PALETTE_ROWS)
        }),
{
}

/// Escape leaves the bar unfocused with the palette reset, and keeps what
/// was typed.
pub proof fn law_escape_unfocuses(s: BarModel, loading: bool)
    requires
        s.1,
    ensures
        bar_step(s, Key::Esc, loading) == ((s.0, false, 0int, 0int, s.4), Act::Nothing),
{
}

} // verus!
