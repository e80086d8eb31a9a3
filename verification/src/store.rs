//! The interface state kept between runs: what was read last and which
//! notes were open.
use vstd::prelude::*;

use crate::app::NotesTab;
use crate::models::FeedItem;

verus! {

broadcast use vstd::string::group_string_axioms;

/// What the interface remembers between runs.
pub struct UiState {
    pub last_read: Option<String>,
    pub last_read_source: Option<String>,
    pub notes_tabs: Vec<NotesTab>,
    pub notes_active_tab: usize,
}

impl Default for UiState {
    fn default() -> (r: Self)
        ensures
            r.last_read is None,
            r.last_read_source is None,
            r.notes_tabs@.len() == 0,
            r.notes_active_tab == 0,
    {
        UiState { last_read: None, last_read_source: None, notes_tabs: Vec::new(), notes_active_tab: 0 }
    }
}

/// `min(i, n - 1)` for a non-empty list of `n`: an index clamped into it.
pub open spec fn clamp_index(i: int, n: int) -> int {
    if i < n - 1 { i } else { n - 1 }
}

impl UiState {
    /// Remember `item` as the last one opened.
    pub fn mark_read(&mut self, item: &FeedItem)
        ensures
            final(self).last_read matches Some(t) && t@ == item.title@,
            final(self).last_read_source matches Some(s) && s@ == crate::app::filter_source_name(*item),
            final(self).notes_tabs@ == old(self).notes_tabs@,
            final(self).notes_active_tab == old(self).notes_active_tab,
    {
        self.last_read = Some(item.title.clone());
        let source = if item.source_name.as_str().is_empty() {
            crate::strs::to_owned_string(item.source_platform.short_label())
        } else {
            item.source_name.clone()
        };
        self.last_read_source = Some(source);
    }

    /// Move to the notes tab before the active one (none when there are no
    /// tabs).
    pub fn notes_prev_tab(&mut self)
        ensures
            old(self).notes_tabs@.len() == 0 ==> *final(self) == *old(self),
            old(self).notes_tabs@.len() > 0 ==> final(self).notes_active_tab == (if old(self).notes_active_tab
                > 0 { old(self).notes_active_tab - 1 } else { 0 }),
            final(self).notes_tabs@ == old(self).notes_tabs@,
            final(self).last_read == old(self).last_read,
            final(self).last_read_source == old(self).last_read_source,
    {
        if self.notes_tabs.len() == 0 {
            return;
        }
        self.notes_active_tab = if self.notes_active_tab > 0 { self.notes_active_tab - 1 } else { 0 };
    }

    /// Move to the notes tab after the active one, stopping at the last.
    pub fn notes_next_tab(&mut self)
        ensures
            old(self).notes_tabs@.len() == 0 ==> *final(self) == *old(self),
            old(self).notes_tabs@.len() > 0 ==> final(self).notes_active_tab == clamp_index(
                old(self).notes_active_tab + 1,
                old(self).notes_tabs@.len() as int,
            ),
            final(self).notes_tabs@ == old(self).notes_tabs@,
            final(self).last_read == old(self).last_read,
            final(self).last_read_source == old(self).last_read_source,
    {
        if self.notes_tabs.len() == 0 {
            return;
        }
        let last = self.notes_tabs.len() - 1;
        let next = if self.notes_active_tab < last { self.notes_active_tab + 1 } else { last };
        self.notes_active_tab = next;
    }

    /// Close the active notes tab (clamped first, since a stale saved index
    /// may point past the end); the tab after it, or else the new last one,
    /// becomes active. Returns whether any tab is left.
    pub fn notes_close_active_tab(&mut self) -> (left: bool)
        ensures
            old(self).notes_tabs@.len() == 0 ==> *final(self) == *old(self) && !left,
            old(self).notes_tabs@.len() > 0 ==> {
                let n = old(self).notes_tabs@.len() as int;
                let i = clamp_index(old(self).notes_active_tab as int, n);
                &&& final(self).notes_tabs@ == old(self).notes_tabs@.remove(i)
                &&& left == (n > 1)
                &&& n > 1 ==> final(self).notes_active_tab == clamp_index(i, n - 1)
                &&& n == 1 ==> final(self).notes_active_tab == 0
            },
            final(self).last_read == old(self).last_read,
            final(self).last_read_source == old(self).last_read_source,
    {
        let n = self.notes_tabs.len();
        if n == 0 {
            return false;
        }
        let i = if self.notes_active_tab < n - 1 { self.notes_active_tab } else { n - 1 };
        self.notes_active_tab = i;
        self.notes_tabs.remove(i);
        let m = self.notes_tabs.len();
        if m == 0 {
            return false;
        }
        self.notes_active_tab = if i < m - 1 { i } else { m - 1 };
        true
    }
}

} // verus!
