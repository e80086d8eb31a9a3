//! Keys on the history tab: moving through the shown entries, changing the
//! time window, deleting an entry, and reopening a paper or a query.
use vstd::prelude::*;

use crate::history::{reconstruct_feed_item, HistoryEntry, HistoryFilter, HistoryKind, Timestamp};
use crate::input::Key;
use crate::library::is_char;
use crate::models::FeedItem;
use crate::sets::StrSet;
use crate::strs::{chars_of, lowercase, push_str, str_eq, string_of};
use crate::text::{truncate_chars, truncated};
use crate::view::{filtered_history, history_shows, indices_where, lemma_indices_in_range};

verus! {

broadcast use vstd::string::group_string_axioms;

/// The history tab's cursor, scroll and time window.
pub struct HistoryTab {
    pub filter: HistoryFilter,
    pub selected_index: usize,
    pub list_offset: usize,
}

/// What the caller does after a key reached the history tab.
#[derive(Debug)]
pub enum HistoryAction {
    /// Not a history key; the generic feed keys apply.
    Pass,
    /// Taken; nothing more to do.
    Handled,
    /// An entry was deleted; the caller saves the history.
    Deleted,
    /// Open the paper at `url` in the browser and show `notice`.
    OpenInBrowser { url: String, notice: String },
    /// Reopen this paper in the reader and show `notice`.
    Reopen { item: FeedItem, notice: String },
    /// Run this discovery query again in a fresh session.
    Rerun(String),
}

/// The positions of the entries the tab shows.
pub open spec fn shown(history: Seq<HistoryEntry>, window: HistoryFilter, now: Timestamp, q: Seq<char>, sources: Set<Seq<char>>) -> Seq<usize> {
    indices_where(history.len(), |i: int| history_shows(history[i], window, now, lowercase(q), sources))
}

/// `e` is not the entry `t` (same kind and key).
pub open spec fn other_entry(e: HistoryEntry, t: HistoryEntry) -> bool {
    !(e.kind == t.kind && e.key@ == t.key@)
}

/// The history without the entries of the kind and key of `t`.
pub open spec fn without_entry(h: Seq<HistoryEntry>, t: HistoryEntry) -> Seq<HistoryEntry> {
    h.filter(|e: HistoryEntry| other_entry(e, t))
}

/// The notice shown when a paper is opened in the browser.
pub open spec fn browser_notice(title: Seq<char>) -> Seq<char> {
    "Opened in browser: "@ + truncated(title, 40)
}

/// The notice shown while a paper is fetched again.
pub open spec fn fetching_notice(title: Seq<char>) -> Seq<char> {
    "Fetching: "@ + truncated(title, 40) + "…"@
}

/// Remove every entry with the kind and key of `t`.
fn delete_entry(history: &mut Vec<HistoryEntry>, kind: HistoryKind, key: &str)
    ensures
        final(history)@ == old(history)@.filter(
            |e: HistoryEntry| !(e.kind == kind && e.key@ == key@),
        ),
{
    let ghost orig = history@;
    let ghost p = |e: HistoryEntry| !(e.kind == kind && e.key@ == key@);
    let mut kept: Vec<HistoryEntry> = Vec::new();
    let mut rest: Vec<HistoryEntry> = Vec::new();
    std::mem::swap(&mut rest, history);
    assert(rest@ == orig);
    let total = rest.len();
    assert(orig.len() == total);
    let mut i: usize = 0;
    assert(orig.take(0) =~= Seq::<HistoryEntry>::empty());
    proof { reveal(Seq::filter); }
    while rest.len() > 0
        invariant
            i + rest@.len() == orig.len(),
            orig.len() <= usize::MAX,
            p == (|e: HistoryEntry| !(e.kind == kind && e.key@ == key@)),
            rest@ == orig.skip(i as int),
            kept@ == orig.take(i as int).filter(p),
        decreases rest.len(),
    {
        let e = rest.remove(0);
        assert(e == orig[i as int]);
        proof {
            reveal(Seq::filter);
            assert(orig.take(i + 1).drop_last() =~= orig.take(i as int));
            assert(orig.take(i + 1).last() == e);
            assert(rest@ =~= orig.skip(i + 1));
            assert(orig.take(i + 1).filter(p) == if p(e) {
                orig.take(i as int).filter(p).push(e)
            } else {
                orig.take(i as int).filter(p)
            });
        }
        let keep = !(e.kind == kind && str_eq(e.key.as_str(), key));
        assert(keep == p(e));
        if keep {
            kept.push(e);
        }
        i += 1;
    }
    assert(orig.take(orig.len() as int) =~= orig);
    *history = kept;
}

impl HistoryTab {
    /// All time, cursor at the top.
    pub fn new() -> (r: Self)
        ensures
            r.filter == HistoryFilter::All,
            r.selected_index == 0,
            r.list_offset == 0,
    {
        HistoryTab { filter: HistoryFilter::All, selected_index: 0, list_offset: 0 }
    }

    /// Handle one key on the history tab.  The tab shows the entries that
    /// fall in its time window at `now`, whose title contains the search
    /// query and whose source is among `sources` (when any are chosen).
    /// ]/[ step the window (cursor to the top); j/k (or the arrows) move the
    /// cursor, g/G jump to the first/last row; Ctrl-d deletes the entry
    /// under the cursor (every entry of its kind and key) and keeps the
    /// cursor on a row; o opens a paper in the browser; Enter reopens a
    /// paper that has its details saved, or runs a query again.  Other keys
    /// pass.
    pub fn handle_key(
        &mut self,
        key: Key,
        history: &mut Vec<HistoryEntry>,
        now: Timestamp,
        search_query: &str,
        sources: &StrSet,
    ) -> (r: HistoryAction)
        ensures
            ({
                let h = old(history)@;
                let rows = shown(h, old(self).filter, now, search_query@, sources.spec_set());
                let idx = old(self).selected_index as int;
                let at = if idx < rows.len() { Some(h[rows[idx] as int]) } else { None };
                &&& !(r is Deleted) ==> final(history)@ == h
                &&& final(self).list_offset == (if is_char(key, ']') || is_char(key, '[') { 0 } else { old(self).list_offset })
                &&& final(self).filter == (if is_char(key, ']') {
                    HistoryFilter::at((old(self).filter.index() + 1) % 6)
                } else if is_char(key, '[') {
                    HistoryFilter::at((old(self).filter.index() + 5) % 6)
                } else {
                    old(self).filter
                })
                &&& (is_char(key, ']') || is_char(key, '[')) ==> final(self).selected_index == 0 && r is Handled
                &&& (is_char(key, 'j') || key == Key::Down) ==> r is Handled && final(self).selected_index == (if rows.len() == 0 {
                    idx
                } else if idx + 1 < rows.len() {
                    idx + 1
                } else {
                    rows.len() - 1
                })
                &&& (is_char(key, 'k') || key == Key::Up) ==> r is Handled && final(self).selected_index == (if idx > 0 {
                    idx - 1
                } else {
                    0
                })
                &&& is_char(key, 'g') ==> r is Handled && final(self).selected_index == 0
                &&& is_char(key, 'G') ==> r is Handled && final(self).selected_index == (if rows.len() > 0 {
                    rows.len() - 1
                } else {
                    idx
                })
                &&& key == (Key::Char { c: 'd', ctrl: true }) ==> match at {
                    None => r is Handled && final(self).selected_index == idx,
                    Some(t) => {
                        let h2 = without_entry(h, t);
                        let n2 = shown(h2, old(self).filter, now, search_query@, sources.spec_set()).len();
                        &&& r is Deleted
                        &&& final(history)@ == h2
                        &&& final(self).selected_index == (if n2 > 0 && idx >= n2 { n2 - 1 } else { idx })
                    },
                }
                &&& is_char(key, 'o') ==> final(self).selected_index == idx && match at {
                    Some(e) => if e.kind == HistoryKind::Paper {
                        r matches HistoryAction::OpenInBrowser { url, notice } && url@ == e.key@
                            && notice@ == browser_notice(e.title@)
                    } else {
                        r is Handled
                    },
                    None => r is Handled,
                }
                &&& key == Key::Enter ==> final(self).selected_index == idx && match at {
                    Some(e) => match e.kind {
                        HistoryKind::Paper => match e.paper_meta {
                            Some(m) => r matches HistoryAction::Reopen { item, notice } && item.url@ == e.key@
                                && item.title@ == e.title@ && item.source_platform == m.source_platform
                                && notice@ == fetching_notice(e.title@),
                            None => r is Handled,
                        },
                        HistoryKind::Query => r matches HistoryAction::Rerun(topic) && topic@ == e.key@,
                    },
                    None => r is Handled,
                }
                &&& !(is_char(key, ']') || is_char(key, '[') || is_char(key, 'j') || key == Key::Down || is_char(key, 'k')
                    || key == Key::Up || is_char(key, 'g') || is_char(key, 'G') || key == (Key::Char { c: 'd', ctrl: true })
                    || is_char(key, 'o') || key == Key::Enter) ==> r is Pass && final(self).selected_index == idx
            }),
    {
        let rows = filtered_history(history, self.filter, now, search_query, sources);
        let ghost h = history@;
        proof {
            lemma_indices_in_range(h.len(), |i: int| history_shows(h[i], self.filter, now, lowercase(search_query@), sources.spec_set()));
            assert(rows@ == shown(h, self.filter, now, search_query@, sources.spec_set()));
        }
        let idx = self.selected_index;
        match key {
            Key::Char { c, ctrl } => {
                if c == ']' || c == '[' {
                    self.filter = if c == ']' { self.filter.next() } else { self.filter.prev() };
                    self.selected_index = 0;
                    self.list_offset = 0;
                    return HistoryAction::Handled;
                }
                if c == 'j' {
                    if rows.len() > 0 {
                        self.selected_index = if idx < rows.len() - 1 { idx + 1 } else { rows.len() - 1 };
                    }
                    return HistoryAction::Handled;
                }
                if c == 'k' {
                    self.selected_index = if idx > 0 { idx - 1 } else { 0 };
                    return HistoryAction::Handled;
                }
                if c == 'g' {
                    self.selected_index = 0;
                    return HistoryAction::Handled;
                }
                if c == 'G' {
                    if rows.len() > 0 {
                        self.selected_index = rows.len() - 1;
                    }
                    return HistoryAction::Handled;
                }
                if c == 'd' && ctrl {
                    if idx >= rows.len() {
                        return HistoryAction::Handled;
                    }
                    let pos = rows[idx];
                    let kind = history[pos].kind;
                    let target_key = history[pos].key.clone();
                    delete_entry(history, kind, target_key.as_str());
                    proof {
                        let t = h[pos as int];
                        assert((|e: HistoryEntry| !(e.kind == kind && e.key@ == target_key@)) =~= (|e: HistoryEntry| other_entry(e, t)));
                    }
                    let rows2 = filtered_history(history, self.filter, now, search_query, sources);
                    let n2 = rows2.len();
                    if n2 > 0 && idx >= n2 {
                        self.selected_index = n2 - 1;
                    }
                    return HistoryAction::Deleted;
                }
                if c == 'o' {
                    if idx < rows.len() {
                        let e = &history[rows[idx]];
                        if e.kind == HistoryKind::Paper {
                            let mut v = chars_of("Opened in browser: ");
                            let short = truncate_chars(e.title.as_str(), 40);
                            push_str(&mut v, short.as_str());
                            let notice = string_of(&v);
                            return HistoryAction::OpenInBrowser { url: e.key.clone(), notice };
                        }
                    }
                    return HistoryAction::Handled;
                }
                HistoryAction::Pass
            },
            Key::Down => {
                if rows.len() > 0 {
                    self.selected_index = if idx < rows.len() - 1 { idx + 1 } else { rows.len() - 1 };
                }
                HistoryAction::Handled
            },
            Key::Up => {
                self.selected_index = if idx > 0 { idx - 1 } else { 0 };
                HistoryAction::Handled
            },
            Key::Enter => {
                if idx >= rows.len() {
                    return HistoryAction::Handled;
                }
                let e = &history[rows[idx]];
                match e.kind {
                    HistoryKind::Paper => match &e.paper_meta {
                        Some(meta) => {
                            let item = reconstruct_feed_item(e, meta);
                            let mut v = chars_of("Fetching: ");
                            let short = truncate_chars(item.title.as_str(), 40);
                            push_str(&mut v, short.as_str());
                            push_str(&mut v, "…");
                            let notice = string_of(&v);
                            HistoryAction::Reopen { item, notice }
                        },
                        None => HistoryAction::Handled,
                    },
                    HistoryKind::Query => HistoryAction::Rerun(e.key.clone()),
                }
            },
            _ => HistoryAction::Pass,
        }
    }
}

/// Deleting an entry removes every entry of its kind and key and keeps
/// every other entry, in order.
pub proof fn law_deleted_entry_is_gone(h: Seq<HistoryEntry>, t: HistoryEntry)
    ensures
        forall|k: int| 0 <= k < without_entry(h, t).len() ==> other_entry(#[trigger] without_entry(h, t)[k], t),
        forall|k: int| 0 <= k < h.len() && other_entry(#[trigger] h[k], t) ==> without_entry(h, t).contains(h[k]),
{
    let p = |e: HistoryEntry| other_entry(e, t);
    assert forall|k: int| 0 <= k < h.filter(p).len() implies other_entry(#[trigger] h.filter(p)[k], t) by {
        h.lemma_filter_pred(p, k);
    }
    assert forall|k: int| 0 <= k < h.len() && other_entry(#[trigger] h[k], t) implies h.filter(p).contains(h[k]) by {
        h.lemma_filter_contains(p, k);
    }
}

} // verus!
