//! Library view filters over the reading workflow.
use vstd::prelude::*;

use crate::history::HistoryFilter;
use crate::input::Key;
use crate::merge::KeyIndex;
use crate::models::{FeedItem, WorkflowState};
use crate::sets::StrSet;
use crate::strs::{chars_of, decimal, push_decimal, push_str, str_eq, string_of};

verus! {

/// Which decided-upon items the library shows.
#[derive(Debug, Clone, Copy, PartialEq, Eq, Default, Structural)]
pub enum LibraryFilter {
    /// Everything decided about, except archived: state ∈ {Queued, DeepRead}.
    #[default]
    All,
    Queue,
    Read,
    Archived,
}

impl LibraryFilter {
    pub open spec fn spec_label(self) -> Seq<char> {
        match self {
            LibraryFilter::All => "All"@,
            LibraryFilter::Queue => "Queue"@,
            LibraryFilter::Read => "Read"@,
            LibraryFilter::Archived => "Archived"@,
        }
    }

    pub fn label(self) -> (r: &'static str)
        ensures
            r@ == self.spec_label(),
    {
        match self {
            LibraryFilter::All => "All",
            LibraryFilter::Queue => "Queue",
            LibraryFilter::Read => "Read",
            LibraryFilter::Archived => "Archived",
        }
    }

    /// Position in the display order All, Queue, Read, Archived.
    pub open spec fn spec_index(self) -> int {
        match self {
            LibraryFilter::All => 0,
            LibraryFilter::Queue => 1,
            LibraryFilter::Read => 2,
            LibraryFilter::Archived => 3,
        }
    }

    pub open spec fn spec_at(i: int) -> LibraryFilter {
        if i == 0 {
            LibraryFilter::All
        } else if i == 1 {
            LibraryFilter::Queue
        } else if i == 2 {
            LibraryFilter::Read
        } else {
            LibraryFilter::Archived
        }
    }

    /// The next filter in display order, wrapping around.
    pub fn next(self) -> (r: Self)
        ensures
            r == Self::spec_at((self.spec_index() + 1) % 4),
    {
        match self {
            LibraryFilter::All => LibraryFilter::Queue,
            LibraryFilter::Queue => LibraryFilter::Read,
            LibraryFilter::Read => LibraryFilter::Archived,
            LibraryFilter::Archived => LibraryFilter::All,
        }
    }

    /// The previous filter in display order, wrapping around.
    pub fn prev(self) -> (r: Self)
        ensures
            r == Self::spec_at((self.spec_index() + 3) % 4),
    {
        match self {
            LibraryFilter::All => LibraryFilter::Archived,
            LibraryFilter::Queue => LibraryFilter::All,
            LibraryFilter::Read => LibraryFilter::Queue,
            LibraryFilter::Archived => LibraryFilter::Read,
        }
    }

    pub open spec fn spec_matches(self, state: WorkflowState) -> bool {
        match self {
            LibraryFilter::All => state == WorkflowState::Queued || state == WorkflowState::DeepRead,
            LibraryFilter::Queue => state == WorkflowState::Queued,
            LibraryFilter::Read => state == WorkflowState::DeepRead,
            LibraryFilter::Archived => state == WorkflowState::Archived,
        }
    }

    pub fn matches(self, state: WorkflowState) -> (r: bool)
        ensures
            r == self.spec_matches(state),
    {
        match self {
            LibraryFilter::All => state == WorkflowState::Queued || state == WorkflowState::DeepRead,
            LibraryFilter::Queue => state == WorkflowState::Queued,
            LibraryFilter::Read => state == WorkflowState::DeepRead,
            LibraryFilter::Archived => state == WorkflowState::Archived,
        }
    }
}

/// Stepping forward then back (or back then forward) returns to the same
/// filter; four steps forward make a full cycle.
pub proof fn law_library_filter_next_prev(f: LibraryFilter)
    ensures
        LibraryFilter::spec_at((LibraryFilter::spec_at((f.spec_index() + 1) % 4).spec_index() + 3)
            % 4) == f,
        LibraryFilter::spec_at((LibraryFilter::spec_at((f.spec_index() + 3) % 4).spec_index() + 1)
            % 4) == f,
        LibraryFilter::spec_at(f.spec_index()) == f,
{
}

/// Inbox items never show in the library, and every other state shows under
/// exactly the filters named for it (plus `All` for queued and read items).
pub proof fn law_library_filter_partition(state: WorkflowState)
    ensures
        state == WorkflowState::Inbox ==> !LibraryFilter::All.spec_matches(state)
            && !LibraryFilter::Queue.spec_matches(state) && !LibraryFilter::Read.spec_matches(
            state,
        ) && !LibraryFilter::Archived.spec_matches(state),
        LibraryFilter::Archived.spec_matches(state) ==> !LibraryFilter::All.spec_matches(state),
        LibraryFilter::Queue.spec_matches(state) || LibraryFilter::Read.spec_matches(state)
            ==> LibraryFilter::All.spec_matches(state),
{
}

// ---------------------------------------------------------------------------
// Visual selection
// ---------------------------------------------------------------------------

/// The URLs of the visible rows `lo..=hi` (rows past the end are ignored);
/// `visible` holds the item index of each row.
pub open spec fn range_urls(items: Seq<FeedItem>, visible: Seq<usize>, lo: int, hi: int) -> Set<Seq<char>> {
    Set::new(|u: Seq<char>| exists|i: int| lo <= i <= hi && 0 <= i < visible.len() && #[trigger] items[visible[i] as int].url@ == u)
}

/// The selection after the cursor or the anchor moved: in visual mode the
/// URLs of the rows between cursor and anchor (both included), else nothing.
pub fn library_recompute_selection(
    items: &Vec<FeedItem>,
    visible: &Vec<usize>,
    visual_mode: bool,
    cursor: usize,
    anchor: usize,
) -> (r: StrSet)
    requires
        forall|i: int| 0 <= i < visible@.len() ==> #[trigger] visible@[i] < items@.len(),
    ensures
        r.spec_set() == if !visual_mode {
            Set::<Seq<char>>::empty()
        } else if cursor <= anchor {
            range_urls(items@, visible@, cursor as int, anchor as int)
        } else {
            range_urls(items@, visible@, anchor as int, cursor as int)
        },
{
    let mut r = StrSet::new();
    if !visual_mode {
        return r;
    }
    let (lo, hi) = if cursor <= anchor { (cursor, anchor) } else { (anchor, cursor) };
    let mut i: usize = 0;
    while i < visible.len()
        invariant
            0 <= i <= visible@.len(),
            forall|k: int| 0 <= k < visible@.len() ==> #[trigger] visible@[k] < items@.len(),
            r.spec_set() == range_urls(items@, visible@, lo as int, hi as int).filter(
                |u: Seq<char>| exists|k: int| 0 <= k < i && lo <= k <= hi && #[trigger] items@[visible@[k] as int].url@ == u,
            ),
        decreases visible.len() - i,
    {
        if lo <= i && i <= hi {
            let url = items[visible[i]].url.clone();
            r.insert(url);
        }
        proof {
            let pre = |u: Seq<char>| exists|k: int| 0 <= k < i && lo <= k <= hi && #[trigger] items@[visible@[k] as int].url@ == u;
            let post = |u: Seq<char>| exists|k: int| 0 <= k < i + 1 && lo <= k <= hi && #[trigger] items@[visible@[k] as int].url@ == u;
            let all = range_urls(items@, visible@, lo as int, hi as int);
            assert forall|u: Seq<char>| r.spec_set().contains(u) <==> #[trigger] all.filter(post).contains(u) by {
                if post(u) && !pre(u) {
                    assert(items@[visible@[i as int] as int].url@ == u);
                }
                if pre(u) {
                    let k = choose|k: int| 0 <= k < i && lo <= k <= hi && #[trigger] items@[visible@[k] as int].url@ == u;
                    assert(post(u));
                }
            }
            assert(r.spec_set() =~= all.filter(post));
        }
        i += 1;
    }
    proof {
        let fin = |u: Seq<char>| exists|k: int| 0 <= k < visible@.len() && lo <= k <= hi && #[trigger] items@[visible@[k] as int].url@ == u;
        let all = range_urls(items@, visible@, lo as int, hi as int);
        assert(all.filter(fin) =~= all);
    }
    r
}

/// Item `k` is the first item with URL `u`.
pub open spec fn first_with_url(items: Seq<FeedItem>, k: int, u: Seq<char>) -> bool {
    &&& 0 <= k < items.len()
    &&& items[k].url@ == u
    &&& forall|j: int| 0 <= j < k ==> #[trigger] items[j].url@ != u
}

/// Some item has URL `u`.
pub open spec fn has_url(items: Seq<FeedItem>, u: Seq<char>) -> bool {
    exists|k: int| 0 <= k < items.len() && #[trigger] items[k].url@ == u
}

/// The item after a bulk state change over the URLs `chosen`: the first
/// item with each chosen URL takes `state`.
pub open spec fn after_bulk_state(items: Seq<FeedItem>, k: int, chosen: Set<Seq<char>>, state: WorkflowState) -> FeedItem {
    if chosen.contains(items[k].url@) && first_with_url(items, k, items[k].url@) {
        FeedItem { workflow_state: state, ..items[k] }
    } else {
        items[k]
    }
}

proof fn lemma_take_push_set(s: Seq<Seq<char>>, j: int)
    requires
        0 <= j < s.len(),
    ensures
        s.take(j + 1).to_set() == s.take(j).to_set().insert(s[j]),
{
    assert forall|x: Seq<char>| s.take(j + 1).to_set().contains(x) <==> s.take(j).to_set().insert(s[j]).contains(x) by {
        if s.take(j + 1).contains(x) {
            let t = choose|t: int| 0 <= t < j + 1 && #[trigger] s.take(j + 1)[t] == x;
            if t < j {
                assert(s.take(j)[t] == x);
            }
        }
        if s.take(j).contains(x) {
            let t = choose|t: int| 0 <= t < j && #[trigger] s.take(j)[t] == x;
            assert(s.take(j + 1)[t] == x);
        }
        if x == s[j] {
            assert(s.take(j + 1)[j] == x);
        }
    }
    assert(s.take(j + 1).to_set() =~= s.take(j).to_set().insert(s[j]));
}

/// Index of the first item with URL `url`, if any.
fn find_url(items: &Vec<FeedItem>, url: &str) -> (r: Option<usize>)
    ensures
        match r {
            Some(k) => first_with_url(items@, k as int, url@),
            None => !has_url(items@, url@),
        },
{
    let mut k: usize = 0;
    while k < items.len()
        invariant
            0 <= k <= items@.len(),
            forall|j: int| 0 <= j < k ==> #[trigger] items@[j].url@ != url@,
        decreases items.len() - k,
    {
        if str_eq(items[k].url.as_str(), url) {
            return Some(k);
        }
        k += 1;
    }
    None
}

/// Give every selected item the workflow `state`, recording it among the
/// saved states, and return how many items changed: for each selected URL
/// the first item with that URL takes the state; URLs that match no item
/// are skipped.
pub fn apply_workflow_to_selection(
    items: &mut Vec<FeedItem>,
    saved: &mut KeyIndex<WorkflowState>,
    selected: &StrSet,
    state: WorkflowState,
) -> (count: usize)
    requires
        old(saved).wf(),
    ensures
        final(saved).wf(),
        final(items)@.len() == old(items)@.len(),
        forall|k: int| 0 <= k < old(items)@.len() ==> #[trigger] final(items)@[k] == after_bulk_state(old(items)@, k, selected.spec_set(), state),
        final(saved).spec_map() == old(saved).spec_map().union_prefer_right(
            Map::new(|u: Seq<char>| selected.spec_set().contains(u) && has_url(old(items)@, u), |u: Seq<char>| state),
        ),
        count == selected.spec_set().filter(|u: Seq<char>| has_url(old(items)@, u)).len(),
{
    let ghost orig = items@;
    let ghost orig_saved = saved.spec_map();
    let urls = selected.values();
    let ghost names = crate::models::views(urls@);
    let mut hit: Ghost<Set<Seq<char>>> = Ghost(Set::empty());
    let mut count: usize = 0;
    let mut j: usize = 0;
    assert(names.take(0).to_set().filter(|u: Seq<char>| has_url(orig, u)) =~= Set::<Seq<char>>::empty());
    while j < urls.len()
        invariant
            0 <= j <= urls@.len(),
            names == crate::models::views(urls@),
            names.no_duplicates(),
            names.to_set() == selected.spec_set(),
            saved.wf(),
            items@.len() == orig.len(),
            hit@.finite(),
            count == hit@.len(),
            count <= j,
            hit@ == names.take(j as int).to_set().filter(|u: Seq<char>| has_url(orig, u)),
            forall|k: int| 0 <= k < orig.len() ==> #[trigger] items@[k] == after_bulk_state(orig, k, hit@, state),
            saved.spec_map() == orig_saved.union_prefer_right(Map::new(|u: Seq<char>| hit@.contains(u), |u: Seq<char>| state)),
        decreases urls.len() - j,
    {
        let url = &urls[j];
        let ghost u = url@;
        assert(u == names[j as int]);
        assert(!names.take(j as int).contains(u)) by {
            if names.take(j as int).contains(u) {
                let t = choose|t: int| 0 <= t < j && names.take(j as int)[t] == u;
                assert(names[t] == names[j as int]);
            }
        }
        proof {
            assert forall|k: int| 0 <= k < orig.len() implies #[trigger] items@[k].url@ == orig[k].url@ by {
                assert(items@[k] == after_bulk_state(orig, k, hit@, state));
            }
        }
        match find_url(items, url.as_str()) {
            Some(k) => {
                proof {
                    assert(first_with_url(orig, k as int, u)) by {
                        assert forall|i: int| 0 <= i < k implies #[trigger] orig[i].url@ != u by {
                            assert(items@[i].url@ == orig[i].url@);
                        }
                    }
                    assert(has_url(orig, u));
                }
                let mut it = items.remove(k);
                it.workflow_state = state;
                items.insert(k, it);
                saved.insert(url.clone(), state);
                let ghost new_hit = hit@.insert(u);
                proof {
                    assert(!hit@.contains(u));
                    assert forall|i: int| 0 <= i < orig.len() implies #[trigger] items@[i] == after_bulk_state(orig, i, new_hit, state) by {
                        if i != k {
                            if orig[i].url@ == u {
                                assert(!first_with_url(orig, i, u)) by {
                                    if i < k {
                                        assert(orig[i].url@ != u);
                                    } else {
                                        assert(orig[k as int].url@ == u);
                                    }
                                }
                            }
                        }
                    }
                    assert(saved.spec_map() =~= orig_saved.union_prefer_right(Map::new(|v: Seq<char>| new_hit.contains(v), |v: Seq<char>| state)));
                    assert(names.take(j + 1) =~= names.take(j as int).push(u));
                    lemma_take_push_set(names, j as int);
                    assert(new_hit =~= names.take(j + 1).to_set().filter(|v: Seq<char>| has_url(orig, v)));
                }
                hit = Ghost(new_hit);
                count += 1;
            },
            None => {
                proof {
                    assert(!has_url(orig, u)) by {
                        if has_url(orig, u) {
                            let k = choose|k: int| 0 <= k < orig.len() && #[trigger] orig[k].url@ == u;
                            assert(items@[k].url@ == u);
                        }
                    }
                    assert(names.take(j + 1) =~= names.take(j as int).push(u));
                    lemma_take_push_set(names, j as int);
                    assert(hit@ =~= names.take(j + 1).to_set().filter(|v: Seq<char>| has_url(orig, v)));
                }
            },
        }
        j += 1;
    }
    proof {
        assert(names.take(urls@.len() as int) =~= names);
        assert forall|k: int| 0 <= k < orig.len() implies #[trigger] items@[k] == after_bulk_state(orig, k, selected.spec_set(), state) by {
            assert(items@[k] == after_bulk_state(orig, k, hit@, state));
            assert(hit@.contains(orig[k].url@) <==> selected.spec_set().contains(orig[k].url@)) by {
                if selected.spec_set().contains(orig[k].url@) {
                    assert(has_url(orig, orig[k].url@));
                }
            }
        }
        assert(Map::new(|u: Seq<char>| hit@.contains(u), |u: Seq<char>| state) =~= Map::new(
            |u: Seq<char>| selected.spec_set().contains(u) && has_url(orig, u),
            |u: Seq<char>| state,
        ));
    }
    count
}

proof fn lemma_first_with_url_exists(items: Seq<FeedItem>, u: Seq<char>)
    requires
        has_url(items, u),
    ensures
        exists|k: int| first_with_url(items, k, u),
    decreases items.len(),
{
    let init = items.drop_last();
    if has_url(init, u) {
        lemma_first_with_url_exists(init, u);
        let k = choose|k: int| first_with_url(init, k, u);
        assert forall|j: int| 0 <= j < k implies #[trigger] items[j].url@ != u by {
            assert(init[j] == items[j]);
        }
        assert(first_with_url(items, k, u));
    } else {
        let k = choose|k: int| 0 <= k < items.len() && #[trigger] items[k].url@ == u;
        if k < items.len() - 1 {
            assert(init[k].url@ == u);
        }
        assert forall|j: int| 0 <= j < items.len() - 1 implies #[trigger] items[j].url@ != u by {
            assert(init[j] == items[j]);
        }
        assert(first_with_url(items, items.len() - 1, u));
    }
}

/// A bulk state change reaches every selected URL that is in the feed: an
/// item with that URL ends in the new state.
pub proof fn law_bulk_state_reaches_selection(items: Seq<FeedItem>, chosen: Set<Seq<char>>, state: WorkflowState, u: Seq<char>)
    requires
        chosen.contains(u),
        has_url(items, u),
    ensures
        exists|k: int| 0 <= k < items.len() && #[trigger] after_bulk_state(items, k, chosen, state).url@ == u
            && after_bulk_state(items, k, chosen, state).workflow_state == state,
{
    lemma_first_with_url_exists(items, u);
    let k = choose|k: int| first_with_url(items, k, u);
    assert(after_bulk_state(items, k, chosen, state).url@ == u);
}

// ---------------------------------------------------------------------------
// Keys on the library tab
// ---------------------------------------------------------------------------

/// The library tab's own state: its filters, cursor and scroll, and the
/// visual selection (anchor row and the selected URLs).
pub struct LibraryTab {
    pub filter: LibraryFilter,
    pub time_filter: HistoryFilter,
    pub selected_index: usize,
    pub list_offset: usize,
    pub visual_mode: bool,
    pub visual_anchor: usize,
    pub selected_urls: StrSet,
}

/// What the caller does after a key reached the library tab.
#[derive(Debug)]
pub enum LibraryAction {
    /// Not a library key; the generic feed keys apply.
    Pass,
    /// Taken; the view may have changed.
    Handled,
    /// Items were moved to `state`; `count` of them changed, and `notice`
    /// tells the user (the caller saves the states).
    Marked { state: WorkflowState, count: usize, notice: String },
    /// Open the tag picker on these URLs.
    TagPicker(Vec<String>),
}

/// The workflow state a key moves the visual selection to.
pub open spec fn bulk_key_state(c: char) -> Option<WorkflowState> {
    if c == 'r' {
        Some(WorkflowState::DeepRead)
    } else if c == 'w' {
        Some(WorkflowState::Queued)
    } else if c == 'x' {
        Some(WorkflowState::Archived)
    } else if c == 'i' {
        Some(WorkflowState::Inbox)
    } else {
        None
    }
}

/// The message shown after moving `n` items to `state`.
pub open spec fn bulk_notice(state: WorkflowState, n: nat) -> Seq<char> {
    match state {
        WorkflowState::DeepRead => "Marked "@ + decimal(n) + " as read"@,
        WorkflowState::Queued => "Queued "@ + decimal(n) + " items"@,
        WorkflowState::Archived => "Archived "@ + decimal(n) + " items"@,
        WorkflowState::Inbox => "Moved "@ + decimal(n) + " back to Inbox"@,
    }
}

fn bulk_notice_text(state: WorkflowState, n: usize) -> (r: String)
    ensures
        r@ == bulk_notice(state, n as nat),
{
    let (head, tail) = match state {
        WorkflowState::DeepRead => ("Marked ", " as read"),
        WorkflowState::Queued => ("Queued ", " items"),
        WorkflowState::Archived => ("Archived ", " items"),
        WorkflowState::Inbox => ("Moved ", " back to Inbox"),
    };
    let mut v = chars_of(head);
    push_decimal(&mut v, n as u64);
    push_str(&mut v, tail);
    string_of(&v)
}

/// The key is `c`, with or without Ctrl.
pub open spec fn is_char(key: Key, c: char) -> bool {
    key matches Key::Char { c: k, ctrl: _ } && k == c
}

/// The selection for a cursor at `idx` in visual mode.
pub open spec fn visual_range(items: Seq<FeedItem>, visible: Seq<usize>, anchor: int, idx: int) -> Set<Seq<char>> {
    if idx <= anchor {
        range_urls(items, visible, idx, anchor)
    } else {
        range_urls(items, visible, anchor, idx)
    }
}

impl LibraryTab {
    /// All items, no time limit, cursor at the top, not selecting.
    pub fn new() -> (r: Self)
        ensures
            r.filter == LibraryFilter::All,
            r.time_filter == HistoryFilter::All,
            r.selected_index == 0,
            r.list_offset == 0,
            !r.visual_mode,
            r.visual_anchor == 0,
            r.selected_urls.spec_set() == Set::<Seq<char>>::empty(),
    {
        LibraryTab {
            filter: LibraryFilter::All,
            time_filter: HistoryFilter::All,
            selected_index: 0,
            list_offset: 0,
            visual_mode: false,
            visual_anchor: 0,
            selected_urls: StrSet::new(),
        }
    }

    /// Leave visual mode and drop the selection.
    pub fn exit_visual(&mut self)
        ensures
            !final(self).visual_mode,
            final(self).visual_anchor == 0,
            final(self).selected_urls.spec_set() == Set::<Seq<char>>::empty(),
            final(self).filter == old(self).filter,
            final(self).time_filter == old(self).time_filter,
            final(self).selected_index == old(self).selected_index,
            final(self).list_offset == old(self).list_offset,
    {
        self.visual_mode = false;
        self.visual_anchor = 0;
        self.selected_urls = StrSet::new();
    }

    /// Handle one key on the library tab.  `visible` lists the item index
    /// of each row the tab shows; `saved` holds the saved workflow states.
    /// In visual mode every key is taken: Esc leaves the mode, j/k (or the
    /// arrows) move the cursor and re-select the rows between anchor and
    /// cursor, r/w/x/i move the selection to read/queued/archived/inbox
    /// and leave the mode, t opens the tag picker on the selection.
    /// Otherwise ]/[ step the state filter, }/{ the time filter (both
    /// sending the cursor to the top), v starts a selection at the cursor,
    /// t opens the tag picker on the item under the cursor; other keys pass.
    pub fn handle_key(
        &mut self,
        key: Key,
        items: &mut Vec<FeedItem>,
        visible: &Vec<usize>,
        saved: &mut KeyIndex<WorkflowState>,
    ) -> (r: LibraryAction)
        requires
            forall|i: int| 0 <= i < visible@.len() ==> #[trigger] visible@[i] < old(items)@.len(),
            old(saved).wf(),
        ensures
            final(saved).wf(),
            final(items)@.len() == old(items)@.len(),
            // Keys that change no item leave the items and saved states alone.
            !(r is Marked) ==> final(items)@ == old(items)@ && final(saved).spec_map() == old(saved).spec_map(),
            old(self).visual_mode ==> {
                &&& !(r is Pass)
                &&& key == Key::Esc ==> {
                    &&& !final(self).visual_mode
                    &&& final(self).visual_anchor == 0
                    &&& final(self).selected_urls.spec_set() == Set::<Seq<char>>::empty()
                    &&& final(self).selected_index == old(self).selected_index
                    &&& r is Handled
                }
                &&& (is_char(key, 'j') || key == Key::Down) ==> {
                    &&& final(self).visual_mode
                    &&& final(self).selected_index == if visible@.len() == 0 {
                        old(self).selected_index as int
                    } else if old(self).selected_index + 1 < visible@.len() {
                        old(self).selected_index + 1
                    } else {
                        visible@.len() - 1
                    }
                    &&& visible@.len() > 0 ==> final(self).selected_urls.spec_set() == visual_range(
                        old(items)@,
                        visible@,
                        old(self).visual_anchor as int,
                        final(self).selected_index as int,
                    )
                    &&& visible@.len() == 0 ==> final(self).selected_urls.spec_set() == old(self).selected_urls.spec_set()
                    &&& r is Handled
                }
                &&& (is_char(key, 'k') || key == Key::Up) ==> {
                    &&& final(self).visual_mode
                    &&& final(self).selected_index == if old(self).selected_index > 0 {
                        old(self).selected_index - 1
                    } else {
                        0
                    }
                    &&& final(self).selected_urls.spec_set() == visual_range(
                        old(items)@,
                        visible@,
                        old(self).visual_anchor as int,
                        final(self).selected_index as int,
                    )
                    &&& r is Handled
                }
                &&& (key matches Key::Char { c, ctrl: _ } && bulk_key_state(c) is Some) ==> {
                    let st = bulk_key_state(key->c).unwrap();
                    let chosen = old(self).selected_urls.spec_set();
                    let n = chosen.filter(|u: Seq<char>| has_url(old(items)@, u)).len();
                    &&& forall|k: int| 0 <= k < old(items)@.len() ==> #[trigger] final(items)@[k] == after_bulk_state(old(items)@, k, chosen, st)
                    &&& final(saved).spec_map() == old(saved).spec_map().union_prefer_right(
                        Map::new(|u: Seq<char>| chosen.contains(u) && has_url(old(items)@, u), |u: Seq<char>| st),
                    )
                    &&& (r matches LibraryAction::Marked { state, count, notice } && state == st && count == n
                        && notice@ == bulk_notice(st, n))
                    &&& !final(self).visual_mode
                    &&& final(self).selected_urls.spec_set() == Set::<Seq<char>>::empty()
                }
                &&& is_char(key, 't') ==> {
                    let chosen = old(self).selected_urls.spec_set();
                    &&& chosen.is_empty() ==> r is Handled
                    &&& !chosen.is_empty() ==> (r matches LibraryAction::TagPicker(urls) && crate::models::views(urls@).to_set() == chosen
                        && crate::models::views(urls@).no_duplicates())
                    &&& final(self).visual_mode
                }
            },
            !old(self).visual_mode ==> {
                &&& is_char(key, ']') ==> final(self).filter == LibraryFilter::spec_at((old(self).filter.spec_index() + 1) % 4)
                    && final(self).selected_index == 0 && final(self).list_offset == 0 && r is Handled
                &&& is_char(key, '[') ==> final(self).filter == LibraryFilter::spec_at((old(self).filter.spec_index() + 3) % 4)
                    && final(self).selected_index == 0 && final(self).list_offset == 0 && r is Handled
                &&& is_char(key, '}') ==> final(self).time_filter == HistoryFilter::at((old(self).time_filter.index() + 1) % 6)
                    && final(self).selected_index == 0 && final(self).list_offset == 0 && r is Handled
                &&& is_char(key, '{') ==> final(self).time_filter == HistoryFilter::at((old(self).time_filter.index() + 5) % 6)
                    && final(self).selected_index == 0 && final(self).list_offset == 0 && r is Handled
                &&& is_char(key, 'v') ==> final(self).visual_mode && final(self).visual_anchor == old(self).selected_index
                    && final(self).selected_urls.spec_set() == visual_range(
                        old(items)@,
                        visible@,
                        old(self).selected_index as int,
                        old(self).selected_index as int,
                    ) && r is Handled
                &&& is_char(key, 't') ==> if old(self).selected_index < visible@.len() {
                    (r matches LibraryAction::TagPicker(urls) && urls@.len() == 1
                        && urls@[0]@ == old(items)@[visible@[old(self).selected_index as int] as int].url@)
                } else {
                    r is Handled
                }
                &&& !(is_char(key, ']') || is_char(key, '[') || is_char(key, '}') || is_char(key, '{') || is_char(key, 'v')
                    || is_char(key, 't')) ==> r is Pass && final(self).selected_index == old(self).selected_index
                    && final(self).filter == old(self).filter && final(self).time_filter == old(self).time_filter
                &&& !is_char(key, 'v') ==> !final(self).visual_mode
            },
    {
        if self.visual_mode {
            match key {
                Key::Esc => {
                    self.exit_visual();
                    return LibraryAction::Handled;
                },
                Key::Down | Key::Char { c: 'j', ctrl: _ } => {
                    let len = visible.len();
                    if len > 0 {
                        let next = if self.selected_index < len - 1 { self.selected_index + 1 } else { len - 1 };
                        self.selected_index = next;
                        self.selected_urls = library_recompute_selection(items, visible, true, next, self.visual_anchor);
                    }
                    return LibraryAction::Handled;
                },
                Key::Up | Key::Char { c: 'k', ctrl: _ } => {
                    let next = if self.selected_index > 0 { self.selected_index - 1 } else { 0 };
                    self.selected_index = next;
                    self.selected_urls = library_recompute_selection(items, visible, true, next, self.visual_anchor);
                    return LibraryAction::Handled;
                },
                Key::Char { c, ctrl: _ } => {
                    let st = if c == 'r' {
                        Some(WorkflowState::DeepRead)
                    } else if c == 'w' {
                        Some(WorkflowState::Queued)
                    } else if c == 'x' {
                        Some(WorkflowState::Archived)
                    } else if c == 'i' {
                        Some(WorkflowState::Inbox)
                    } else {
                        None
                    };
                    match st {
                        Some(state) => {
                            let count = apply_workflow_to_selection(items, saved, &self.selected_urls, state);
                            self.exit_visual();
                            let notice = bulk_notice_text(state, count);
                            return LibraryAction::Marked { state, count, notice };
                        },
                        None => {},
                    }
                    if c == 't' {
                        let urls = self.selected_urls.values();
                        if urls.len() > 0 {
                            proof {
                                let vs = crate::models::views(urls@);
                                assert(vs[0] == urls@[0]@);
                                assert(vs.to_set().contains(vs[0]));
                                assert(!self.selected_urls.spec_set().is_empty());
                            }
                            return LibraryAction::TagPicker(urls);
                        }
                        proof {
                            assert(crate::models::views(urls@).to_set() =~= Set::<Seq<char>>::empty());
                        }
                    }
                    return LibraryAction::Handled;
                },
                _ => {
                    return LibraryAction::Handled;
                },
            }
        }
        match key {
            Key::Char { c, ctrl: _ } => {
                if c == ']' {
                    self.filter = self.filter.next();
                } else if c == '[' {
                    self.filter = self.filter.prev();
                } else if c == '}' {
                    self.time_filter = self.time_filter.next();
                } else if c == '{' {
                    self.time_filter = self.time_filter.prev();
                } else if c == 'v' {
                    self.visual_mode = true;
                    self.visual_anchor = self.selected_index;
                    self.selected_urls = library_recompute_selection(
                        items,
                        visible,
                        true,
                        self.selected_index,
                        self.selected_index,
                    );
                    return LibraryAction::Handled;
                } else if c == 't' {
                    if self.selected_index < visible.len() {
                        let url = items[visible[self.selected_index]].url.clone();
                        return LibraryAction::TagPicker(vec![url]);
                    }
                    return LibraryAction::Handled;
                } else {
                    return LibraryAction::Pass;
                }
                self.selected_index = 0;
                self.list_offset = 0;
                LibraryAction::Handled
            },
            _ => LibraryAction::Pass,
        }
    }
}

} // verus!
