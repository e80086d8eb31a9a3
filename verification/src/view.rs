//! Which feed items and history entries the views show.
use vstd::prelude::*;

use crate::app::{filter_source_name, FeedTab, FilterState};
use crate::config::SourcesConfig;
use crate::history::{HistoryEntry, HistoryFilter, HistoryKind, Timestamp};
use crate::library::LibraryFilter;
use crate::models::{views, ContentType, FeedItem, SignalLevel, SourcePlatform, WorkflowState};
use crate::sets::{KeySet, SetKey, StrSet};
use crate::strs::{
    chars_of, contains_seq, decimal, lowercase, push_decimal, push_str, str_contains, str_eq, string_of, to_lowercase,
    to_owned_string,
};
use crate::tags::{contains_tag, for_url, insert_tag_sorted, strictly_sorted, ItemTags};

verus! {

broadcast use vstd::string::group_string_axioms;

/// The positions `0 <= i < n` where `p` holds, in order.
pub open spec fn indices_where(n: nat, p: spec_fn(int) -> bool) -> Seq<usize>
    decreases n,
{
    if n == 0 {
        Seq::empty()
    } else {
        let before = indices_where((n - 1) as nat, p);
        if p(n - 1) {
            before.push((n - 1) as usize)
        } else {
            before
        }
    }
}

/// Every listed position is below `n`.
pub proof fn lemma_indices_in_range(n: nat, p: spec_fn(int) -> bool)
    ensures
        forall|k: int| 0 <= k < indices_where(n, p).len() ==> #[trigger] indices_where(n, p)[k] < n,
    decreases n,
{
    if n > 0 {
        let before = indices_where((n - 1) as nat, p);
        lemma_indices_in_range((n - 1) as nat, p);
        assert forall|k: int| 0 <= k < indices_where(n, p).len() implies #[trigger] indices_where(n, p)[k] < n by {
            if k < before.len() {
                assert(indices_where(n, p)[k] == before[k]);
            }
        }
    }
}

/// What the feed list is showing: the tab, the library chips, the search
/// text, and the time the view is computed at.
pub struct FeedView {
    pub tab: FeedTab,
    pub library_filter: LibraryFilter,
    pub library_time_filter: HistoryFilter,
    pub search_query: String,
    pub now: Timestamp,
}

/// When the paper at `url` was last opened: the first (newest) history
/// entry for it.
pub open spec fn last_opened(h: Seq<HistoryEntry>, url: Seq<char>) -> Option<Timestamp>
    decreases h.len(),
{
    if h.len() == 0 {
        None
    } else if h[0].kind == HistoryKind::Paper && h[0].key@ == url {
        Some(h[0].opened_at)
    } else {
        last_opened(h.drop_first(), url)
    }
}

/// The name an item's source is switched on or off by.
pub open spec fn source_key(item: FeedItem) -> Seq<char> {
    if item.source_platform == SourcePlatform::HuggingFace {
        "huggingface"@
    } else {
        item.source_name@
    }
}

/// The search matches the (lower-cased) title or an author, or is empty.
pub open spec fn search_admits(item: FeedItem, q: Seq<char>) -> bool {
    q.len() == 0 || contains_seq(item.title_lower@, q) || exists|k: int|
        0 <= k < item.authors_lower@.len() && contains_seq(#[trigger] item.authors_lower@[k]@, q)
}

/// No tag filter, or the item carries one of the filtered tags.
pub open spec fn tags_admit(chosen: Set<Seq<char>>, item_tags: Seq<Seq<char>>) -> bool {
    chosen.is_empty() || exists|k: int| 0 <= k < item_tags.len() && chosen.contains(#[trigger] item_tags[k])
}

impl FeedView {
    /// The tab's own rule: the inbox shows inbox items; the library shows
    /// the states of its chip, opened within its time window.
    pub open spec fn tab_admits(self, item: FeedItem, history: Seq<HistoryEntry>) -> bool {
        match self.tab {
            FeedTab::Inbox => item.workflow_state == WorkflowState::Inbox,
            FeedTab::Library => {
                &&& self.library_filter.spec_matches(item.workflow_state)
                &&& (self.library_time_filter == HistoryFilter::All || match last_opened(history, item.url@) {
                    Some(t) => self.library_time_filter.spec_matches_time(t, self.now),
                    None => false,
                })
            },
            _ => true,
        }
    }

    /// Whether the list shows `item`: its tab admits it, its source is on,
    /// the search matches it, it carries a chosen tag (when tags are
    /// chosen) and the filters let it through.
    pub open spec fn shows(
        self,
        item: FeedItem,
        history: Seq<HistoryEntry>,
        sources: SourcesConfig,
        filters: FilterState,
        tags: ItemTags,
    ) -> bool {
        &&& self.tab_admits(item, history)
        &&& sources.spec_enabled(source_key(item))
        &&& search_admits(item, lowercase(self.search_query@))
        &&& tags_admit(filters.tags.spec_set(), tags.spec_for_url(item.url@))
        &&& filters.spec_matches(item)
    }
}

fn find_last_opened(history: &Vec<HistoryEntry>, url: &str) -> (r: Option<Timestamp>)
    ensures
        r == last_opened(history@, url@),
{
    let mut i: usize = 0;
    assert(history@.subrange(0, history@.len() as int) =~= history@);
    while i < history.len()
        invariant
            0 <= i <= history@.len(),
            last_opened(history@, url@) == last_opened(history@.subrange(i as int, history@.len() as int), url@),
        decreases history.len() - i,
    {
        let ghost rest = history@.subrange(i as int, history@.len() as int);
        assert(rest.drop_first() =~= history@.subrange(i + 1, history@.len() as int));
        if history[i].kind == HistoryKind::Paper && str_eq(history[i].key.as_str(), url) {
            return Some(history[i].opened_at);
        }
        i += 1;
    }
    None
}

fn search_matches(item: &FeedItem, q: &str) -> (r: bool)
    ensures
        r == search_admits(*item, q@),
{
    if q.unicode_len() == 0 || str_contains(item.title_lower.as_str(), q) {
        return true;
    }
    let mut k: usize = 0;
    while k < item.authors_lower.len()
        invariant
            0 <= k <= item.authors_lower@.len(),
            forall|j: int| 0 <= j < k ==> !contains_seq(#[trigger] item.authors_lower@[j]@, q@),
        decreases item.authors_lower.len() - k,
    {
        if str_contains(item.authors_lower[k].as_str(), q) {
            return true;
        }
        k += 1;
    }
    false
}

fn tags_match(chosen: &StrSet, item_tags: &[String]) -> (r: bool)
    ensures
        r == tags_admit(chosen.spec_set(), crate::models::views(item_tags@)),
{
    if chosen.is_empty() {
        return true;
    }
    let mut k: usize = 0;
    while k < item_tags.len()
        invariant
            0 <= k <= item_tags@.len(),
            chosen.spec_set() != Set::<Seq<char>>::empty(),
            forall|j: int| 0 <= j < k ==> !chosen.spec_set().contains(#[trigger] item_tags@[j]@),
        decreases item_tags.len() - k,
    {
        if chosen.contains(item_tags[k].as_str()) {
            assert(crate::models::views(item_tags@)[k as int] == item_tags@[k as int]@);
            return true;
        }
        k += 1;
    }
    proof {
        assert forall|j: int| 0 <= j < crate::models::views(item_tags@).len() implies !chosen.spec_set().contains(
            #[trigger] crate::models::views(item_tags@)[j],
        ) by {
            assert(crate::models::views(item_tags@)[j] == item_tags@[j]@);
        }
        assert(!chosen.spec_set().is_empty()) by {
            if chosen.spec_set().is_empty() {
                assert(chosen.spec_set() =~= Set::<Seq<char>>::empty());
            }
        }
    }
    false
}

impl FeedView {
    fn tab_ok(&self, item: &FeedItem, history: &Vec<HistoryEntry>) -> (r: bool)
        ensures
            r == self.tab_admits(*item, history@),
    {
        match self.tab {
            FeedTab::Inbox => item.workflow_state == WorkflowState::Inbox,
            FeedTab::Library => {
                if !self.library_filter.matches(item.workflow_state) {
                    return false;
                }
                if self.library_time_filter == HistoryFilter::All {
                    return true;
                }
                match find_last_opened(history, item.url.as_str()) {
                    Some(t) => self.library_time_filter.matches_time(t, self.now),
                    None => false,
                }
            },
            _ => true,
        }
    }

    /// The positions of the items the list shows (see `shows`), in order.
    pub fn visible_indices(
        &self,
        items: &Vec<FeedItem>,
        history: &Vec<HistoryEntry>,
        sources: &SourcesConfig,
        filters: &FilterState,
        tags: &ItemTags,
    ) -> (r: Vec<usize>)
        requires
            tags.wf(),
        ensures
            r@ == indices_where(
                items@.len(),
                |i: int| self.shows(items@[i], history@, *sources, *filters, *tags),
            ),
    {
        let ghost p = |i: int| self.shows(items@[i], history@, *sources, *filters, *tags);
        let q = to_lowercase(self.search_query.as_str());
        let mut r: Vec<usize> = Vec::new();
        let mut i: usize = 0;
        while i < items.len()
            invariant
                0 <= i <= items@.len(),
                tags.wf(),
                q@ == lowercase(self.search_query@),
                p == (|i: int| self.shows(items@[i], history@, *sources, *filters, *tags)),
                r@ == indices_where(i as nat, p),
            decreases items.len() - i,
        {
            let item = &items[i];
            let key = if item.source_platform == SourcePlatform::HuggingFace {
                "huggingface"
            } else {
                item.source_name.as_str()
            };
            proof {
                reveal_strlit("huggingface");
            }
            let show = self.tab_ok(item, history) && sources.is_enabled(key) && search_matches(item, q.as_str())
                && tags_match(&filters.tags, for_url(tags, item.url.as_str())) && filters.matches(item);
            assert(show == p(i as int));
            if show {
                r.push(i);
            }
            i += 1;
        }
        r
    }
}

/// The positions listed are exactly those where the condition holds, each
/// once, in increasing order.
pub proof fn law_indices_where_exact(n: nat, p: spec_fn(int) -> bool)
    requires
        n <= usize::MAX,
    ensures
        forall|i: int| 0 <= i < indices_where(n, p).len() ==> #[trigger] indices_where(n, p)[i] < n,
        forall|i: int| 0 <= i < indices_where(n, p).len() ==> p(#[trigger] indices_where(n, p)[i] as int),
        forall|i: int, j: int|
            0 <= i < j < indices_where(n, p).len() ==> indices_where(n, p)[i] < indices_where(n, p)[j],
        forall|k: int| 0 <= k < n && #[trigger] p(k) ==> indices_where(n, p).contains(k as usize),
    decreases n,
{
    if n == 0 {
        assert(indices_where(n, p) =~= Seq::<usize>::empty());
    } else {
        law_indices_where_exact((n - 1) as nat, p);
        let before = indices_where((n - 1) as nat, p);
        if p(n - 1) {
            let r = before.push((n - 1) as usize);
            assert(indices_where(n, p) == r);
            assert(r[before.len() as int] == (n - 1) as usize);
            assert forall|i: int| 0 <= i < r.len() implies #[trigger] r[i] < n && p(r[i] as int) by {
                if i < before.len() {
                    assert(r[i] == before[i]);
                }
            }
            assert forall|i: int, j: int| 0 <= i < j < r.len() implies r[i] < r[j] by {
                assert(r[i] == before[i]);
                if j < before.len() {
                    assert(r[j] == before[j]);
                }
            }
            assert forall|k: int| 0 <= k < n && #[trigger] p(k) implies r.contains(k as usize) by {
                if k < n - 1 {
                    let m = choose|m: int| 0 <= m < before.len() && before[m] == k as usize;
                    assert(r[m] == before[m]);
                }
            }
        } else {
            assert(indices_where(n, p) == before);
        }
    }
}

/// The list hides an item that any of its rules refuses: the inbox tab
/// shows only inbox items, a switched-off source is hidden, and so is an
/// item the source, signal, content-type or workflow filters keep out.  An
/// empty search and empty tag filter hide nothing by themselves.
pub proof fn law_list_hides_refused_items(
    v: FeedView,
    item: FeedItem,
    history: Seq<HistoryEntry>,
    sources: SourcesConfig,
    filters: FilterState,
    tags: ItemTags,
)
    ensures
        v.tab == FeedTab::Inbox && item.workflow_state != WorkflowState::Inbox ==> !v.shows(
            item,
            history,
            sources,
            filters,
            tags,
        ),
        !sources.spec_enabled(source_key(item)) ==> !v.shows(item, history, sources, filters, tags),
        !filters.spec_matches(item) ==> !v.shows(item, history, sources, filters, tags),
        !filters.content_types.spec_set().is_empty() && !filters.content_types.spec_set().contains(item.content_type)
            ==> !v.shows(item, history, sources, filters, tags),
        v.search_query@.len() == 0 && filters.tags.spec_set().is_empty() ==> (v.shows(
            item,
            history,
            sources,
            filters,
            tags,
        ) <==> v.tab_admits(item, history) && sources.spec_enabled(source_key(item)) && filters.spec_matches(item)),
{
    crate::app::law_filter_excludes_unlisted(filters, item);
    if v.search_query@.len() == 0 {
        assert(lowercase(v.search_query@).len() == 0) by {
            assert(crate::strs::is_ascii(v.search_query@));
        }
    }
}

/// Whether the history view shows an entry: it falls in the time window,
/// its title contains the (lower-cased) search, and its source is among the
/// chosen sources when some are chosen.
pub open spec fn history_shows(
    e: HistoryEntry,
    window: HistoryFilter,
    now: Timestamp,
    q: Seq<char>,
    sources: Set<Seq<char>>,
) -> bool {
    &&& window.spec_matches_time(e.opened_at, now)
    &&& (q.len() == 0 || contains_seq(lowercase(e.title@), q))
    &&& (sources.is_empty() || sources.contains(e.source@))
}

/// The positions of the history entries the history view shows, in order.
pub fn filtered_history(
    history: &Vec<HistoryEntry>,
    window: HistoryFilter,
    now: Timestamp,
    search_query: &str,
    sources: &StrSet,
) -> (r: Vec<usize>)
    ensures
        r@ == indices_where(
            history@.len(),
            |i: int| history_shows(history@[i], window, now, lowercase(search_query@), sources.spec_set()),
        ),
{
    let ghost p = |i: int| history_shows(history@[i], window, now, lowercase(search_query@), sources.spec_set());
    let q = to_lowercase(search_query);
    let mut r: Vec<usize> = Vec::new();
    let mut i: usize = 0;
    while i < history.len()
        invariant
            0 <= i <= history@.len(),
            q@ == lowercase(search_query@),
            p == (|i: int| history_shows(history@[i], window, now, lowercase(search_query@), sources.spec_set())),
            r@ == indices_where(i as nat, p),
        decreases history.len() - i,
    {
        let e = &history[i];
        let in_window = window.matches(e, now);
        let title_ok = q.as_str().unicode_len() == 0 || {
            let t = to_lowercase(e.title.as_str());
            str_contains(t.as_str(), q.as_str())
        };
        let source_ok = sources.is_empty() || sources.contains(e.source.as_str());
        proof {
            if sources.spec_set().is_empty() {
                assert(sources.spec_set() =~= Set::<Seq<char>>::empty());
            }
        }
        if in_window && title_ok && source_ok {
            r.push(i);
        }
        i += 1;
    }
    r
}

// ---------------------------------------------------------------------------
// The filter panel
// ---------------------------------------------------------------------------

/// The source names of the items (see `filter_source_name`).
pub open spec fn item_source_names(items: Seq<FeedItem>) -> Set<Seq<char>> {
    items.map_values(|it: FeedItem| filter_source_name(it)).to_set()
}

/// The source names the filter panel offers: those of the items and always
/// `arxiv` and `hf`, sorted, each once.
pub fn filter_source_names(items: &Vec<FeedItem>) -> (r: Vec<String>)
    ensures
        strictly_sorted(views(r@)),
        views(r@).to_set() == item_source_names(items@).insert("arxiv"@).insert("hf"@),
{
    let ghost f = |it: FeedItem| filter_source_name(it);
    let mut r: Vec<String> = Vec::new();
    let mut i: usize = 0;
    assert(items@.take(0).map_values(f).to_set() =~= Set::<Seq<char>>::empty());
    assert(views(r@).to_set() =~= Set::<Seq<char>>::empty());
    while i < items.len()
        invariant
            0 <= i <= items@.len(),
            f == (|it: FeedItem| filter_source_name(it)),
            strictly_sorted(views(r@)),
            views(r@).to_set() == items@.take(i as int).map_values(f).to_set(),
        decreases items.len() - i,
    {
        let item = &items[i];
        let name = if item.source_name.as_str().is_empty() {
            to_owned_string(item.source_platform.short_label())
        } else {
            item.source_name.clone()
        };
        assert(name@ == f(items@[i as int]));
        assert(items@.take(i + 1).map_values(f) =~= items@.take(i as int).map_values(f).push(name@));
        proof {
            items@.take(i as int).map_values(f).lemma_push_to_set_commute(name@);
        }
        if !contains_tag(&r, name.as_str()) {
            insert_tag_sorted(&mut r, name);
        } else {
            assert(views(r@).to_set().contains(name@));
            assert(views(r@).to_set().insert(name@) =~= views(r@).to_set());
        }
        i += 1;
    }
    assert(items@.take(items@.len() as int) =~= items@);
    let seeds: [&str; 2] = ["arxiv", "hf"];
    let mut k: usize = 0;
    while k < 2
        invariant
            0 <= k <= 2,
            seeds@[0]@ == "arxiv"@,
            seeds@[1]@ == "hf"@,
            strictly_sorted(views(r@)),
            views(r@).to_set() == (if k == 0 {
                item_source_names(items@)
            } else if k == 1 {
                item_source_names(items@).insert("arxiv"@)
            } else {
                item_source_names(items@).insert("arxiv"@).insert("hf"@)
            }),
        decreases 2 - k,
    {
        let seed = seeds[k];
        if !contains_tag(&r, seed) {
            insert_tag_sorted(&mut r, to_owned_string(seed));
        } else {
            assert(views(r@).to_set().contains(seed@));
            assert(views(r@).to_set().insert(seed@) =~= views(r@).to_set());
        }
        k += 1;
    }
    r
}

/// Which row of the filter panel the cursor is on.  The rows are: the
/// sources, the three signal levels, three content types, the tags, and a
/// last row that clears every filter.
pub enum FilterRow {
    Source(int),
    Signal(SignalLevel),
    Content(ContentType),
    Tag(int),
    ClearAll,
}

/// The signal level on each of the three signal rows.
pub open spec fn signal_row(k: int) -> SignalLevel {
    if k == 0 {
        SignalLevel::Primary
    } else if k == 1 {
        SignalLevel::Secondary
    } else {
        SignalLevel::Tertiary
    }
}

/// The content type on each of the three content rows.
pub open spec fn content_row(k: int) -> ContentType {
    if k == 0 {
        ContentType::Paper
    } else if k == 1 {
        ContentType::Article
    } else {
        ContentType::Digest
    }
}

/// The row at `cursor` with `n_sources` source rows and `n_tags` tag rows.
pub open spec fn filter_row(cursor: int, n_sources: int, n_tags: int) -> FilterRow {
    if cursor < n_sources {
        FilterRow::Source(cursor)
    } else if cursor < n_sources + 3 {
        FilterRow::Signal(signal_row(cursor - n_sources))
    } else if cursor < n_sources + 6 {
        FilterRow::Content(content_row(cursor - n_sources - 3))
    } else if cursor < n_sources + 6 + n_tags {
        FilterRow::Tag(cursor - n_sources - 6)
    } else {
        FilterRow::ClearAll
    }
}

/// Flip the filter on the row under `cursor` (see `filter_row`); on the last
/// row, clear every filter.
pub fn toggle_filter_at(filters: &mut FilterState, cursor: usize, source_names: &Vec<String>, tag_names: &Vec<String>)
    ensures
        match filter_row(cursor as int, source_names@.len() as int, tag_names@.len() as int) {
            FilterRow::Source(k) => {
                &&& final(filters).sources.spec_set() == toggled(old(filters).sources.spec_set(), source_names@[k]@)
                &&& final(filters).signals.spec_set() == old(filters).signals.spec_set()
                &&& final(filters).content_types.spec_set() == old(filters).content_types.spec_set()
                &&& final(filters).workflow_states.spec_set() == old(filters).workflow_states.spec_set()
                &&& final(filters).tags.spec_set() == old(filters).tags.spec_set()
            },
            FilterRow::Signal(level) => {
                &&& final(filters).sources.spec_set() == old(filters).sources.spec_set()
                &&& final(filters).signals.spec_set() == toggled(old(filters).signals.spec_set(), level)
                &&& final(filters).content_types.spec_set() == old(filters).content_types.spec_set()
                &&& final(filters).workflow_states.spec_set() == old(filters).workflow_states.spec_set()
                &&& final(filters).tags.spec_set() == old(filters).tags.spec_set()
            },
            FilterRow::Content(ct) => {
                &&& final(filters).sources.spec_set() == old(filters).sources.spec_set()
                &&& final(filters).signals.spec_set() == old(filters).signals.spec_set()
                &&& final(filters).content_types.spec_set() == toggled(old(filters).content_types.spec_set(), ct)
                &&& final(filters).workflow_states.spec_set() == old(filters).workflow_states.spec_set()
                &&& final(filters).tags.spec_set() == old(filters).tags.spec_set()
            },
            FilterRow::Tag(k) => {
                &&& final(filters).sources.spec_set() == old(filters).sources.spec_set()
                &&& final(filters).signals.spec_set() == old(filters).signals.spec_set()
                &&& final(filters).content_types.spec_set() == old(filters).content_types.spec_set()
                &&& final(filters).workflow_states.spec_set() == old(filters).workflow_states.spec_set()
                &&& final(filters).tags.spec_set() == toggled(old(filters).tags.spec_set(), tag_names@[k]@)
            },
            FilterRow::ClearAll => final(filters).spec_is_empty(),
        },
{
    let ns = source_names.len();
    let nt = tag_names.len();
    if cursor < ns {
        filters.sources.toggle(source_names[cursor].clone());
    } else if cursor - ns < 3 {
        let level = if cursor - ns == 0 {
            SignalLevel::Primary
        } else if cursor - ns == 1 {
            SignalLevel::Secondary
        } else {
            SignalLevel::Tertiary
        };
        filters.signals.toggle(level);
    } else if cursor - ns < 6 {
        let ct = if cursor - ns == 3 {
            ContentType::Paper
        } else if cursor - ns == 4 {
            ContentType::Article
        } else {
            ContentType::Digest
        };
        filters.content_types.toggle(ct);
    } else if cursor - ns - 6 < nt {
        filters.tags.toggle(tag_names[cursor - ns - 6].clone());
    } else {
        *filters = FilterState::new();
    }
}

/// `s` with `k` taken out when present and put in otherwise.
pub open spec fn toggled<T>(s: Set<T>, k: T) -> Set<T> {
    if s.contains(k) {
        s.remove(k)
    } else {
        s.insert(k)
    }
}

/// The number of rows of the filter panel.
pub open spec fn filter_row_count(n_sources: int, n_tags: int) -> int {
    n_sources + 6 + n_tags + 1
}

/// The cursor one row down, stopping at the last row.
pub fn filter_cursor_down(cursor: usize, n_sources: usize, n_tags: usize) -> (r: usize)
    requires
        filter_row_count(n_sources as int, n_tags as int) <= usize::MAX,
    ensures
        r == if cursor + 1 < filter_row_count(n_sources as int, n_tags as int) - 1 {
            cursor + 1
        } else {
            filter_row_count(n_sources as int, n_tags as int) - 1
        },
{
    let max = n_sources + 6 + n_tags;
    if cursor < max - 1 {
        cursor + 1
    } else {
        max
    }
}

// ---------------------------------------------------------------------------
// The filter summary line
// ---------------------------------------------------------------------------

/// How a list of labels is summed up: `any` for none, the label for one,
/// `a,b` for two, and the first with the count of the others (`a+3`) for
/// more.
pub open spec fn spec_summarize_labels(labels: Seq<Seq<char>>) -> Seq<char> {
    if labels.len() == 0 {
        "any"@
    } else if labels.len() == 1 {
        labels[0]
    } else if labels.len() == 2 {
        labels[0] + ","@ + labels[1]
    } else {
        labels[0] + "+"@ + decimal((labels.len() - 1) as nat)
    }
}

pub fn summarize_labels(labels: &Vec<String>) -> (r: String)
    ensures
        r@ == spec_summarize_labels(views(labels@)),
{
    let n = labels.len();
    if n == 0 {
        return to_owned_string("any");
    }
    if n == 1 {
        return labels[0].clone();
    }
    let mut v = chars_of(labels[0].as_str());
    if n == 2 {
        push_str(&mut v, ",");
        push_str(&mut v, labels[1].as_str());
    } else {
        push_str(&mut v, "+");
        push_decimal(&mut v, (n - 1) as u64);
    }
    string_of(&v)
}

/// The chosen source names summed up in sorted order (see
/// `spec_summarize_labels`).
pub fn summarize_strings(values: &StrSet) -> (r: String)
    ensures
        exists|s: Seq<Seq<char>>|
            strictly_sorted(s) && s.to_set() == values.spec_set() && r@ == spec_summarize_labels(s),
{
    let all = values.values();
    let mut sorted: Vec<String> = Vec::new();
    let mut i: usize = 0;
    assert(views(all@).take(0).to_set() =~= Set::<Seq<char>>::empty());
    assert(views(sorted@).to_set() =~= Set::<Seq<char>>::empty());
    while i < all.len()
        invariant
            0 <= i <= all@.len(),
            views(all@).no_duplicates(),
            strictly_sorted(views(sorted@)),
            views(sorted@).to_set() == views(all@).take(i as int).to_set(),
        decreases all.len() - i,
    {
        proof {
            assert(views(all@).take(i + 1) =~= views(all@).take(i as int).push(views(all@)[i as int]));
            views(all@).take(i as int).lemma_push_to_set_commute(views(all@)[i as int]);
            assert(!views(all@).take(i as int).contains(views(all@)[i as int])) by {
                if views(all@).take(i as int).contains(views(all@)[i as int]) {
                    let j = choose|j: int| 0 <= j < i && views(all@).take(i as int)[j] == views(all@)[i as int];
                    assert(views(all@)[j] == views(all@)[i as int]);
                }
            }
            assert(!views(sorted@).contains(all@[i as int]@)) by {
                if views(sorted@).contains(all@[i as int]@) {
                    assert(views(sorted@).to_set().contains(all@[i as int]@));
                }
            }
        }
        insert_tag_sorted(&mut sorted, all[i].clone());
        i += 1;
    }
    assert(views(all@).take(all@.len() as int) =~= views(all@));
    summarize_labels(&sorted)
}

/// The labels of a table whose values are in `s`, in table order.
pub open spec fn present_labels<T>(table: Seq<(T, Seq<char>)>, s: Set<T>) -> Seq<Seq<char>>
    decreases table.len(),
{
    if table.len() == 0 {
        Seq::empty()
    } else {
        let before = present_labels(table.drop_last(), s);
        if s.contains(table.last().0) {
            before.push(table.last().1)
        } else {
            before
        }
    }
}

/// The reading states in the order the summary names them.
pub open spec fn state_table() -> Seq<(WorkflowState, Seq<char>)> {
    seq![
        (WorkflowState::Inbox, "inbox"@),
        (WorkflowState::Queued, "queued"@),
        (WorkflowState::DeepRead, "read"@),
        (WorkflowState::Archived, "archived"@),
    ]
}

/// The content types in the order the summary names them.
pub open spec fn type_table() -> Seq<(ContentType, Seq<char>)> {
    seq![
        (ContentType::Paper, "paper"@),
        (ContentType::Article, "article"@),
        (ContentType::Digest, "digest"@),
        (ContentType::Thread, "thread"@),
        (ContentType::Repo, "repo"@),
    ]
}

/// The signal levels in the order the summary names them.
pub open spec fn signal_table() -> Seq<(SignalLevel, Seq<char>)> {
    seq![(SignalLevel::Primary, "primary"@), (SignalLevel::Secondary, "secondary"@), (SignalLevel::Tertiary, "tertiary"@)]
}

fn summarize_table<T: SetKey>(set: &KeySet<T>, values: &Vec<T>, labels: &Vec<&'static str>) -> (r: String)
    requires
        values@.len() == labels@.len(),
    ensures
        r@ == spec_summarize_labels(
            present_labels(Seq::new(values@.len(), |i: int| (values@[i], labels@[i]@)), set.spec_set()),
        ),
{
    let ghost table = Seq::new(values@.len(), |i: int| (values@[i], labels@[i]@));
    let mut out: Vec<String> = Vec::new();
    let mut i: usize = 0;
    while i < values.len()
        invariant
            0 <= i <= values@.len(),
            values@.len() == labels@.len(),
            table == Seq::new(values@.len(), |i: int| (values@[i], labels@[i]@)),
            views(out@) == present_labels(table.take(i as int), set.spec_set()),
        decreases values.len() - i,
    {
        assert(table.take(i + 1).drop_last() =~= table.take(i as int));
        assert(table.take(i + 1).last() == table[i as int]);
        if set.contains(&values[i]) {
            let ghost before = views(out@);
            out.push(to_owned_string(labels[i]));
            assert(views(out@) =~= before.push(labels@[i as int]@));
        }
        i += 1;
    }
    assert(table.take(values@.len() as int) =~= table);
    summarize_labels(&out)
}

/// The filter line: `source:S  state:W  type:C  signal:G`, each part summed
/// up (see `spec_summarize_labels`); sources in sorted order, the others in
/// a fixed order.
pub fn filter_summary(f: &FilterState) -> (r: String)
    ensures
        exists|s: Seq<Seq<char>>|
            strictly_sorted(s) && s.to_set() == f.sources.spec_set() && r@ == "source:"@ + spec_summarize_labels(s)
                + "  state:"@ + spec_summarize_labels(present_labels(state_table(), f.workflow_states.spec_set()))
                + "  type:"@ + spec_summarize_labels(present_labels(type_table(), f.content_types.spec_set()))
                + "  signal:"@ + spec_summarize_labels(present_labels(signal_table(), f.signals.spec_set())),
{
    let sources = summarize_strings(&f.sources);
    let sv = vec![WorkflowState::Inbox, WorkflowState::Queued, WorkflowState::DeepRead, WorkflowState::Archived];
    let sl = vec!["inbox", "queued", "read", "archived"];
    let tv = vec![ContentType::Paper, ContentType::Article, ContentType::Digest, ContentType::Thread, ContentType::Repo];
    let tl = vec!["paper", "article", "digest", "thread", "repo"];
    let gv = vec![SignalLevel::Primary, SignalLevel::Secondary, SignalLevel::Tertiary];
    let gl = vec!["primary", "secondary", "tertiary"];
    let states = summarize_table(&f.workflow_states, &sv, &sl);
    let types = summarize_table(&f.content_types, &tv, &tl);
    let signals = summarize_table(&f.signals, &gv, &gl);
    proof {
        reveal_strlit("inbox");
        reveal_strlit("queued");
        reveal_strlit("read");
        reveal_strlit("archived");
        reveal_strlit("paper");
        reveal_strlit("article");
        reveal_strlit("digest");
        reveal_strlit("thread");
        reveal_strlit("repo");
        reveal_strlit("primary");
        reveal_strlit("secondary");
        reveal_strlit("tertiary");
        assert(Seq::new(sv@.len(), |i: int| (sv@[i], sl@[i]@)) =~= state_table());
        assert(Seq::new(tv@.len(), |i: int| (tv@[i], tl@[i]@)) =~= type_table());
        assert(Seq::new(gv@.len(), |i: int| (gv@[i], gl@[i]@)) =~= signal_table());
    }
    let mut v = chars_of("source:");
    push_str(&mut v, sources.as_str());
    push_str(&mut v, "  state:");
    push_str(&mut v, states.as_str());
    push_str(&mut v, "  type:");
    push_str(&mut v, types.as_str());
    push_str(&mut v, "  signal:");
    push_str(&mut v, signals.as_str());
    let r = string_of(&v);
    proof {
        let s = choose|s: Seq<Seq<char>>|
            strictly_sorted(s) && s.to_set() == f.sources.spec_set() && sources@ == spec_summarize_labels(s);
        assert(r@ =~= "source:"@ + spec_summarize_labels(s) + "  state:"@ + spec_summarize_labels(
            present_labels(state_table(), f.workflow_states.spec_set()),
        ) + "  type:"@ + spec_summarize_labels(present_labels(type_table(), f.content_types.spec_set()))
            + "  signal:"@ + spec_summarize_labels(present_labels(signal_table(), f.signals.spec_set())));
    }
    r
}

} // verus!
