//! Merging fetched items into a feed.  An item whose URL is already in the
//! feed replaces the old entry in place; an item for a paper that is already
//! there under another URL (the same arXiv id) is dropped, unless it is the
//! canonical arXiv entry, which replaces the stub but keeps its reading
//! state.  The feed is then kept newest first.
use vstd::prelude::*;

use crate::models::{arxiv_id_from_url, spec_arxiv_id_from_url, FeedItem, SourcePlatform, WorkflowState};
use crate::order::{lemma_lex_asymmetric, lemma_lex_irreflexive, lemma_lex_total, lemma_lex_transitive, lex_less, lex_lt};
use crate::strs::{chars_of, str_eq, to_owned_string};

verus! {

broadcast use vstd::string::group_string_axioms;

/// An association list keyed by text, each key once: the lookup tables of a
/// feed (URL or arXiv id → position) and the saved reading states.
pub struct KeyIndex<V> {
    entries: Vec<(String, V)>,
}

impl<V: Copy> KeyIndex<V> {
    pub closed spec fn keys(self) -> Seq<Seq<char>> {
        Seq::new(self.entries@.len(), |i: int| self.entries@[i].0@)
    }

    pub closed spec fn wf(self) -> bool {
        self.keys().no_duplicates()
    }

    /// The map the list stands for.
    pub closed spec fn spec_map(self) -> Map<Seq<char>, V> {
        Map::new(|k: Seq<char>| self.keys().contains(k), |k: Seq<char>| self.entries@[self.keys().index_of(k)].1)
    }

    pub fn new() -> (r: Self)
        ensures
            r.wf(),
            r.spec_map() == Map::<Seq<char>, V>::empty(),
    {
        let r = KeyIndex { entries: Vec::new() };
        assert(r.spec_map() =~= Map::<Seq<char>, V>::empty());
        r
    }

    fn position(&self, key: &str) -> (r: Option<usize>)
        requires
            self.wf(),
        ensures
            match r {
                Some(i) => i < self.entries@.len() && self.keys()[i as int] == key@,
                None => !self.keys().contains(key@),
            },
    {
        let mut i: usize = 0;
        while i < self.entries.len()
            invariant
                0 <= i <= self.entries@.len(),
                forall|k: int| 0 <= k < i ==> self.keys()[k] != key@,
            decreases self.entries.len() - i,
        {
            if str_eq(self.entries[i].0.as_str(), key) {
                return Some(i);
            }
            i += 1;
        }
        None
    }

    /// The value under `key`, if any.
    pub fn get(&self, key: &str) -> (r: Option<V>)
        requires
            self.wf(),
        ensures
            match r {
                Some(v) => self.spec_map().contains_key(key@) && self.spec_map()[key@] == v,
                None => !self.spec_map().contains_key(key@),
            },
    {
        match self.position(key) {
            Some(i) => {
                proof {
                    assert(self.keys().contains(key@));
                    assert(self.keys().index_of(key@) == i) by {
                        let j = self.keys().index_of(key@);
                        assert(self.keys()[j] == key@);
                    }
                }
                Some(self.entries[i].1)
            },
            None => None,
        }
    }

    /// The number of keys.
    pub fn len(&self) -> (n: usize)
        requires
            self.wf(),
        ensures
            n == self.spec_map().len(),
    {
        proof {
            self.keys().unique_seq_to_set();
            assert(self.spec_map().dom() =~= self.keys().to_set());
        }
        self.entries.len()
    }

    /// Put `value` under `key`, replacing what was there.
    pub fn insert(&mut self, key: String, value: V)
        requires
            old(self).wf(),
        ensures
            final(self).wf(),
            final(self).spec_map() == old(self).spec_map().insert(key@, value),
    {
        let ghost old_map = self.spec_map();
        let ghost kv = key@;
        match self.position(key.as_str()) {
            Some(i) => {
                let ghost old_keys = self.keys();
                self.entries.set(i, (key, value));
                proof {
                    assert(self.keys() =~= old_keys);
                    assert forall|k: Seq<char>| self.keys().contains(k) implies #[trigger] self.spec_map()[k]
                        == old_map.insert(kv, value)[k] by {
                        let j = self.keys().index_of(k);
                        if k == kv {
                            assert(self.keys()[i as int] == kv);
                        } else {
                            assert(j != i);
                        }
                    }
                    assert(self.spec_map() =~= old_map.insert(kv, value));
                }
            },
            None => {
                let ghost old_keys = self.keys();
                self.entries.push((key, value));
                proof {
                    assert(self.keys() =~= old_keys.push(kv));
                    assert(self.keys().no_duplicates()) by {
                        assert forall|a: int, b: int|
                            0 <= a < self.keys().len() && 0 <= b < self.keys().len() && a != b implies self.keys()[a]
                            != self.keys()[b] by {
                            if a == old_keys.len() {
                                assert(old_keys.contains(old_keys[b]));
                            } else if b == old_keys.len() {
                                assert(old_keys.contains(old_keys[a]));
                            }
                        }
                    }
                    assert forall|k: Seq<char>| #[trigger] self.keys().contains(k) <==> (old_keys.contains(k) || k == kv) by {
                        if self.keys().contains(k) {
                            let j = choose|j: int| 0 <= j < self.keys().len() && self.keys()[j] == k;
                            if j < old_keys.len() {
                                assert(old_keys[j] == k);
                            }
                        }
                        if old_keys.contains(k) {
                            let j = choose|j: int| 0 <= j < old_keys.len() && old_keys[j] == k;
                            assert(self.keys()[j] == k);
                        }
                        if k == kv {
                            assert(self.keys()[old_keys.len() as int] == k);
                        }
                    }
                    assert forall|k: Seq<char>| self.keys().contains(k) implies #[trigger] self.spec_map()[k]
                        == old_map.insert(kv, value)[k] by {
                        let j = self.keys().index_of(k);
                        if k == kv {
                            assert(self.keys()[old_keys.len() as int] == kv);
                            assert(self.keys().index_of(k) == old_keys.len());
                        } else {
                            let jo = old_keys.index_of(k);
                            assert(self.keys()[jo] == k);
                            assert(self.keys().index_of(k) == jo);
                        }
                    }
                    assert(self.spec_map() =~= old_map.insert(kv, value));
                }
            },
        }
    }
}

// ---------------------------------------------------------------------------
// Newest first
// ---------------------------------------------------------------------------

/// The publication dates of the items, as text.
pub open spec fn dates(items: Seq<FeedItem>) -> Seq<Seq<char>> {
    items.map_values(|it: FeedItem| it.published_at@)
}

/// The items at the positions `ord` lists, in that order.
pub open spec fn reordered(ord: Seq<int>, items: Seq<FeedItem>) -> Seq<FeedItem> {
    ord.map_values(|k: int| items[k])
}

/// Position `i` goes before position `j`: it is dated later, or dated the
/// same and earlier in the list (the order is stable).
pub open spec fn date_before(keys: Seq<Seq<char>>, i: int, j: int) -> bool {
    lex_lt(keys[j], keys[i]) || (keys[i] == keys[j] && i < j)
}

/// `ord` lists the positions `0 .. keys.len()` newest first (see
/// `date_before`).
pub open spec fn is_date_order(ord: Seq<int>, keys: Seq<Seq<char>>) -> bool {
    &&& ord.len() == keys.len()
    &&& ord.no_duplicates()
    &&& forall|k: int| 0 <= k < ord.len() ==> 0 <= #[trigger] ord[k] < keys.len()
    &&& forall|a: int, b: int| 0 <= a < b < ord.len() ==> date_before(keys, #[trigger] ord[a], #[trigger] ord[b])
}

/// `date_before` puts the later-listed of two equally dated positions
/// second, and never puts a position before one dated later.
proof fn lemma_before_keys(keys: Seq<Seq<char>>, i: int, j: int)
    requires
        date_before(keys, i, j),
    ensures
        !lex_lt(keys[i], keys[j]),
{
    if lex_lt(keys[j], keys[i]) {
        lemma_lex_asymmetric(keys[i], keys[j]);
    } else {
        lemma_lex_irreflexive(keys[i]);
    }
}

/// Sort the items newest first by their date text; equally dated items keep
/// their order (`sort_by` on `published_at`, descending).
pub fn sort_newest_first(items: &mut Vec<FeedItem>)
    ensures
        exists|ord: Seq<int>|
            is_date_order(ord, dates(old(items)@)) && final(items)@ == reordered(ord, old(items)@),
{
    let ghost orig = items@;
    let ghost keys = dates(orig);
    let n = items.len();
    let ghost mut ord: Seq<int> = Seq::empty();
    let mut i: usize = 0;
    while i < n
        invariant
            n == orig.len(),
            keys == dates(orig),
            items@.len() == n,
            0 <= i <= n,
            ord.len() == i,
            ord.no_duplicates(),
            forall|k: int| 0 <= k < i ==> 0 <= #[trigger] ord[k] < i,
            forall|a: int, b: int| 0 <= a < b < i ==> date_before(keys, #[trigger] ord[a], #[trigger] ord[b]),
            forall|k: int| 0 <= k < i ==> #[trigger] items@[k] == orig[ord[k]],
            forall|k: int| i <= k < n ==> #[trigger] items@[k] == orig[k],
        decreases n - i,
    {
        let x = items.remove(i);
        assert(x == orig[i as int]);
        let xd = chars_of(x.published_at.as_str());
        assert(xd@ == keys[i as int]);
        let mut p: usize = 0;
        while p < i && !lex_less(&chars_of(items[p].published_at.as_str()), &xd)
            invariant
                0 <= p <= i,
                i < n,
                items@.len() == n - 1,
                xd@ == keys[i as int],
                keys == dates(orig),
                n == orig.len(),
                ord.len() == i,
                forall|k: int| 0 <= k < i ==> 0 <= #[trigger] ord[k] < i,
                forall|k: int| 0 <= k < i ==> #[trigger] items@[k] == orig[ord[k]],
                forall|k: int| 0 <= k < p ==> !lex_lt(#[trigger] keys[ord[k]], keys[i as int]),
            decreases i - p,
        {
            assert(items@[p as int].published_at@ == keys[ord[p as int]]);
            p += 1;
        }
        proof {
            if p < i {
                assert(items@[p as int].published_at@ == keys[ord[p as int]]);
                assert(lex_lt(keys[ord[p as int]], keys[i as int]));
            }
        }
        let ghost old_items = items@;
        items.insert(p, x);
        proof {
            let new_ord = ord.insert(p as int, i as int);
            assert(new_ord.len() == i + 1);
            assert forall|k: int| 0 <= k < i + 1 implies 0 <= #[trigger] new_ord[k] < i + 1 by {
                if k < p {
                    assert(new_ord[k] == ord[k]);
                } else if k > p {
                    assert(new_ord[k] == ord[k - 1]);
                }
            }
            assert(new_ord.no_duplicates()) by {
                assert forall|a: int, b: int| 0 <= a < new_ord.len() && 0 <= b < new_ord.len() && a != b implies new_ord[a]
                    != new_ord[b] by {
                    let oa = if a < p { a } else { a - 1 };
                    let ob = if b < p { b } else { b - 1 };
                    if a == p {
                        assert(new_ord[b] == ord[ob]);
                        assert(ord[ob] < i);
                    } else if b == p {
                        assert(new_ord[a] == ord[oa]);
                        assert(ord[oa] < i);
                    } else {
                        assert(new_ord[a] == ord[oa]);
                        assert(new_ord[b] == ord[ob]);
                        assert(oa != ob);
                    }
                }
            }
            assert forall|a: int, b: int| 0 <= a < b < i + 1 implies date_before(keys, #[trigger] new_ord[a], #[trigger] new_ord[b]) by {
                if b < p {
                    assert(new_ord[a] == ord[a] && new_ord[b] == ord[b]);
                } else if a > p {
                    assert(new_ord[a] == ord[a - 1] && new_ord[b] == ord[b - 1]);
                } else if a < p && b > p {
                    assert(new_ord[a] == ord[a] && new_ord[b] == ord[b - 1]);
                } else if b == p {
                    assert(new_ord[a] == ord[a] && new_ord[b] == i);
                    let ka = keys[ord[a]];
                    assert(!lex_lt(ka, keys[i as int]));
                    lemma_lex_total(ka, keys[i as int]);
                    assert(ord[a] < i);
                } else {
                    assert(a == p && b > p);
                    assert(new_ord[a] == i && new_ord[b] == ord[b - 1]);
                    let kp = keys[ord[p as int]];
                    let kb = keys[ord[b - 1]];
                    assert(lex_lt(kp, keys[i as int]));
                    if b - 1 > p {
                        assert(date_before(keys, ord[p as int], ord[b - 1]));
                        lemma_before_keys(keys, ord[p as int], ord[b - 1]);
                        lemma_lex_total(kp, kb);
                        if lex_lt(kb, kp) {
                            lemma_lex_transitive(kb, kp, keys[i as int]);
                        }
                    }
                }
            }
            assert forall|k: int| 0 <= k < i + 1 implies #[trigger] items@[k] == orig[new_ord[k]] by {
                if k < p {
                    assert(items@[k] == old_items[k]);
                } else if k > p {
                    assert(items@[k] == old_items[k - 1]);
                }
            }
            assert forall|k: int| i + 1 <= k < n implies #[trigger] items@[k] == orig[k] by {
                assert(items@[k] == old_items[k - 1]);
            }
            ord = new_ord;
        }
        i += 1;
    }
    proof {
        assert(items@ =~= reordered(ord, orig));
        assert(is_date_order(ord, keys));
    }
}

// ---------------------------------------------------------------------------
// The feed and its lookup tables
// ---------------------------------------------------------------------------

/// Each URL → the last position that has it.
pub open spec fn url_positions(items: Seq<FeedItem>) -> Map<Seq<char>, usize>
    decreases items.len(),
{
    if items.len() == 0 {
        Map::empty()
    } else {
        url_positions(items.drop_last()).insert(items.last().url@, (items.len() - 1) as usize)
    }
}

/// Each arXiv id (of an item's URL) → the last position that has it.
pub open spec fn aid_positions(items: Seq<FeedItem>) -> Map<Seq<char>, usize>
    decreases items.len(),
{
    if items.len() == 0 {
        Map::empty()
    } else {
        let before = aid_positions(items.drop_last());
        match spec_arxiv_id_from_url(items.last().url@) {
            Some(aid) => before.insert(aid, (items.len() - 1) as usize),
            None => before,
        }
    }
}

/// The positions a map points to all lie in the feed.
pub open spec fn points_into(m: Map<Seq<char>, usize>, len: nat) -> bool {
    forall|k: Seq<char>| #[trigger] m.contains_key(k) ==> m[k] < len
}

proof fn lemma_positions_in_range(items: Seq<FeedItem>)
    ensures
        points_into(url_positions(items), items.len()),
        points_into(aid_positions(items), items.len()),
    decreases items.len(),
{
    if items.len() > 0 {
        lemma_positions_in_range(items.drop_last());
    }
}

proof fn lemma_url_keys(items: Seq<FeedItem>, k: Seq<char>)
    ensures
        url_positions(items).contains_key(k) <==> exists|i: int| 0 <= i < items.len() && #[trigger] items[i].url@ == k,
    decreases items.len(),
{
    if items.len() > 0 {
        let init = items.drop_last();
        lemma_url_keys(init, k);
        if url_positions(init).contains_key(k) {
            let i = choose|i: int| 0 <= i < init.len() && #[trigger] init[i].url@ == k;
            assert(items[i].url@ == k);
        }
        if exists|i: int| 0 <= i < items.len() && #[trigger] items[i].url@ == k {
            let i = choose|i: int| 0 <= i < items.len() && #[trigger] items[i].url@ == k;
            if i < items.len() - 1 {
                assert(init[i].url@ == k);
            }
        }
    }
}

/// Where no two items share a URL, the URL table built from the items has
/// one entry per item and finds each item at its own position.
pub proof fn law_url_table_finds_every_item(items: Seq<FeedItem>)
    requires
        items.len() <= usize::MAX,
        forall|i: int, j: int| 0 <= i < j < items.len() ==> items[i].url@ != items[j].url@,
    ensures
        url_positions(items).dom().finite(),
        url_positions(items).len() == items.len(),
        forall|i: int| 0 <= i < items.len() ==> #[trigger] url_positions(items)[items[i].url@] == i,
    decreases items.len(),
{
    if items.len() > 0 {
        let init = items.drop_last();
        let last = items.last().url@;
        law_url_table_finds_every_item(init);
        lemma_url_keys(init, last);
        assert(!url_positions(init).contains_key(last)) by {
            if url_positions(init).contains_key(last) {
                let i = choose|i: int| 0 <= i < init.len() && #[trigger] init[i].url@ == last;
                assert(items[i].url@ == items[items.len() - 1].url@);
            }
        }
        assert forall|i: int| 0 <= i < items.len() implies #[trigger] url_positions(items)[items[i].url@] == i by {
            if i < items.len() - 1 {
                assert(init[i] == items[i]);
                assert(items[i].url@ != last);
            }
        }
    }
}

/// A feed: its items, newest first after each batch, and the tables that
/// find an item by URL or arXiv id.
pub struct FeedStore {
    pub items: Vec<FeedItem>,
    pub url_index: KeyIndex<usize>,
    pub aid_index: KeyIndex<usize>,
}

/// An incoming item with its saved reading state, if one was saved for its
/// URL.
pub open spec fn with_saved_state(item: FeedItem, saved: Map<Seq<char>, WorkflowState>) -> FeedItem {
    if saved.contains_key(item.url@) {
        FeedItem { workflow_state: saved[item.url@], ..item }
    } else {
        item
    }
}

/// The feed (items, URL table, arXiv-id table) after taking in one item:
/// an item whose URL is known replaces that entry; else an item whose arXiv
/// id is known is dropped, unless it comes from arXiv, when it replaces
/// the entry and keeps that entry's reading state; else it is appended and
/// entered in the tables.
pub open spec fn merged(
    items: Seq<FeedItem>,
    urls: Map<Seq<char>, usize>,
    aids: Map<Seq<char>, usize>,
    incoming: FeedItem,
    saved: Map<Seq<char>, WorkflowState>,
) -> (Seq<FeedItem>, Map<Seq<char>, usize>, Map<Seq<char>, usize>) {
    let it = with_saved_state(incoming, saved);
    if urls.contains_key(it.url@) {
        (items.update(urls[it.url@] as int, it), urls, aids)
    } else {
        match spec_arxiv_id_from_url(it.url@) {
            Some(aid) => if aids.contains_key(aid) {
                let pos = aids[aid] as int;
                if it.source_platform == SourcePlatform::ArXiv {
                    (items.update(pos, FeedItem { workflow_state: items[pos].workflow_state, ..it }), urls, aids)
                } else {
                    (items, urls, aids)
                }
            } else {
                (items.push(it), urls.insert(it.url@, items.len() as usize), aids.insert(aid, items.len() as usize))
            },
            None => (items.push(it), urls.insert(it.url@, items.len() as usize), aids),
        }
    }
}

impl FeedStore {
    /// Position of each URL.
    pub closed spec fn urls(self) -> Map<Seq<char>, usize> {
        self.url_index.spec_map()
    }

    /// Position of each arXiv id.
    pub closed spec fn aids(self) -> Map<Seq<char>, usize> {
        self.aid_index.spec_map()
    }

    /// The tables are well formed and point into the feed.
    pub closed spec fn wf(self) -> bool {
        &&& self.url_index.wf()
        &&& self.aid_index.wf()
        &&& points_into(self.urls(), self.items@.len())
        &&& points_into(self.aids(), self.items@.len())
    }

    fn build_tables(items: &Vec<FeedItem>) -> (r: (KeyIndex<usize>, KeyIndex<usize>))
        ensures
            r.0.wf(),
            r.1.wf(),
            r.0.spec_map() == url_positions(items@),
            r.1.spec_map() == aid_positions(items@),
    {
        let mut urls: KeyIndex<usize> = KeyIndex::new();
        let mut aids: KeyIndex<usize> = KeyIndex::new();
        let mut i: usize = 0;
        assert(items@.take(0) =~= Seq::<FeedItem>::empty());
        while i < items.len()
            invariant
                0 <= i <= items@.len(),
                urls.wf(),
                aids.wf(),
                urls.spec_map() == url_positions(items@.take(i as int)),
                aids.spec_map() == aid_positions(items@.take(i as int)),
            decreases items.len() - i,
        {
            assert(items@.take(i + 1).drop_last() =~= items@.take(i as int));
            assert(items@.take(i + 1).last() == items@[i as int]);
            urls.insert(items[i].url.clone(), i);
            match arxiv_id_from_url(items[i].url.as_str()) {
                Some(aid) => {
                    aids.insert(to_owned_string(aid), i);
                },
                None => {},
            }
            i += 1;
        }
        assert(items@.take(items@.len() as int) =~= items@);
        (urls, aids)
    }

    /// A feed of `items` with fresh tables.
    pub fn new(items: Vec<FeedItem>) -> (r: Self)
        ensures
            r.wf(),
            r.items@ == items@,
            r.urls() == url_positions(items@),
            r.aids() == aid_positions(items@),
    {
        let (url_index, aid_index) = Self::build_tables(&items);
        proof { lemma_positions_in_range(items@); }
        FeedStore { items, url_index, aid_index }
    }

    /// Take in one fetched item (see `merged`); `saved` holds the reading
    /// states saved by URL.
    pub fn merge_item(&mut self, item: FeedItem, saved: &KeyIndex<WorkflowState>)
        requires
            old(self).wf(),
            saved.wf(),
        ensures
            final(self).wf(),
            (final(self).items@, final(self).urls(), final(self).aids()) == merged(
                old(self).items@,
                old(self).urls(),
                old(self).aids(),
                item,
                saved.spec_map(),
            ),
    {
        let mut item = item;
        match saved.get(item.url.as_str()) {
            Some(s) => {
                item.workflow_state = s;
            },
            None => {},
        }
        match self.url_index.get(item.url.as_str()) {
            Some(pos) => {
                self.items.set(pos, item);
                return;
            },
            None => {},
        }
        let n = self.items.len();
        match arxiv_id_from_url(item.url.as_str()) {
            Some(aid) => {
                let aid = to_owned_string(aid);
                match self.aid_index.get(aid.as_str()) {
                    Some(pos) => {
                        if item.source_platform == SourcePlatform::ArXiv {
                            item.workflow_state = self.items[pos].workflow_state;
                            self.items.set(pos, item);
                        }
                        return;
                    },
                    None => {
                        self.url_index.insert(item.url.clone(), n);
                        self.aid_index.insert(aid, n);
                    },
                }
            },
            None => {
                self.url_index.insert(item.url.clone(), n);
            },
        }
        self.items.push(item);
    }

    /// Rebuild both tables from the items as they stand, dropping entries
    /// for positions that no longer exist.
    pub fn rebuild_indices(&mut self)
        ensures
            final(self).wf(),
            final(self).items@ == old(self).items@,
            final(self).urls() == url_positions(final(self).items@),
            final(self).aids() == aid_positions(final(self).items@),
    {
        let (u, a) = Self::build_tables(&self.items);
        self.url_index = u;
        self.aid_index = a;
        proof { lemma_positions_in_range(self.items@); }
    }

    /// Put the feed newest first (see `sort_newest_first`) and rebuild the
    /// tables for the new positions.
    pub fn sort_and_reindex(&mut self)
        ensures
            final(self).wf(),
            exists|ord: Seq<int>|
                is_date_order(ord, dates(old(self).items@)) && final(self).items@ == reordered(ord, old(self).items@),
            final(self).urls() == url_positions(final(self).items@),
            final(self).aids() == aid_positions(final(self).items@),
    {
        sort_newest_first(&mut self.items);
        let (u, a) = Self::build_tables(&self.items);
        self.url_index = u;
        self.aid_index = a;
        proof { lemma_positions_in_range(self.items@); }
    }

    /// Take in a batch of fetched items, then put the feed newest first.
    pub fn merge_batch(&mut self, batch: Vec<FeedItem>, saved: &KeyIndex<WorkflowState>)
        requires
            old(self).wf(),
            saved.wf(),
        ensures
            final(self).wf(),
            exists|ord: Seq<int>|
                is_date_order(ord, dates(merged_all(old(self).items@, old(self).urls(), old(self).aids(), batch@, saved.spec_map()).0))
                    && final(self).items@ == reordered(ord, merged_all(old(self).items@, old(self).urls(), old(self).aids(), batch@, saved.spec_map()).0),
            final(self).urls() == url_positions(final(self).items@),
            final(self).aids() == aid_positions(final(self).items@),
    {
        let ghost start = (self.items@, self.urls(), self.aids());
        let mut rest = batch;
        let ghost all = rest@;
        let mut j: usize = 0;
        let n = rest.len();
        let mut taken: Vec<FeedItem> = Vec::new();
        assert(all.take(0) =~= Seq::<FeedItem>::empty());
        while rest.len() > 0
            invariant
                self.wf(),
                saved.wf(),
                n == all.len(),
                rest@.len() + j == n,
                rest@ == all.skip(j as int),
                (self.items@, self.urls(), self.aids()) == merged_all(start.0, start.1, start.2, all.take(j as int), saved.spec_map()),
            decreases rest.len(),
        {
            let it = rest.remove(0);
            assert(it == all[j as int]);
            assert(all.take(j + 1).drop_last() =~= all.take(j as int));
            assert(all.take(j + 1).last() == all[j as int]);
            self.merge_item(it, saved);
            j += 1;
            assert(rest@ =~= all.skip(j as int));
        }
        assert(all.take(n as int) =~= all);
        let ghost pre = self.items@;
        assert(pre == merged_all(start.0, start.1, start.2, batch@, saved.spec_map()).0);
        self.sort_and_reindex();
        proof {
            let ord = choose|ord: Seq<int>| is_date_order(ord, dates(pre)) && self.items@ == reordered(ord, pre);
            assert(is_date_order(ord, dates(pre)) && self.items@ == reordered(ord, pre));
        }
    }
}

/// The feed after taking in a batch, one item after another.
pub open spec fn merged_all(
    items: Seq<FeedItem>,
    urls: Map<Seq<char>, usize>,
    aids: Map<Seq<char>, usize>,
    batch: Seq<FeedItem>,
    saved: Map<Seq<char>, WorkflowState>,
) -> (Seq<FeedItem>, Map<Seq<char>, usize>, Map<Seq<char>, usize>)
    decreases batch.len(),
{
    if batch.len() == 0 {
        (items, urls, aids)
    } else {
        let before = merged_all(items, urls, aids, batch.drop_last(), saved);
        merged(before.0, before.1, before.2, batch.last(), saved)
    }
}

/// Taking in an item never shrinks the feed and adds at most one entry.
pub proof fn law_merge_grows_by_at_most_one(
    items: Seq<FeedItem>,
    urls: Map<Seq<char>, usize>,
    aids: Map<Seq<char>, usize>,
    incoming: FeedItem,
    saved: Map<Seq<char>, WorkflowState>,
)
    requires
        points_into(urls, items.len()),
        points_into(aids, items.len()),
    ensures
        items.len() <= merged(items, urls, aids, incoming, saved).0.len() <= items.len() + 1,
        points_into(merged(items, urls, aids, incoming, saved).1, merged(items, urls, aids, incoming, saved).0.len()),
        points_into(merged(items, urls, aids, incoming, saved).2, merged(items, urls, aids, incoming, saved).0.len()),
{
}

/// An item whose URL is already in the feed replaces that entry in place
/// (taking the reading state saved for its URL, if any).
pub proof fn law_known_url_replaces_in_place(
    items: Seq<FeedItem>,
    urls: Map<Seq<char>, usize>,
    aids: Map<Seq<char>, usize>,
    incoming: FeedItem,
    saved: Map<Seq<char>, WorkflowState>,
)
    requires
        points_into(urls, items.len()),
        urls.contains_key(incoming.url@),
    ensures
        merged(items, urls, aids, incoming, saved).0.len() == items.len(),
        merged(items, urls, aids, incoming, saved).0[urls[incoming.url@] as int] == with_saved_state(incoming, saved),
        forall|i: int|
            0 <= i < items.len() && i != urls[incoming.url@] ==> #[trigger] merged(items, urls, aids, incoming, saved).0[i]
                == items[i],
{
}

/// A second entry for a paper already in the feed (same arXiv id, another
/// URL) is dropped unless it comes from arXiv; the arXiv entry replaces the
/// other one and keeps its reading state.
pub proof fn law_arxiv_entry_is_primary(
    items: Seq<FeedItem>,
    urls: Map<Seq<char>, usize>,
    aids: Map<Seq<char>, usize>,
    incoming: FeedItem,
    saved: Map<Seq<char>, WorkflowState>,
    aid: Seq<char>,
)
    requires
        points_into(aids, items.len()),
        !urls.contains_key(incoming.url@),
        spec_arxiv_id_from_url(incoming.url@) == Some(aid),
        aids.contains_key(aid),
    ensures
        incoming.source_platform != SourcePlatform::ArXiv ==> merged(items, urls, aids, incoming, saved) == (
            items,
            urls,
            aids,
        ),
        incoming.source_platform == SourcePlatform::ArXiv ==> {
            let m = merged(items, urls, aids, incoming, saved).0;
            let pos = aids[aid] as int;
            &&& m.len() == items.len()
            &&& m[pos].url == incoming.url
            &&& m[pos].title == incoming.title
            &&& m[pos].workflow_state == items[pos].workflow_state
        },
{
}

/// An item with a new URL and no known arXiv id is appended, and both
/// tables then find it.
pub proof fn law_new_item_is_appended(
    items: Seq<FeedItem>,
    urls: Map<Seq<char>, usize>,
    aids: Map<Seq<char>, usize>,
    incoming: FeedItem,
    saved: Map<Seq<char>, WorkflowState>,
)
    requires
        items.len() <= usize::MAX,
        !urls.contains_key(incoming.url@),
        match spec_arxiv_id_from_url(incoming.url@) {
            Some(aid) => !aids.contains_key(aid),
            None => true,
        },
    ensures
        merged(items, urls, aids, incoming, saved).0 == items.push(with_saved_state(incoming, saved)),
        merged(items, urls, aids, incoming, saved).1[incoming.url@] == items.len(),
        match spec_arxiv_id_from_url(incoming.url@) {
            Some(aid) => merged(items, urls, aids, incoming, saved).2[aid] == items.len(),
            None => merged(items, urls, aids, incoming, saved).2 == aids,
        },
{
}

/// Putting a feed newest first keeps every item and leaves the dates in
/// non-increasing order.
pub proof fn law_date_order_sorted(ord: Seq<int>, items: Seq<FeedItem>)
    requires
        is_date_order(ord, dates(items)),
    ensures
        reordered(ord, items).len() == items.len(),
        forall|a: int, b: int|
            0 <= a < b < items.len() ==> !lex_lt(
                #[trigger] reordered(ord, items)[a].published_at@,
                #[trigger] reordered(ord, items)[b].published_at@,
            ),
        reordered(ord, items).to_multiset() == items.to_multiset(),
{
    let sorted = reordered(ord, items);
    let keys = dates(items);
    assert forall|a: int, b: int| 0 <= a < b < items.len() implies !lex_lt(
        #[trigger] sorted[a].published_at@,
        #[trigger] sorted[b].published_at@,
    ) by {
        assert(date_before(keys, ord[a], ord[b]));
        lemma_before_keys(keys, ord[a], ord[b]);
        assert(keys[ord[a]] == sorted[a].published_at@);
        assert(keys[ord[b]] == sorted[b].published_at@);
    }
    lemma_permutation_multiset(ord, items);
}

/// Reordering by a permutation keeps the multiset of items.
proof fn lemma_permutation_multiset(ord: Seq<int>, items: Seq<FeedItem>)
    requires
        ord.len() == items.len(),
        ord.no_duplicates(),
        forall|k: int| 0 <= k < ord.len() ==> 0 <= #[trigger] ord[k] < items.len(),
    ensures
        reordered(ord, items).to_multiset() == items.to_multiset(),
    decreases items.len(),
{
    broadcast use vstd::seq_lib::group_to_multiset_ensures;

    if items.len() > 0 {
        let n = items.len() - 1;
        // Find where the last position sits in `ord`.
        lemma_full_range(ord, items.len() as int);
        assert(ord.contains(n));
        let j = choose|j: int| 0 <= j < ord.len() && ord[j] == n;
        let rest = ord.remove(j);
        assert forall|k: int| 0 <= k < rest.len() implies 0 <= #[trigger] rest[k] < n by {
            if k < j {
                assert(rest[k] == ord[k]);
                assert(ord[k] != ord[j]);
            } else {
                assert(rest[k] == ord[k + 1]);
                assert(ord[k + 1] != ord[j]);
            }
        }
        assert(rest.no_duplicates()) by {
            assert forall|a: int, b: int| 0 <= a < rest.len() && 0 <= b < rest.len() && a != b implies rest[a] != rest[b] by {
                let oa = if a < j { a } else { a + 1 };
                let ob = if b < j { b } else { b + 1 };
                assert(rest[a] == ord[oa] && rest[b] == ord[ob]);
            }
        }
        let init = items.drop_last();
        lemma_permutation_multiset(rest, init);
        let r = reordered(rest, init);
        assert(reordered(rest, items) =~= r) by {
            assert forall|k: int| 0 <= k < rest.len() implies reordered(rest, items)[k] == r[k] by {
                assert(rest[k] < n);
            }
        }
        assert(reordered(ord, items) =~= r.insert(j, items[n]));
        lemma_insert_multiset(r, j, items[n]);
        assert(items =~= init.push(items[n]));
        init.to_multiset_ensures();
    }
}

/// A permutation of `0 .. n` contains every position below `n`.
proof fn lemma_full_range(ord: Seq<int>, n: int)
    requires
        ord.len() == n,
        ord.no_duplicates(),
        forall|k: int| 0 <= k < ord.len() ==> 0 <= #[trigger] ord[k] < n,
    ensures
        forall|x: int| 0 <= x < n ==> ord.contains(x),
{
    let s = ord.to_set();
    ord.unique_seq_to_set();
    let full = Set::new(|x: int| 0 <= x < n);
    assert(s.subset_of(full)) by {
        assert forall|x: int| s.contains(x) implies full.contains(x) by {
            let k = choose|k: int| 0 <= k < ord.len() && ord[k] == x;
        }
    }
    vstd::set_lib::lemma_int_range(0, n);
    assert(full =~= vstd::set_lib::set_int_range(0, n));
    vstd::set_lib::lemma_subset_equality(s, full);
    assert forall|x: int| 0 <= x < n implies ord.contains(x) by {
        assert(full.contains(x));
    }
}

/// Inserting an element anywhere adds it once to the multiset.
proof fn lemma_insert_multiset<A>(s: Seq<A>, j: int, x: A)
    requires
        0 <= j <= s.len(),
    ensures
        s.insert(j, x).to_multiset() == s.to_multiset().insert(x),
{
    broadcast use vstd::seq_lib::group_to_multiset_ensures;

    let a = s.take(j);
    let b = s.skip(j);
    assert(s =~= a + b);
    assert(s.insert(j, x) =~= a.push(x) + b);
    vstd::seq_lib::lemma_multiset_commutative(a.push(x), b);
    vstd::seq_lib::lemma_multiset_commutative(a, b);
}

} // verus!
