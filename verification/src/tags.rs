//! User tags attached to items, keyed by item URL.
//!
//! Tag names are stored trimmed and lower-cased so that filtering does not
//! depend on how the user typed them.  Each URL's list is kept sorted, with
//! no repeats, and a URL without tags has no entry.
use vstd::prelude::*;

use crate::models::views;
use crate::order::{lemma_lex_asymmetric, lemma_lex_irreflexive, lemma_lex_total, lemma_lex_transitive, lex_less, lex_lt};
use crate::strs::{
    ascii_lower, chars_of, is_ascii, is_ws, lemma_ascii_case, lemma_trim_facts, lemma_trim_noop, lowercase, str_eq, str_trim,
    to_lowercase, trim,
};

verus! {

broadcast use vstd::string::group_string_axioms;

/// Strictly increasing in `String` order (so also free of repeats).
pub open spec fn strictly_sorted(s: Seq<Seq<char>>) -> bool {
    forall|i: int, j: int| 0 <= i < j < s.len() ==> lex_lt(#[trigger] s[i], #[trigger] s[j])
}

/// The index of the first entry for `url`.
pub open spec fn lookup(keys: Seq<Seq<char>>, url: Seq<char>) -> Option<int>
    decreases keys.len(),
{
    if keys.len() == 0 {
        None
    } else if keys.last() == url {
        Some(keys.len() - 1)
    } else {
        lookup(keys.drop_last(), url)
    }
}

/// URL → tag names.
pub struct ItemTags {
    entries: Vec<(String, Vec<String>)>,
}

impl ItemTags {
    pub closed spec fn keys(self) -> Seq<Seq<char>> {
        Seq::new(self.entries@.len(), |i: int| self.entries@[i].0@)
    }

    pub closed spec fn lists(self) -> Seq<Seq<Seq<char>>> {
        Seq::new(self.entries@.len(), |i: int| views(self.entries@[i].1@))
    }

    /// URLs are distinct, and each list is non-empty and strictly sorted.
    pub closed spec fn wf(self) -> bool {
        &&& self.keys().no_duplicates()
        &&& forall|i: int| 0 <= i < self.lists().len() ==> #[trigger] self.lists()[i].len() > 0
            && strictly_sorted(self.lists()[i])
    }

    /// The tags of `url` (empty when it has none).
    pub closed spec fn spec_for_url(self, url: Seq<char>) -> Seq<Seq<char>> {
        match lookup(self.keys(), url) {
            Some(i) => self.lists()[i],
            None => Seq::empty(),
        }
    }

    /// The URLs that carry at least one tag.
    pub closed spec fn spec_urls(self) -> Set<Seq<char>> {
        self.keys().to_set()
    }

    /// Every tag in use.
    pub open spec fn spec_all_tags(self) -> Set<Seq<char>> {
        Set::new(|t: Seq<char>| exists|u: Seq<char>| self.spec_urls().contains(u) && #[trigger] self.spec_for_url(u).contains(t))
    }

    /// Number of entries among the first `n` whose list contains `tag`.
    closed spec fn count_upto(self, tag: Seq<char>, n: int) -> nat
        decreases n,
    {
        if n <= 0 {
            0
        } else {
            self.count_upto(tag, n - 1) + if self.lists()[n - 1].contains(tag) { 1nat } else { 0nat }
        }
    }

    /// Number of URLs whose tags include `tag`.
    pub open spec fn spec_count_for(self, tag: Seq<char>) -> nat {
        self.spec_urls().filter(|u: Seq<char>| self.spec_for_url(u).contains(tag)).len()
    }

    /// The URLs among the first `n` entries whose list contains `tag`.
    closed spec fn tagged_upto(self, tag: Seq<char>, n: int) -> Set<Seq<char>> {
        Set::new(|u: Seq<char>| exists|k: int| 0 <= k < n && self.keys()[k] == u && #[trigger] self.lists()[k].contains(tag))
    }

    /// Whether `x` occurs in one of the first `n` lists.
    closed spec fn in_first(self, n: int, x: Seq<char>) -> bool {
        exists|a: int| 0 <= a < n && #[trigger] self.lists()[a].contains(x)
    }

    pub fn new() -> (r: Self)
        ensures
            r.wf(),
            r.spec_urls() == Set::<Seq<char>>::empty(),
            forall|u: Seq<char>| #[trigger] r.spec_for_url(u) == Seq::<Seq<char>>::empty(),
    {
        let r = ItemTags { entries: Vec::new() };
        assert(r.keys() =~= Seq::<Seq<char>>::empty());
        assert(r.spec_urls() =~= Set::<Seq<char>>::empty());
        r
    }

    /// The URLs that carry at least one tag, each once.
    pub fn urls(&self) -> (r: Vec<String>)
        requires
            self.wf(),
        ensures
            views(r@).to_set() == self.spec_urls(),
            views(r@).no_duplicates(),
    {
        let mut r: Vec<String> = Vec::new();
        let mut i: usize = 0;
        while i < self.entries.len()
            invariant
                0 <= i <= self.entries@.len(),
                views(r@) == self.keys().take(i as int),
            decreases self.entries.len() - i,
        {
            let ghost before = views(r@);
            let u = self.entries[i].0.clone();
            r.push(u);
            assert(views(r@) =~= before.push(self.keys()[i as int]));
            assert(self.keys().take(i + 1) =~= self.keys().take(i as int).push(self.keys()[i as int]));
            i += 1;
        }
        assert(self.keys().take(self.entries@.len() as int) =~= self.keys());
        r
    }
}

proof fn lemma_lookup(keys: Seq<Seq<char>>, url: Seq<char>)
    requires
        keys.no_duplicates(),
    ensures
        match lookup(keys, url) {
            Some(i) => 0 <= i < keys.len() && keys[i] == url,
            None => !keys.contains(url),
        },
        keys.contains(url) ==> lookup(keys, url) is Some,
    decreases keys.len(),
{
    if keys.len() > 0 && keys.last() != url {
        let d = keys.drop_last();
        assert(d.no_duplicates());
        lemma_lookup(d, url);
        if keys.contains(url) {
            let k = choose|k: int| 0 <= k < keys.len() && keys[k] == url;
            assert(d[k] == url);
        }
        if d.contains(url) {
            let k = choose|k: int| 0 <= k < d.len() && d[k] == url;
            assert(keys[k] == url);
        }
    }
}

/// With distinct keys, `lookup` finds the only index holding `url`.
proof fn lemma_lookup_index(keys: Seq<Seq<char>>, i: int)
    requires
        keys.no_duplicates(),
        0 <= i < keys.len(),
    ensures
        lookup(keys, keys[i]) == Some(i),
{
    lemma_lookup(keys, keys[i]);
    assert(keys.contains(keys[i]));
}

/// `new` is `old` with `url` tagged by the normalized `tag`; an empty
/// normalized tag leaves everything as it was.
pub open spec fn tag_added(old: ItemTags, new: ItemTags, url: Seq<char>, tag: Seq<char>) -> bool {
    let t = spec_normalize(tag);
    if t.len() == 0 {
        &&& new.spec_urls() == old.spec_urls()
        &&& forall|u: Seq<char>| #[trigger] new.spec_for_url(u) == old.spec_for_url(u)
    } else {
        &&& new.spec_urls() == old.spec_urls().insert(url)
        &&& forall|x: Seq<char>| #[trigger] new.spec_for_url(url).contains(x) <==> (old.spec_for_url(url).contains(x) || x == t)
        &&& forall|u: Seq<char>| u != url ==> #[trigger] new.spec_for_url(u) == old.spec_for_url(u)
    }
}

/// `new` is `old` with the normalized `tag` taken off `url`; a URL left
/// without tags loses its entry.
pub open spec fn tag_removed(old: ItemTags, new: ItemTags, url: Seq<char>, tag: Seq<char>) -> bool {
    let t = spec_normalize(tag);
    &&& forall|x: Seq<char>| #[trigger] new.spec_for_url(url).contains(x) <==> (old.spec_for_url(url).contains(x) && x != t)
    &&& forall|u: Seq<char>| u != url ==> #[trigger] new.spec_for_url(u) == old.spec_for_url(u)
    &&& new.spec_urls() == if new.spec_for_url(url).len() == 0 { old.spec_urls().remove(url) } else { old.spec_urls() }
}

/// Tag names are trimmed and lower-cased.
pub open spec fn spec_normalize(tag: Seq<char>) -> Seq<char> {
    lowercase(trim(tag))
}

pub fn normalize(tag: &str) -> (r: String)
    ensures
        r@ == spec_normalize(tag@),
{
    to_lowercase(str_trim(tag))
}

fn find_entry(tags: &ItemTags, url: &str) -> (r: Option<usize>)
    requires
        tags.wf(),
    ensures
        match r {
            Some(i) => lookup(tags.keys(), url@) == Some(i as int),
            None => lookup(tags.keys(), url@) is None,
        },
{
    proof { lemma_lookup(tags.keys(), url@); }
    let mut i: usize = 0;
    while i < tags.entries.len()
        invariant
            0 <= i <= tags.entries@.len(),
            tags.wf(),
            forall|j: int| 0 <= j < i ==> tags.keys()[j] != url@,
        decreases tags.entries.len() - i,
    {
        if str_eq(tags.entries[i].0.as_str(), url) {
            proof {
                assert(tags.keys()[i as int] == url@);
                lemma_lookup_index(tags.keys(), i as int);
            }
            return Some(i);
        }
        i += 1;
    }
    proof {
        if tags.keys().contains(url@) {
            let k = choose|k: int| 0 <= k < tags.keys().len() && tags.keys()[k] == url@;
        }
    }
    None
}

pub(crate) fn contains_tag(list: &Vec<String>, t: &str) -> (r: bool)
    ensures
        r == views(list@).contains(t@),
{
    let mut j: usize = 0;
    while j < list.len()
        invariant
            0 <= j <= list@.len(),
            forall|k: int| 0 <= k < j ==> list@[k]@ != t@,
        decreases list.len() - j,
    {
        if str_eq(list[j].as_str(), t) {
            assert(views(list@)[j as int] == t@);
            return true;
        }
        j += 1;
    }
    proof {
        if views(list@).contains(t@) {
            let k = choose|k: int| 0 <= k < views(list@).len() && views(list@)[k] == t@;
            assert(list@[k]@ == t@);
        }
    }
    false
}

/// Inserts `t` (absent) into a strictly sorted list.
pub(crate) fn insert_tag_sorted(list: &mut Vec<String>, t: String)
    requires
        strictly_sorted(views(old(list)@)),
        !views(old(list)@).contains(t@),
    ensures
        strictly_sorted(views(final(list)@)),
        views(final(list)@).to_set() == views(old(list)@).to_set().insert(t@),
        views(final(list)@).len() == views(old(list)@).len() + 1,
{
    let tv = chars_of(t.as_str());
    let mut j: usize = 0;
    while j < list.len() && !lex_less(&tv, &chars_of(list[j].as_str()))
        invariant
            0 <= j <= list@.len(),
            tv@ == t@,
            forall|k: int| 0 <= k < j ==> !lex_lt(t@, #[trigger] list@[k]@),
        decreases list.len() - j,
    {
        j += 1;
    }
    let ghost before = views(list@);
    list.insert(j, t);
    proof {
        let after = views(list@);
        assert(after =~= before.insert(j as int, t@));
        assert forall|a: int, b: int| 0 <= a < b < after.len() implies lex_lt(#[trigger] after[a], #[trigger] after[b]) by {
            if b < j {
            } else if b == j {
                // before[a] is not above t and differs from it
                assert(after[a] == before[a]);
                assert(!lex_lt(t@, list@[a]@));
                lemma_lex_total(before[a], t@);
                assert(before.contains(before[a]));
            } else if a == j {
                assert(after[b] == before[b - 1]);
                assert(lex_lt(t@, before[j as int]));
                if b - 1 > j {
                    lemma_lex_transitive(t@, before[j as int], before[b - 1]);
                }
            } else if a < j {
                assert(after[a] == before[a] && after[b] == before[b - 1]);
                assert(lex_lt(before[a], t@)) by {
                    lemma_lex_total(before[a], t@);
                    assert(before.contains(before[a]));
                }
                assert(lex_lt(t@, before[j as int]));
                lemma_lex_transitive(before[a], t@, before[j as int]);
                if b - 1 > j {
                    lemma_lex_transitive(before[a], before[j as int], before[b - 1]);
                }
            } else {
                assert(after[a] == before[a - 1] && after[b] == before[b - 1]);
            }
        }
        assert forall|x: Seq<char>| #[trigger] after.to_set().contains(x) == before.to_set().insert(t@).contains(x) by {
            if after.contains(x) {
                let k = choose|k: int| 0 <= k < after.len() && after[k] == x;
                if k < j {
                    assert(before[k] == x);
                    assert(before.contains(x));
                } else if k > j {
                    assert(before[k - 1] == x);
                    assert(before.contains(x));
                }
            }
            if before.contains(x) {
                let k = choose|k: int| 0 <= k < before.len() && before[k] == x;
                if k < j {
                    assert(after[k] == x);
                } else {
                    assert(after[k + 1] == x);
                }
                assert(after.contains(x));
            }
            if x == t@ {
                assert(after[j as int] == x);
                assert(after.contains(x));
            }
        }
        assert(after.to_set() =~= before.to_set().insert(t@));
    }
}

/// Tag `url` with `tag` (normalized); an empty tag is ignored.
pub fn add(tags: &mut ItemTags, url: &str, tag: String)
    requires
        old(tags).wf(),
    ensures
        final(tags).wf(),
        tag_added(*old(tags), *final(tags), url@, tag@),
        strictly_sorted(final(tags).spec_for_url(url@)),
{
    proof { lemma_lookup(tags.keys(), url@); }
    let t = normalize(tag.as_str());
    if t.as_str().unicode_len() == 0 {
        proof { lemma_for_url_sorted(*tags, url@); }
        return;
    }
    let ghost old_tags = *tags;
    match find_entry(tags, url) {
        None => {
            let mut list: Vec<String> = Vec::new();
            list.push(t);
            let u = crate::strs::to_owned_string(url);
            tags.entries.push((u, list));
            proof {
                let n = old_tags.entries@.len();
                assert(tags.keys() =~= old_tags.keys().push(url@));
                assert(tags.lists() =~= old_tags.lists().push(views(list@)));
                assert(!old_tags.keys().contains(url@));
                assert(tags.keys().no_duplicates()) by {
                    assert forall|a: int, b: int| 0 <= a < tags.keys().len() && 0 <= b < tags.keys().len() && a != b implies tags.keys()[a] != tags.keys()[b] by {
                        if a == n {
                            assert(old_tags.keys().contains(old_tags.keys()[b]));
                        } else if b == n {
                            assert(old_tags.keys().contains(old_tags.keys()[a]));
                        }
                    }
                }
                old_tags.keys().lemma_push_to_set_commute(url@);
                assert(tags.spec_urls() =~= old_tags.spec_urls().insert(url@));
                lemma_lookup_index(tags.keys(), n as int);
                assert(views(list@) =~= seq![t@]);
                assert(seq![t@] =~= Seq::<Seq<char>>::empty().push(t@));
                Seq::<Seq<char>>::empty().lemma_push_to_set_commute(t@);
                assert(Seq::<Seq<char>>::empty().to_set() =~= Set::<Seq<char>>::empty());
                assert(seq![t@].to_set() =~= Set::<Seq<char>>::empty().insert(t@));
                assert(old_tags.spec_for_url(url@) == Seq::<Seq<char>>::empty());
                assert forall|x: Seq<char>| #[trigger] tags.spec_for_url(url@).contains(x) <==> (old_tags.spec_for_url(url@).contains(x) || x == t@) by {
                    if x == t@ {
                        assert(tags.spec_for_url(url@)[0] == x);
                    }
                }
                assert forall|u: Seq<char>| u != url@ implies #[trigger] tags.spec_for_url(u) == old_tags.spec_for_url(u) by {
                    lemma_lookup(tags.keys(), u);
                    lemma_lookup(old_tags.keys(), u);
                    lemma_lookup_push(old_tags.keys(), url@, u);
                }
            }
        },
        Some(i) => {
            let has = contains_tag(&tags.entries[i].1, t.as_str());
            if has {
                proof {
                    assert(tags.spec_for_url(url@) == tags.lists()[i as int]);
                    assert(tags.spec_for_url(url@).to_set() =~= tags.spec_for_url(url@).to_set().insert(t@));
                    assert(tags.keys().contains(url@));
                    assert(tags.spec_urls() =~= tags.spec_urls().insert(url@));
                    assert forall|x: Seq<char>| #[trigger] tags.spec_for_url(url@).contains(x) <==> (tags.spec_for_url(url@).contains(x) || x == t@) by {
                        assert(tags.spec_for_url(url@).to_set().contains(x) == tags.spec_for_url(url@).contains(x));
                    }
                }
                return;
            }
            let mut entry = tags.entries.remove(i);
            proof {
                assert(old_tags.lists()[i as int] == views(entry.1@));
            }
            insert_tag_sorted(&mut entry.1, t);
            tags.entries.insert(i, entry);
            proof {
                assert(tags.keys() =~= old_tags.keys());
                assert(tags.lists() =~= old_tags.lists().update(i as int, views(entry.1@)));
                assert(tags.spec_urls() =~= old_tags.spec_urls().insert(url@)) by {
                    assert(old_tags.keys().contains(url@));
                }
                assert forall|u: Seq<char>| u != url@ implies #[trigger] tags.spec_for_url(u) == old_tags.spec_for_url(u) by {
                    lemma_lookup(tags.keys(), u);
                }
                assert forall|x: Seq<char>| #[trigger] tags.spec_for_url(url@).contains(x) <==> (old_tags.spec_for_url(url@).contains(x) || x == t@) by {
                    assert(tags.spec_for_url(url@).to_set().contains(x) == tags.spec_for_url(url@).contains(x));
                    assert(old_tags.spec_for_url(url@).to_set().contains(x) == old_tags.spec_for_url(url@).contains(x));
                }
            }
        },
    }
}

proof fn lemma_lookup_push(keys: Seq<Seq<char>>, k: Seq<char>, u: Seq<char>)
    requires
        u != k,
    ensures
        lookup(keys.push(k), u) == lookup(keys, u),
{
    assert(keys.push(k).drop_last() =~= keys);
}

proof fn lemma_for_url_sorted(tags: ItemTags, url: Seq<char>)
    requires
        tags.wf(),
    ensures
        strictly_sorted(tags.spec_for_url(url)),
{
    lemma_lookup(tags.keys(), url);
    match lookup(tags.keys(), url) {
        Some(i) => {
            assert(tags.lists()[i].len() > 0 && strictly_sorted(tags.lists()[i]));
        },
        None => {},
    }
}

/// Drops `t` from a strictly sorted list, keeping the rest in order.
fn remove_tag(list: &mut Vec<String>, t: &str)
    requires
        strictly_sorted(views(old(list)@)),
    ensures
        strictly_sorted(views(final(list)@)),
        forall|x: Seq<char>| #[trigger] views(final(list)@).contains(x) <==> (views(old(list)@).contains(x) && x != t@),
{
    let ghost src = views(list@);
    let mut kept: Vec<String> = Vec::new();
    let mut idx: Ghost<Seq<int>> = Ghost(Seq::empty());
    let mut j: usize = 0;
    while j < list.len()
        invariant
            0 <= j <= list@.len(),
            src == views(list@),
            strictly_sorted(src),
            idx@.len() == kept@.len(),
            forall|k: int| 0 <= k < kept@.len() ==> 0 <= #[trigger] idx@[k] < j && src[idx@[k]] == kept@[k]@,
            forall|k: int| 0 <= k < kept@.len() ==> #[trigger] kept@[k]@ != t@,
            forall|m: int| 0 <= m < j && src[m] != t@ ==> views(kept@).contains(#[trigger] src[m]),
            strictly_sorted(views(kept@)),
        decreases list.len() - j,
    {
        if !str_eq(list[j].as_str(), t) {
            let ghost before = views(kept@);
            let item = list[j].clone();
            kept.push(item);
            proof {
                idx@ = idx@.push(j as int);
                let after = views(kept@);
                assert(after =~= before.push(src[j as int]));
                assert forall|a: int, b: int| 0 <= a < b < after.len() implies lex_lt(#[trigger] after[a], #[trigger] after[b]) by {
                    if b == after.len() - 1 {
                        assert(src[idx@[a]] == after[a]);
                    }
                }
                assert forall|m: int| 0 <= m < j + 1 && src[m] != t@ implies after.contains(#[trigger] src[m]) by {
                    if m == j {
                        assert(after[after.len() - 1] == src[m]);
                    } else {
                        let k = choose|k: int| 0 <= k < before.len() && before[k] == src[m];
                        assert(after[k] == src[m]);
                    }
                }
            }
        }
        j += 1;
    }
    proof {
        let out = views(kept@);
        assert forall|x: Seq<char>| #[trigger] out.contains(x) <==> (src.contains(x) && x != t@) by {
            if out.contains(x) {
                let k = choose|k: int| 0 <= k < out.len() && out[k] == x;
                assert(kept@[k]@ == x);
                assert(src[idx@[k]] == x);
            }
        }
    }
    *list = kept;
}

/// Take the normalized `tag` off `url`; a URL left without tags is dropped.
pub fn remove(tags: &mut ItemTags, url: &str, tag: &str)
    requires
        old(tags).wf(),
    ensures
        final(tags).wf(),
        tag_removed(*old(tags), *final(tags), url@, tag@),
{
    proof { lemma_lookup(tags.keys(), url@); }
    let t = normalize(tag);
    let ghost old_tags = *tags;
    match find_entry(tags, url) {
        None => {
            proof {
                assert(tags.spec_for_url(url@) == Seq::<Seq<char>>::empty());
                assert(!tags.keys().contains(url@));
                assert(tags.spec_urls() =~= tags.spec_urls().remove(url@));
            }
        },
        Some(i) => {
            let mut entry = tags.entries.remove(i);
            proof {
                assert(old_tags.lists()[i as int] == views(entry.1@));
                assert(old_tags.spec_for_url(url@) == views(entry.1@));
            }
            remove_tag(&mut entry.1, t.as_str());
            let ghost left = views(entry.1@);
            if entry.1.len() > 0 {
                tags.entries.insert(i, entry);
                proof {
                    assert(tags.keys() =~= old_tags.keys());
                    assert(tags.lists() =~= old_tags.lists().update(i as int, left));
                    lemma_lookup_index(tags.keys(), i as int);
                    assert(tags.spec_for_url(url@) == left);
                    assert forall|u: Seq<char>| u != url@ implies #[trigger] tags.spec_for_url(u) == old_tags.spec_for_url(u) by {
                        lemma_lookup(tags.keys(), u);
                    }
                }
            } else {
                proof {
                    let ok = old_tags.keys();
                    let nk = tags.keys();
                    assert(nk =~= ok.remove(i as int));
                    assert(tags.lists() =~= old_tags.lists().remove(i as int));
                    assert(nk.no_duplicates()) by {
                        assert forall|a: int, b: int| 0 <= a < nk.len() && 0 <= b < nk.len() && a != b implies nk[a] != nk[b] by {
                            let a2 = if a < i { a } else { a + 1 };
                            let b2 = if b < i { b } else { b + 1 };
                            assert(nk[a] == ok[a2] && nk[b] == ok[b2]);
                        }
                    }
                    assert forall|u: Seq<char>| #[trigger] nk.contains(u) <==> (ok.contains(u) && u != url@) by {
                        if nk.contains(u) {
                            let k = choose|k: int| 0 <= k < nk.len() && nk[k] == u;
                            let k2 = if k < i { k } else { k + 1 };
                            assert(ok[k2] == u);
                            assert(k2 != i);
                        }
                        if ok.contains(u) && u != url@ {
                            let k = choose|k: int| 0 <= k < ok.len() && ok[k] == u;
                            assert(k != i);
                            let k2 = if k < i { k } else { k - 1 };
                            assert(nk[k2] == u);
                        }
                    }
                    assert(tags.spec_urls() =~= old_tags.spec_urls().remove(url@));
                    lemma_lookup(nk, url@);
                    assert(tags.spec_for_url(url@) == Seq::<Seq<char>>::empty());
                    assert forall|u: Seq<char>| u != url@ implies #[trigger] tags.spec_for_url(u) == old_tags.spec_for_url(u) by {
                        lemma_lookup(nk, u);
                        lemma_lookup(ok, u);
                        if ok.contains(u) {
                            let k = choose|k: int| 0 <= k < ok.len() && ok[k] == u;
                            lemma_lookup_index(ok, k);
                            assert(k != i);
                            let k2 = if k < i { k } else { k - 1 };
                            assert(nk[k2] == u);
                            lemma_lookup_index(nk, k2);
                        }
                    }
                    assert forall|x: Seq<char>| #[trigger] tags.spec_for_url(url@).contains(x) <==> (old_tags.spec_for_url(url@).contains(x) && x != t@) by {
                        assert(left.len() == 0);
                        assert(!left.contains(x));
                    }
                }
            }
        },
    }
}

/// The tags of `url`, sorted (empty when it has none).
pub fn for_url<'a>(tags: &'a ItemTags, url: &str) -> (r: &'a [String])
    requires
        tags.wf(),
    ensures
        views(r@) == tags.spec_for_url(url@),
        strictly_sorted(views(r@)),
{
    proof {
        lemma_for_url_sorted(*tags, url@);
        lemma_lookup(tags.keys(), url@);
    }
    match find_entry(tags, url) {
        Some(i) => {
            assert(tags.lists()[i as int] == views(tags.entries@[i as int].1@));
            tags.entries[i].1.as_slice()
        },
        None => {
            let empty: &'a [String] = &[];
            assert(views(empty@) =~= Seq::<Seq<char>>::empty());
            empty
        },
    }
}

proof fn lemma_tagged_upto(tags: ItemTags, tag: Seq<char>, n: int)
    requires
        tags.wf(),
        0 <= n <= tags.entries@.len(),
    ensures
        tags.tagged_upto(tag, n).finite(),
        tags.tagged_upto(tag, n).len() == tags.count_upto(tag, n),
        tags.count_upto(tag, n) <= n,
    decreases n,
{
    if n == 0 {
        assert(tags.tagged_upto(tag, 0) =~= Set::<Seq<char>>::empty());
    } else {
        lemma_tagged_upto(tags, tag, n - 1);
        let prev = tags.tagged_upto(tag, n - 1);
        let cur = tags.tagged_upto(tag, n);
        let key = tags.keys()[n - 1];
        if tags.lists()[n - 1].contains(tag) {
            assert(cur =~= prev.insert(key)) by {
                assert(tags.keys()[n - 1] == key);
            }
            assert(!prev.contains(key)) by {
                if prev.contains(key) {
                    let k = choose|k: int| 0 <= k < n - 1 && tags.keys()[k] == key && #[trigger] tags.lists()[k].contains(tag);
                    assert(tags.keys()[k] == tags.keys()[n - 1]);
                }
            }
        } else {
            assert(cur =~= prev) by {
                assert forall|u: Seq<char>| cur.contains(u) implies prev.contains(u) by {
                    let k = choose|k: int| 0 <= k < n && tags.keys()[k] == u && #[trigger] tags.lists()[k].contains(tag);
                    assert(k != n - 1);
                }
            }
        }
    }
}

/// Number of URLs carrying `tag`.
pub fn count_for(tags: &ItemTags, tag: &str) -> (r: usize)
    requires
        tags.wf(),
    ensures
        r == tags.spec_count_for(tag@),
{
    let mut count: usize = 0;
    let mut i: usize = 0;
    while i < tags.entries.len()
        invariant
            0 <= i <= tags.entries@.len(),
            tags.wf(),
            count == tags.count_upto(tag@, i as int),
            count <= i,
        decreases tags.entries.len() - i,
    {
        proof { lemma_tagged_upto(*tags, tag@, i as int + 1); }
        if contains_tag(&tags.entries[i].1, tag) {
            count += 1;
        }
        i += 1;
    }
    proof {
        let n = tags.entries@.len() as int;
        lemma_tagged_upto(*tags, tag@, n);
        let f = tags.spec_urls().filter(|u: Seq<char>| tags.spec_for_url(u).contains(tag@));
        assert forall|u: Seq<char>| #[trigger] f.contains(u) <==> tags.tagged_upto(tag@, n).contains(u) by {
            lemma_lookup(tags.keys(), u);
            if f.contains(u) {
                let k = choose|k: int| 0 <= k < tags.keys().len() && tags.keys()[k] == u;
                lemma_lookup_index(tags.keys(), k);
                assert(tags.keys()[k] == u && tags.lists()[k].contains(tag@));
            }
            if tags.tagged_upto(tag@, n).contains(u) {
                let k = choose|k: int| 0 <= k < n && tags.keys()[k] == u && #[trigger] tags.lists()[k].contains(tag@);
                lemma_lookup_index(tags.keys(), k);
                assert(tags.keys().contains(u));
            }
        }
        assert(f =~= tags.tagged_upto(tag@, n));
    }
    count
}

/// Every tag in use, sorted, each once.
pub fn all_tags(tags: &ItemTags) -> (r: Vec<String>)
    requires
        tags.wf(),
    ensures
        strictly_sorted(views(r@)),
        forall|x: Seq<char>| #[trigger] views(r@).contains(x) <==> tags.spec_all_tags().contains(x),
{
    let mut out: Vec<String> = Vec::new();
    let mut i: usize = 0;
    while i < tags.entries.len()
        invariant
            0 <= i <= tags.entries@.len(),
            tags.wf(),
            strictly_sorted(views(out@)),
            forall|x: Seq<char>| #[trigger] views(out@).contains(x) <==> tags.in_first(i as int, x),
        decreases tags.entries.len() - i,
    {
        let list = &tags.entries[i].1;
        let ghost cur = tags.lists()[i as int];
        assert(cur == views(list@));
        let mut j: usize = 0;
        while j < list.len()
            invariant
                0 <= j <= list@.len(),
                0 <= i < tags.entries@.len(),
                tags.wf(),
                list == &tags.entries@[i as int].1,
                cur == views(list@),
                strictly_sorted(views(out@)),
                forall|x: Seq<char>| #[trigger] views(out@).contains(x) <==> (tags.in_first(i as int, x) || cur.take(j as int).contains(x)),
            decreases list.len() - j,
        {
            let ghost before = views(out@);
            if !contains_tag(&out, list[j].as_str()) {
                insert_tag_sorted(&mut out, list[j].clone());
            }
            proof {
                let after = views(out@);
                assert forall|x: Seq<char>| #[trigger] after.contains(x) <==> (tags.in_first(i as int, x) || cur.take(j as int + 1).contains(x)) by {
                    assert(after.to_set().contains(x) == after.contains(x));
                    assert(before.to_set().contains(x) == before.contains(x));
                    if cur.take(j as int + 1).contains(x) {
                        let k = choose|k: int| 0 <= k < j + 1 && #[trigger] cur.take(j as int + 1)[k] == x;
                        if k < j {
                            assert(cur.take(j as int)[k] == x);
                        }
                    }
                    if cur.take(j as int).contains(x) {
                        let k = choose|k: int| 0 <= k < j && #[trigger] cur.take(j as int)[k] == x;
                        assert(cur.take(j as int + 1)[k] == x);
                    }
                    if x == cur[j as int] {
                        assert(cur.take(j as int + 1)[j as int] == x);
                    }
                }
            }
            j += 1;
        }
        proof {
            assert(cur.take(j as int) =~= cur);
            assert forall|x: Seq<char>| #[trigger] views(out@).contains(x) <==> tags.in_first(i as int + 1, x) by {
                if tags.in_first(i as int + 1, x) && !cur.contains(x) {
                    let a = choose|a: int| 0 <= a < i + 1 && #[trigger] tags.lists()[a].contains(x);
                    assert(a != i);
                    assert(tags.in_first(i as int, x));
                }
                if tags.in_first(i as int, x) {
                    let a = choose|a: int| 0 <= a < i && #[trigger] tags.lists()[a].contains(x);
                    assert(tags.lists()[a].contains(x));
                }
                if cur.contains(x) {
                    assert(tags.lists()[i as int].contains(x));
                }
            }
        }
        i += 1;
    }
    proof {
        let n = tags.entries@.len() as int;
        assert forall|x: Seq<char>| #[trigger] views(out@).contains(x) <==> tags.spec_all_tags().contains(x) by {
            if tags.in_first(n, x) {
                let a = choose|a: int| 0 <= a < n && #[trigger] tags.lists()[a].contains(x);
                lemma_lookup_index(tags.keys(), a);
                assert(tags.spec_urls().contains(tags.keys()[a]));
                assert(tags.spec_for_url(tags.keys()[a]).contains(x));
            }
            if tags.spec_all_tags().contains(x) {
                let u = choose|u: Seq<char>| tags.spec_urls().contains(u) && #[trigger] tags.spec_for_url(u).contains(x);
                lemma_lookup(tags.keys(), u);
                let a = lookup(tags.keys(), u)->0;
                assert(tags.lists()[a].contains(x));
            }
        }
    }
    out
}

/// Two strictly sorted sequences with the same elements are equal.
proof fn lemma_sorted_unique(a: Seq<Seq<char>>, b: Seq<Seq<char>>)
    requires
        strictly_sorted(a),
        strictly_sorted(b),
        forall|x: Seq<char>| #![trigger a.contains(x)] #![trigger b.contains(x)] a.contains(x) <==> b.contains(x),
    ensures
        a == b,
    decreases a.len() + b.len(),
{
    if a.len() == 0 {
        if b.len() > 0 {
            assert(b.contains(b[0]));
        }
        assert(a =~= b);
    } else if b.len() == 0 {
        assert(a.contains(a[0]));
    } else {
        let la = a.last();
        let lb = b.last();
        assert(a.contains(la));
        assert(b.contains(lb));
        let k = choose|k: int| 0 <= k < b.len() && b[k] == la;
        let m = choose|m: int| 0 <= m < a.len() && a[m] == lb;
        if la != lb {
            lemma_lex_total(la, lb);
            lemma_lex_asymmetric(la, lb);
            if k < b.len() - 1 {
                assert(lex_lt(la, lb));
            }
            if m < a.len() - 1 {
                assert(lex_lt(lb, la));
            }
        }
        let a2 = a.drop_last();
        let b2 = b.drop_last();
        assert forall|x: Seq<char>| #![trigger a2.contains(x)] #![trigger b2.contains(x)] a2.contains(x) <==> b2.contains(x) by {
            if a2.contains(x) {
                let i = choose|i: int| 0 <= i < a2.len() && a2[i] == x;
                assert(a[i] == x);
                assert(lex_lt(x, la));
                lemma_lex_irreflexive(x);
                assert(b.contains(x));
                let j = choose|j: int| 0 <= j < b.len() && b[j] == x;
                assert(j != b.len() - 1);
                assert(b2[j] == x);
            }
            if b2.contains(x) {
                let i = choose|i: int| 0 <= i < b2.len() && b2[i] == x;
                assert(b[i] == x);
                assert(lex_lt(x, lb));
                lemma_lex_irreflexive(x);
                assert(a.contains(x));
                let j = choose|j: int| 0 <= j < a.len() && a[j] == x;
                assert(j != a.len() - 1);
                assert(a2[j] == x);
            }
        }
        assert(strictly_sorted(a2));
        assert(strictly_sorted(b2));
        lemma_sorted_unique(a2, b2);
        assert(a =~= a2.push(la));
        assert(b =~= b2.push(lb));
    }
}

/// A URL has an entry exactly when it carries at least one tag.
pub proof fn law_urls_are_tagged(tags: ItemTags, url: Seq<char>)
    requires
        tags.wf(),
    ensures
        tags.spec_urls().contains(url) <==> tags.spec_for_url(url).len() > 0,
{
    lemma_lookup(tags.keys(), url);
}

/// Adding the same tag twice leaves the tags as adding it once did.
pub proof fn law_add_idempotent(t0: ItemTags, t1: ItemTags, t2: ItemTags, url: Seq<char>, tag: Seq<char>)
    requires
        t0.wf(),
        t1.wf(),
        t2.wf(),
        tag_added(t0, t1, url, tag),
        tag_added(t1, t2, url, tag),
    ensures
        t2.spec_urls() == t1.spec_urls(),
        forall|u: Seq<char>| #[trigger] t2.spec_for_url(u) == t1.spec_for_url(u),
{
    let t = spec_normalize(tag);
    if t.len() > 0 {
        lemma_for_url_sorted(t1, url);
        lemma_for_url_sorted(t2, url);
        assert(t1.spec_for_url(url).contains(t));
        assert forall|x: Seq<char>| #[trigger] t2.spec_for_url(url).contains(x) <==> t1.spec_for_url(url).contains(x) by {}
        lemma_sorted_unique(t2.spec_for_url(url), t1.spec_for_url(url));
        assert(t1.spec_urls().contains(url));
        assert(t2.spec_urls() =~= t1.spec_urls());
        assert forall|u: Seq<char>| #[trigger] t2.spec_for_url(u) == t1.spec_for_url(u) by {
            if u != url {
                assert(t2.spec_for_url(u) == t1.spec_for_url(u));
            }
        }
    }
}

/// Removing a tag that was just added to a URL without it gives back the
/// tags as they were before the addition.
pub proof fn law_remove_undoes_add(t0: ItemTags, t1: ItemTags, t2: ItemTags, url: Seq<char>, tag: Seq<char>)
    requires
        t0.wf(),
        t1.wf(),
        t2.wf(),
        !t0.spec_for_url(url).contains(spec_normalize(tag)),
        tag_added(t0, t1, url, tag),
        tag_removed(t1, t2, url, tag),
    ensures
        t2.spec_urls() == t0.spec_urls(),
        forall|u: Seq<char>| #[trigger] t2.spec_for_url(u) == t0.spec_for_url(u),
{
    let t = spec_normalize(tag);
    lemma_for_url_sorted(t0, url);
    lemma_for_url_sorted(t2, url);
    law_urls_are_tagged(t0, url);
    law_urls_are_tagged(t2, url);
    assert forall|x: Seq<char>| #[trigger] t2.spec_for_url(url).contains(x) <==> t0.spec_for_url(url).contains(x) by {
        if t.len() == 0 {
            assert(t1.spec_for_url(url) == t0.spec_for_url(url));
        }
    }
    lemma_sorted_unique(t2.spec_for_url(url), t0.spec_for_url(url));
    assert forall|u: Seq<char>| #[trigger] t2.spec_for_url(u) == t0.spec_for_url(u) by {
        if u != url {
            assert(t2.spec_for_url(u) == t1.spec_for_url(u));
            assert(t1.spec_for_url(u) == t0.spec_for_url(u));
        }
    }
    if t.len() == 0 {
        assert(t1.spec_for_url(url) == t0.spec_for_url(url));
        assert(t2.spec_urls() =~= t0.spec_urls());
    } else if t0.spec_for_url(url).len() == 0 {
        assert(t2.spec_urls() =~= t0.spec_urls());
    } else {
        assert(t2.spec_urls() =~= t0.spec_urls());
    }
}

// ---------------------------------------------------------------------------
// Toggling a tag on several items
// ---------------------------------------------------------------------------

/// `new` is `old` with the tag `t` put on (`on`) or taken off (`!on`) every
/// URL in `targets`; every other URL keeps its tags.
pub open spec fn tags_toggled(old: ItemTags, new: ItemTags, targets: Set<Seq<char>>, t: Seq<char>, on: bool) -> bool {
    &&& forall|u: Seq<char>| !targets.contains(u) ==> #[trigger] new.spec_for_url(u) == old.spec_for_url(u)
    &&& forall|u: Seq<char>, x: Seq<char>|
        targets.contains(u) ==> (#[trigger] new.spec_for_url(u).contains(x) <==> if on {
            old.spec_for_url(u).contains(x) || x == t
        } else {
            old.spec_for_url(u).contains(x) && x != t
        })
}

/// Some target lacks the tag `t`.
pub open spec fn any_target_lacks(tags: ItemTags, targets: Seq<Seq<char>>, t: Seq<char>) -> bool {
    exists|k: int| 0 <= k < targets.len() && !tags.spec_for_url(#[trigger] targets[k]).contains(t)
}

fn lacks_tag(tags: &ItemTags, url: &str, t: &str) -> (r: bool)
    requires
        tags.wf(),
    ensures
        r == !tags.spec_for_url(url@).contains(t@),
{
    let list = for_url(tags, url);
    let mut i: usize = 0;
    while i < list.len()
        invariant
            0 <= i <= list@.len(),
            views(list@) == tags.spec_for_url(url@),
            forall|k: int| 0 <= k < i ==> list@[k]@ != t@,
        decreases list.len() - i,
    {
        if str_eq(list[i].as_str(), t) {
            assert(views(list@)[i as int] == t@);
            return false;
        }
        i += 1;
    }
    proof {
        if tags.spec_for_url(url@).contains(t@) {
            let k = choose|k: int| 0 <= k < views(list@).len() && views(list@)[k] == t@;
            assert(list@[k]@ == t@);
        }
    }
    true
}

/// Toggle a tag on every target URL: if any target lacks the (normalized)
/// tag, it is added to all of them; otherwise it is taken off all of them.
/// An empty tag changes nothing.
pub fn toggle_tag_on_targets(tags: &mut ItemTags, targets: &Vec<String>, tag: &str)
    requires
        old(tags).wf(),
    ensures
        final(tags).wf(),
        spec_normalize(tag@).len() == 0 ==> forall|u: Seq<char>| #[trigger] final(tags).spec_for_url(u) == old(tags).spec_for_url(u),
        spec_normalize(tag@).len() > 0 ==> tags_toggled(
            *old(tags),
            *final(tags),
            views(targets@).to_set(),
            spec_normalize(tag@),
            any_target_lacks(*old(tags), views(targets@), spec_normalize(tag@)),
        ),
{
    let t = normalize(tag);
    if t.as_str().unicode_len() == 0 {
        return;
    }
    let ghost old_tags = *tags;
    let ghost names = views(targets@);
    let mut any_missing = false;
    let mut i: usize = 0;
    while i < targets.len()
        invariant
            0 <= i <= targets@.len(),
            tags.wf(),
            names == views(targets@),
            t@ == spec_normalize(tag@),
            any_missing == exists|k: int| 0 <= k < i && !tags.spec_for_url(#[trigger] names[k]).contains(t@),
        decreases targets.len() - i,
    {
        if lacks_tag(tags, targets[i].as_str(), t.as_str()) {
            assert(names[i as int] == targets@[i as int]@);
            any_missing = true;
        }
        i += 1;
    }
    let mut j: usize = 0;
    assert(names.take(0).to_set() =~= Set::<Seq<char>>::empty());
    while j < targets.len()
        invariant
            0 <= j <= targets@.len(),
            tags.wf(),
            names == views(targets@),
            t@ == spec_normalize(tag@),
            t@.len() > 0,
            any_missing == any_target_lacks(old_tags, names, t@),
            tags_toggled(old_tags, *tags, names.take(j as int).to_set(), t@, any_missing),
        decreases targets.len() - j,
    {
        let ghost cur = *tags;
        let ghost u = names[j as int];
        assert(targets@[j as int]@ == u);
        if any_missing {
            self::add(tags, targets[j].as_str(), crate::strs::to_owned_string(tag));
        } else {
            remove(tags, targets[j].as_str(), tag);
        }
        proof {
            assert(names.take(j + 1) =~= names.take(j as int).push(u));
            let before = names.take(j as int).to_set();
            let after = names.take(j + 1).to_set();
            assert forall|x: Seq<char>| after.contains(x) <==> before.insert(u).contains(x) by {
                if names.take(j + 1).contains(x) {
                    let k = choose|k: int| 0 <= k < j + 1 && #[trigger] names.take(j + 1)[k] == x;
                    if k < j {
                        assert(names.take(j as int)[k] == x);
                    }
                }
                if names.take(j as int).contains(x) {
                    let k = choose|k: int| 0 <= k < j && #[trigger] names.take(j as int)[k] == x;
                    assert(names.take(j + 1)[k] == x);
                }
                if x == u {
                    assert(names.take(j + 1)[j as int] == x);
                }
            }
            assert(after =~= before.insert(u));
        }
        j += 1;
    }
    proof {
        assert(names.take(targets@.len() as int) =~= names);
        assert(any_missing == any_target_lacks(old_tags, names, t@));
    }
}

/// After a toggle with a non-empty tag, either every target carries the tag
/// or none does.
pub proof fn law_toggle_all_or_none(old: ItemTags, new: ItemTags, targets: Seq<Seq<char>>, t: Seq<char>, on: bool)
    requires
        tags_toggled(old, new, targets.to_set(), t, on),
    ensures
        on ==> forall|k: int| 0 <= k < targets.len() ==> new.spec_for_url(#[trigger] targets[k]).contains(t),
        !on ==> forall|k: int| 0 <= k < targets.len() ==> !new.spec_for_url(#[trigger] targets[k]).contains(t),
{
    assert forall|k: int| 0 <= k < targets.len() implies #[trigger] targets.to_set().contains(targets[k]) by {
        assert(targets.contains(targets[k]));
    }
}

/// Toggling twice on targets that all carried the tag, or none of which
/// did, gives back the tags they had.
pub proof fn law_toggle_twice_restores(
    t0: ItemTags,
    t1: ItemTags,
    t2: ItemTags,
    targets: Seq<Seq<char>>,
    t: Seq<char>,
)
    requires
        t0.wf(),
        t1.wf(),
        t2.wf(),
        targets.len() > 0,
        (forall|k: int| 0 <= k < targets.len() ==> t0.spec_for_url(#[trigger] targets[k]).contains(t)) || (forall|k: int|
            0 <= k < targets.len() ==> !t0.spec_for_url(#[trigger] targets[k]).contains(t)),
        tags_toggled(t0, t1, targets.to_set(), t, any_target_lacks(t0, targets, t)),
        tags_toggled(t1, t2, targets.to_set(), t, any_target_lacks(t1, targets, t)),
    ensures
        forall|u: Seq<char>| #[trigger] t2.spec_for_url(u) == t0.spec_for_url(u),
{
    let set = targets.to_set();
    assert(set.contains(targets[0]));
    let on1 = any_target_lacks(t0, targets, t);
    if on1 {
        assert(!t0.spec_for_url(targets[0]).contains(t));
    }
    assert(t1.spec_for_url(targets[0]).contains(t) == on1);
    let on2 = any_target_lacks(t1, targets, t);
    if on1 {
        assert forall|k: int| 0 <= k < targets.len() implies t1.spec_for_url(#[trigger] targets[k]).contains(t) by {
            assert(set.contains(targets[k]));
        }
        assert(!on2);
    } else {
        assert(!t1.spec_for_url(targets[0]).contains(t));
        assert(on2);
    }
    assert forall|u: Seq<char>| #[trigger] t2.spec_for_url(u) == t0.spec_for_url(u) by {
        if set.contains(u) {
            let k = choose|k: int| 0 <= k < targets.len() && targets[k] == u;
            assert(targets[k] == u);
            lemma_for_url_sorted(t0, u);
            lemma_for_url_sorted(t2, u);
            assert forall|x: Seq<char>| #[trigger] t2.spec_for_url(u).contains(x) <==> t0.spec_for_url(u).contains(x) by {
                assert(t2.spec_for_url(u).contains(x) <==> if on2 {
                    t1.spec_for_url(u).contains(x) || x == t
                } else {
                    t1.spec_for_url(u).contains(x) && x != t
                });
                assert(t1.spec_for_url(u).contains(x) <==> if on1 {
                    t0.spec_for_url(u).contains(x) || x == t
                } else {
                    t0.spec_for_url(u).contains(x) && x != t
                });
            }
            lemma_sorted_unique(t2.spec_for_url(u), t0.spec_for_url(u));
        }
    }
}

/// Normalizing an ASCII tag twice gives what normalizing it once gave.
pub proof fn law_normalize_idempotent(tag: Seq<char>)
    requires
        is_ascii(tag),
    ensures
        spec_normalize(spec_normalize(tag)) == spec_normalize(tag),
{
    let u = trim(tag);
    lemma_trim_facts(tag);
    let l = u.map_values(|c: char| ascii_lower(c));
    assert(spec_normalize(tag) == l);
    assert forall|i: int| 0 <= i < l.len() implies (#[trigger] l[i]) as u32 <= 0x7f && is_ws(l[i]) == is_ws(u[i])
        && ascii_lower(l[i]) == l[i] by {
        lemma_ascii_case(u[i]);
    }
    if l.len() > 0 {
        assert(l.last() == l[l.len() - 1]);
    }
    lemma_trim_noop(l);
    assert(trim(l) == l);
    assert(lowercase(l) =~= l);
}

/// Keeps every tag but `t`.
pub open spec fn not_tag(t: Seq<char>) -> spec_fn(Seq<char>) -> bool {
    |x: Seq<char>| x != t
}

proof fn lemma_filter_sorted(a: Seq<Seq<char>>, t: Seq<char>)
    requires
        strictly_sorted(a),
    ensures
        strictly_sorted(a.filter(not_tag(t))),
        forall|x: Seq<char>| #[trigger] a.filter(not_tag(t)).contains(x) <==> (a.contains(x) && x != t),
    decreases a.len(),
{
    let p = not_tag(t);
    reveal(Seq::filter);
    if a.len() > 0 {
        let b = a.drop_last();
        assert(strictly_sorted(b)) by {
            assert forall|i: int, j: int| 0 <= i < j < b.len() implies lex_lt(#[trigger] b[i], #[trigger] b[j]) by {
                assert(b[i] == a[i] && b[j] == a[j]);
            }
        }
        lemma_filter_sorted(b, t);
        let fb = b.filter(p);
        let fa = a.filter(p);
        assert(fa == if p(a.last()) { fb.push(a.last()) } else { fb });
        if p(a.last()) {
            assert forall|i: int, j: int| 0 <= i < j < fa.len() implies lex_lt(#[trigger] fa[i], #[trigger] fa[j]) by {
                if j == fa.len() - 1 {
                    assert(fb.contains(fb[i]));
                    assert(b.contains(fa[i]));
                    let k = choose|k: int| 0 <= k < b.len() && b[k] == fa[i];
                    assert(a[k] == fa[i]);
                } else {
                    assert(fa[i] == fb[i] && fa[j] == fb[j]);
                }
            }
        }
        assert forall|x: Seq<char>| #[trigger] fa.contains(x) <==> (a.contains(x) && x != t) by {
            if fa.contains(x) {
                let k = choose|k: int| 0 <= k < fa.len() && fa[k] == x;
                if p(a.last()) && k == fa.len() - 1 {
                    assert(a[a.len() - 1] == x);
                } else {
                    assert(fb[k] == x);
                    assert(fb.contains(x));
                    let m = choose|m: int| 0 <= m < b.len() && b[m] == x;
                    assert(a[m] == x);
                }
            }
            if a.contains(x) && x != t {
                let k = choose|k: int| 0 <= k < a.len() && a[k] == x;
                if k == a.len() - 1 {
                    assert(fa[fa.len() - 1] == x);
                } else {
                    assert(b[k] == x);
                    assert(fb.contains(x));
                    let m = choose|m: int| 0 <= m < fb.len() && fb[m] == x;
                    assert(fa[m] == x);
                }
            }
        }
    } else {
        assert(a.filter(p) =~= a);
    }
}

/// Adding a tag leaves the URL's list as the sorted union of its old tags
/// and the normalized tag: the one strictly increasing list with exactly
/// those tags.
pub proof fn law_add_is_sorted_union(t0: ItemTags, t1: ItemTags, url: Seq<char>, tag: Seq<char>, s: Seq<Seq<char>>)
    requires
        t0.wf(),
        t1.wf(),
        tag_added(t0, t1, url, tag),
        spec_normalize(tag).len() > 0,
        strictly_sorted(s),
        forall|x: Seq<char>| #[trigger] s.contains(x) <==> (t0.spec_for_url(url).contains(x) || x == spec_normalize(tag)),
    ensures
        t1.spec_for_url(url) == s,
{
    lemma_for_url_sorted(t1, url);
    lemma_sorted_unique(t1.spec_for_url(url), s);
}

/// Removing a tag leaves the URL's other tags in their order.
pub proof fn law_remove_keeps_order(t0: ItemTags, t1: ItemTags, url: Seq<char>, tag: Seq<char>)
    requires
        t0.wf(),
        t1.wf(),
        tag_removed(t0, t1, url, tag),
    ensures
        t1.spec_for_url(url) == t0.spec_for_url(url).filter(not_tag(spec_normalize(tag))),
{
    let t = spec_normalize(tag);
    lemma_for_url_sorted(t0, url);
    lemma_for_url_sorted(t1, url);
    let a = t0.spec_for_url(url);
    lemma_filter_sorted(a, t);
    let f = a.filter(not_tag(t));
    assert forall|x: Seq<char>| t1.spec_for_url(url).contains(x) <==> f.contains(x) by {}
    lemma_sorted_unique(t1.spec_for_url(url), f);
}

} // verus!
