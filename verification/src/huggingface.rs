//! Hugging Face daily papers: the page read into items, abstracts from the
//! arXiv API, and repository links.
use vstd::prelude::*;

use crate::models::{
    detect_subtopics, owned_strings, spec_signal, spec_subtopics, views, ContentType, FeedItem, SignalLevel,
    SourcePlatform, WorkflowState,
};
use crate::strs::{
    all_digits, chars_of, contains_seq, find, find_at, find_char_at, find_char_from, find_from, is_ascii_digit,
    is_digit, lemma_find_char_from_facts, lemma_find_from_facts, lemma_rfind_char_facts, occurs_at, push_str,
    rfind_char, rfind_char_in, starts_with, str_eq, string_of, sub_vec, to_owned_string, trim, trim_vec,
};
use crate::text::{collapse_whitespace, collapsed, truncate_chars, truncated};
use crate::tags::contains_tag;
use crate::xml::{is_last_event, lemma_stop_index, name_text, raw_name, read_all_events, stop_index, take_string, xml_events, XmlEvent};

verus! {

broadcast use vstd::string::group_string_axioms;

// ---------------------------------------------------------------------------
// arXiv identifiers
// ---------------------------------------------------------------------------

/// What follows the last `/` (the whole text when there is none).
pub open spec fn last_segment(url: Seq<char>) -> Seq<char> {
    match rfind_char(url, '/') {
        Some(p) => url.subrange(p + 1, url.len() as int),
        None => url,
    }
}

/// The bare arXiv id at the end of a URL like
/// `http://arxiv.org/abs/2403.00001v2`: the last path segment without a
/// trailing `v` and digits; none when that leaves nothing.
pub open spec fn spec_extract_arxiv_id(url: Seq<char>) -> Option<Seq<char>> {
    let last = last_segment(url);
    let id = match rfind_char(last, 'v') {
        Some(p) => if all_digits(last.subrange(p + 1, last.len() as int)) {
            last.subrange(0, p)
        } else {
            last
        },
        None => last,
    };
    if id.len() == 0 {
        None
    } else {
        Some(id)
    }
}

fn ascii_digits_only(v: &[char]) -> (r: bool)
    ensures
        r == all_digits(v@),
{
    let mut i: usize = 0;
    while i < v.len()
        invariant
            0 <= i <= v@.len(),
            forall|k: int| 0 <= k < i ==> is_digit(#[trigger] v@[k]),
        decreases v.len() - i,
    {
        if !is_ascii_digit(v[i]) {
            assert(!is_digit(v@[i as int]));
            return false;
        }
        i += 1;
    }
    true
}

pub fn extract_arxiv_id(url: &str) -> (r: Option<String>)
    ensures
        match r {
            Some(s) => spec_extract_arxiv_id(url@) == Some(s@),
            None => spec_extract_arxiv_id(url@) is None,
        },
{
    let v = chars_of(url);
    let n0 = v.len();
    proof { lemma_rfind_char_facts(v@, '/'); }
    let last = match rfind_char_in(&v, '/') {
        Some(p) => {
            assert(rfind_char(v@, '/') == Some(p as int));
            sub_vec(&v, p + 1, v.len())
        },
        None => v,
    };
    let n = last.len();
    proof { lemma_rfind_char_facts(last@, 'v'); }
    let id = match rfind_char_in(&last, 'v') {
        Some(p) => {
            assert(rfind_char(last@, 'v') == Some(p as int));
            let tail = sub_vec(&last, p + 1, last.len());
            if ascii_digits_only(&tail) {
                sub_vec(&last, 0, p)
            } else {
                last
            }
        },
        None => last,
    };
    if id.len() == 0 {
        None
    } else {
        Some(string_of(&id))
    }
}

// ---------------------------------------------------------------------------
// Abstracts from an arXiv answer
// ---------------------------------------------------------------------------

/// What the abstract scanner has gathered so far.
pub ghost struct AbstractScan {
    pub in_entry: bool,
    pub tag: Seq<char>,
    pub id: Seq<char>,
    pub summary: Seq<char>,
}

/// The abstract kept for an entry: whitespace collapsed, cut to 300
/// characters.
pub open spec fn short_abstract(summary: Seq<char>) -> Seq<char> {
    truncated(collapsed(trim(summary)), 300)
}

/// One event: the new scan, and the (id, abstract) pair it finishes.
pub open spec fn abstract_step(s: AbstractScan, e: XmlEvent) -> (AbstractScan, Option<(Seq<char>, Seq<char>)>) {
    match e {
        XmlEvent::Start(raw) => {
            let tag = name_text(raw@);
            if tag == "entry"@ {
                (AbstractScan { in_entry: true, tag: tag, id: Seq::empty(), summary: Seq::empty() }, None)
            } else {
                (AbstractScan { tag: tag, ..s }, None)
            }
        },
        XmlEvent::Text(t) => {
            let text = match t {
                Some(x) => x@,
                None => Seq::empty(),
            };
            if !s.in_entry {
                (s, None)
            } else if s.tag == "id"@ {
                (AbstractScan { id: s.id + text, ..s }, None)
            } else if s.tag == "summary"@ {
                (AbstractScan { summary: s.summary + text, ..s }, None)
            } else {
                (s, None)
            }
        },
        XmlEvent::End(raw) => {
            if s.in_entry && name_text(raw@) == "entry"@ {
                let s2 = AbstractScan { in_entry: false, ..s };
                match spec_extract_arxiv_id(s.id) {
                    Some(id) => (s2, Some((id, short_abstract(s.summary)))),
                    None => (s2, None),
                }
            } else {
                (s, None)
            }
        },
        _ => (s, None),
    }
}

pub open spec fn abstract_scan(events: Seq<XmlEvent>, n: int) -> (AbstractScan, Seq<(Seq<char>, Seq<char>)>)
    decreases n,
{
    if n <= 0 {
        (AbstractScan { in_entry: false, tag: Seq::empty(), id: Seq::empty(), summary: Seq::empty() }, Seq::empty())
    } else {
        let (s, out) = abstract_scan(events, n - 1);
        let (s2, o) = abstract_step(s, events[n - 1]);
        (
            s2,
            match o {
                Some(p) => out.push(p),
                None => out,
            },
        )
    }
}

/// The map that the pairs build when each replaces what an earlier one
/// put under the same id.
pub open spec fn pairs_map(pairs: Seq<(Seq<char>, Seq<char>)>) -> Map<Seq<char>, Seq<char>>
    decreases pairs.len(),
{
    if pairs.len() == 0 {
        Map::empty()
    } else {
        pairs_map(pairs.drop_last()).insert(pairs.last().0, pairs.last().1)
    }
}

/// arXiv id → abstract for every entry up to the end of the document or the
/// first parse error (reading simply stops there).
pub open spec fn spec_abstracts(events: Seq<XmlEvent>) -> Map<Seq<char>, Seq<char>> {
    pairs_map(abstract_scan(events, stop_index(events, 0)).1)
}

/// An association list keyed by text, each key once.
pub struct TextMap {
    entries: Vec<(String, String)>,
}

impl TextMap {
    pub closed spec fn keys(self) -> Seq<Seq<char>> {
        Seq::new(self.entries@.len(), |i: int| self.entries@[i].0@)
    }

    pub closed spec fn wf(self) -> bool {
        self.keys().no_duplicates()
    }

    /// The map the list stands for.
    pub closed spec fn spec_map(self) -> Map<Seq<char>, Seq<char>> {
        Map::new(
            |k: Seq<char>| self.keys().contains(k),
            |k: Seq<char>| self.entries@[self.keys().index_of(k)].1@,
        )
    }

    pub fn new() -> (r: TextMap)
        ensures
            r.wf(),
            r.spec_map() == Map::<Seq<char>, Seq<char>>::empty(),
    {
        let r = TextMap { entries: Vec::new() };
        assert(r.spec_map() =~= Map::<Seq<char>, Seq<char>>::empty());
        r
    }

    fn position(&self, key: &str) -> (r: Option<usize>)
        requires
            self.wf(),
        ensures
            match r {
                Some(i) => i < self.entries@.len() && self.keys()[i as int] == key@,
                None => !self.keys().contains(key@),
            },
    {
        let mut i: usize = 0;
        while i < self.entries.len()
            invariant
                0 <= i <= self.entries@.len(),
                forall|k: int| 0 <= k < i ==> self.keys()[k] != key@,
            decreases self.entries.len() - i,
        {
            if str_eq(self.entries[i].0.as_str(), key) {
                return Some(i);
            }
            i += 1;
        }
        None
    }

    /// The text under `key`, if any.
    pub fn get(&self, key: &str) -> (r: Option<&String>)
        requires
            self.wf(),
        ensures
            match r {
                Some(v) => self.spec_map().contains_key(key@) && self.spec_map()[key@] == v@,
                None => !self.spec_map().contains_key(key@),
            },
    {
        match self.position(key) {
            Some(i) => {
                proof {
                    assert(self.keys().contains(key@));
                    assert(self.keys().index_of(key@) == i) by {
                        let j = self.keys().index_of(key@);
                        assert(self.keys()[j] == key@);
                    }
                }
                Some(&self.entries[i].1)
            },
            None => None,
        }
    }

    /// Put `value` under `key`, replacing what was there.
    pub fn insert(&mut self, key: String, value: String)
        requires
            old(self).wf(),
        ensures
            final(self).wf(),
            final(self).spec_map() == old(self).spec_map().insert(key@, value@),
    {
        let ghost old_map = self.spec_map();
        let ghost kv = key@;
        let ghost vv = value@;
        match self.position(key.as_str()) {
            Some(i) => {
                let ghost old_keys = self.keys();
                self.entries.set(i, (key, value));
                proof {
                    assert(self.keys() =~= old_keys);
                    assert forall|k: Seq<char>| self.keys().contains(k) implies #[trigger] self.spec_map()[k] == old_map.insert(kv, vv)[k] by {
                        let j = self.keys().index_of(k);
                        if k == kv {
                            assert(self.keys()[i as int] == kv);
                        } else {
                            assert(j != i);
                        }
                    }
                    assert(self.spec_map() =~= old_map.insert(kv, vv));
                }
            },
            None => {
                let ghost old_keys = self.keys();
                self.entries.push((key, value));
                proof {
                    assert(self.keys() =~= old_keys.push(kv));
                    assert(self.keys().no_duplicates()) by {
                        assert forall|a: int, b: int| 0 <= a < self.keys().len() && 0 <= b < self.keys().len() && a != b implies self.keys()[a] != self.keys()[b] by {
                            if a == old_keys.len() {
                                assert(old_keys.contains(old_keys[b]));
                            } else if b == old_keys.len() {
                                assert(old_keys.contains(old_keys[a]));
                            }
                        }
                    }
                    assert forall|k: Seq<char>| #[trigger] self.keys().contains(k) <==> (old_keys.contains(k) || k == kv) by {
                        if self.keys().contains(k) && k != kv {
                            let j = choose|j: int| 0 <= j < self.keys().len() && self.keys()[j] == k;
                            assert(old_keys[j] == k);
                        }
                        if old_keys.contains(k) {
                            let j = choose|j: int| 0 <= j < old_keys.len() && old_keys[j] == k;
                            assert(self.keys()[j] == k);
                        }
                        if k == kv {
                            assert(self.keys()[old_keys.len() as int] == kv);
                        }
                    }
                    assert forall|k: Seq<char>| self.keys().contains(k) implies #[trigger] self.spec_map()[k] == old_map.insert(kv, vv)[k] by {
                        let j = self.keys().index_of(k);
                        if k == kv {
                            assert(self.keys()[old_keys.len() as int] == kv);
                        } else {
                            assert(old_keys.contains(k));
                            let j0 = old_keys.index_of(k);
                            assert(self.keys()[j0] == k);
                        }
                    }
                    assert(self.spec_map() =~= old_map.insert(kv, vv));
                }
            },
        }
    }
}

fn abstract_take_event(
    in_entry: &mut bool,
    tag: &mut String,
    id: &mut String,
    summary: &mut String,
    e: &XmlEvent,
) -> (o: Option<(String, String)>)
    ensures
        ({
            let s0 = AbstractScan { in_entry: *old(in_entry), tag: old(tag)@, id: old(id)@, summary: old(summary)@ };
            let s1 = AbstractScan { in_entry: *final(in_entry), tag: final(tag)@, id: final(id)@, summary: final(summary)@ };
            &&& s1 == abstract_step(s0, *e).0
            &&& match o {
                Some(p) => abstract_step(s0, *e).1 == Some((p.0@, p.1@)),
                None => abstract_step(s0, *e).1 is None,
            }
        }),
{
    match e {
        XmlEvent::Start(raw) => {
            let t = raw_name(raw);
            if str_eq(t.as_str(), "entry") {
                *in_entry = true;
                *id = String::new();
                *summary = String::new();
            }
            *tag = t;
            None
        },
        XmlEvent::Text(t) => {
            if *in_entry {
                let text: &str = match t {
                    Some(x) => x.as_str(),
                    None => {
                        proof { reveal_strlit(""); }
                        ""
                    },
                };
                if str_eq(tag.as_str(), "id") {
                    id.append(text);
                } else if str_eq(tag.as_str(), "summary") {
                    summary.append(text);
                }
            }
            None
        },
        XmlEvent::End(raw) => {
            let t = raw_name(raw);
            if *in_entry && str_eq(t.as_str(), "entry") {
                *in_entry = false;
                match extract_arxiv_id(id.as_str()) {
                    Some(aid) => {
                        let clean = collapse_whitespace(crate::strs::str_trim(summary.as_str()));
                        let short = truncate_chars(clean.as_str(), 300);
                        return Some((aid, short));
                    },
                    None => {
                        return None;
                    },
                }
            }
            None
        },
        _ => None,
    }
}

/// arXiv id → short abstract from the events of an arXiv answer.
pub fn abstracts_from_events(events: &Vec<XmlEvent>) -> (r: TextMap)
    ensures
        r.wf(),
        r.spec_map() == spec_abstracts(events@),
{
    let mut map = TextMap::new();
    let mut in_entry = false;
    let mut tag = String::new();
    let mut id = String::new();
    let mut summary = String::new();
    let ghost mut pairs: Seq<(Seq<char>, Seq<char>)> = Seq::empty();
    let mut i: usize = 0;
    proof { lemma_stop_index(events@, 0); }
    while i < events.len()
        invariant
            0 <= i <= events@.len(),
            i <= stop_index(events@, 0) <= events@.len(),
            forall|k: int| 0 <= k < stop_index(events@, 0) ==> !is_last_event(#[trigger] events@[k]),
            stop_index(events@, 0) < events@.len() ==> is_last_event(events@[stop_index(events@, 0)]),
            (AbstractScan { in_entry: in_entry, tag: tag@, id: id@, summary: summary@ }, pairs) == abstract_scan(
                events@,
                i as int,
            ),
            map.wf(),
            map.spec_map() == pairs_map(pairs),
        ensures
            i == stop_index(events@, 0),
            (AbstractScan { in_entry: in_entry, tag: tag@, id: id@, summary: summary@ }, pairs) == abstract_scan(
                events@,
                i as int,
            ),
            map.wf(),
            map.spec_map() == pairs_map(pairs),
        decreases events.len() - i,
    {
        let last = match &events[i] {
            XmlEvent::Eof => true,
            XmlEvent::Error(_) => true,
            _ => false,
        };
        if last {
            assert(stop_index(events@, 0) == i);
            break;
        }
        let o = abstract_take_event(&mut in_entry, &mut tag, &mut id, &mut summary, &events[i]);
        match o {
            Some(p) => {
                let ghost before = pairs;
                let ghost pv = (p.0@, p.1@);
                map.insert(p.0, p.1);
                proof {
                    pairs = before.push(pv);
                    assert(pairs.drop_last() =~= before);
                }
            },
            None => {},
        }
        i += 1;
    }
    map
}

/// Parse an arXiv Atom answer into arXiv id → short abstract.
pub fn parse_abstracts(xml: &str) -> (r: TextMap)
    ensures
        r.wf(),
        r.spec_map() == spec_abstracts(xml_events(xml@, true)),
{
    let events = read_all_events(xml);
    abstracts_from_events(&events)
}

/// Fill in `summary_short` of each item whose id has an abstract.
pub fn apply_abstracts(items: &mut Vec<FeedItem>, abstracts: &TextMap)
    requires
        abstracts.wf(),
    ensures
        final(items)@.len() == old(items)@.len(),
        forall|i: int|
            0 <= i < final(items)@.len() ==> {
                let it = #[trigger] final(items)@[i];
                let o = old(items)@[i];
                &&& it.summary_short@ == (if abstracts.spec_map().contains_key(o.id@) {
                    abstracts.spec_map()[o.id@]
                } else {
                    o.summary_short@
                })
                &&& it.id == o.id
                &&& it.title == o.title
                &&& it.url == o.url
                &&& it.authors == o.authors
                &&& it.upvote_count == o.upvote_count
                &&& it.domain_tags == o.domain_tags
                &&& it.published_at == o.published_at
            },
{
    let ghost old_items = items@;
    let mut i: usize = 0;
    while i < items.len()
        invariant
            0 <= i <= items@.len(),
            items@.len() == old_items.len(),
            abstracts.wf(),
            forall|k: int|
                i <= k < items@.len() ==> #[trigger] items@[k] == old_items[k],
            forall|k: int|
                0 <= k < i ==> {
                    let it = #[trigger] items@[k];
                    let o = old_items[k];
                    &&& it.summary_short@ == (if abstracts.spec_map().contains_key(o.id@) {
                        abstracts.spec_map()[o.id@]
                    } else {
                        o.summary_short@
                    })
                    &&& it.id == o.id
                    &&& it.title == o.title
                    &&& it.url == o.url
                    &&& it.authors == o.authors
                    &&& it.upvote_count == o.upvote_count
                    &&& it.domain_tags == o.domain_tags
                    &&& it.published_at == o.published_at
                },
        decreases items.len() - i,
    {
        let found = match abstracts.get(items[i].id.as_str()) {
            Some(text) => Some(text.clone()),
            None => None,
        };
        match found {
            Some(text) => {
                let mut it = items.remove(i);
                it.summary_short = text;
                items.insert(i, it);
            },
            None => {},
        }
        i += 1;
    }
}

// ---------------------------------------------------------------------------
// The daily papers page: titles
// ---------------------------------------------------------------------------

/// `NNNN.NNNN…` with an optional `v` and version digits: four digits, a dot,
/// at least four digits.
pub open spec fn spec_is_arxiv_id(s: Seq<char>) -> bool {
    let s2 = match find_char_from(s, 'v', 0) {
        Some(p) => if all_digits(s.subrange(p + 1, s.len() as int)) {
            s.subrange(0, p)
        } else {
            s
        },
        None => s,
    };
    match find_char_from(s2, '.', 0) {
        None => false,
        Some(d) => {
            &&& d == 4
            &&& s2.len() - d - 1 >= 4
            &&& all_digits(s2.subrange(0, d))
            &&& all_digits(s2.subrange(d + 1, s2.len() as int))
        },
    }
}

pub fn is_arxiv_id(s: &[char]) -> (r: bool)
    ensures
        r == spec_is_arxiv_id(s@),
{
    let n = s.len();
    proof { lemma_find_char_from_facts(s@, 'v', 0); }
    let s2 = match find_char_at(s, 'v', 0) {
        Some(p) => {
            assert(find_char_from(s@, 'v', 0) == Some(p as int));
            let version = sub_vec(s, p + 1, s.len());
            if ascii_digits_only(&version) {
                sub_vec(s, 0, p)
            } else {
                sub_vec(s, 0, s.len())
            }
        },
        None => sub_vec(s, 0, s.len()),
    };
    assert(s@.subrange(0, s@.len() as int) =~= s@);
    let n2 = s2.len();
    proof { lemma_find_char_from_facts(s2@, '.', 0); }
    match find_char_at(&s2, '.', 0) {
        None => false,
        Some(d) => {
            assert(find_char_from(s2@, '.', 0) == Some(d as int));
            if d != 4 || s2.len() - d - 1 < 4 {
                return false;
            }
            let before = sub_vec(&s2, 0, d);
            let after = sub_vec(&s2, d + 1, s2.len());
            ascii_digits_only(&before) && ascii_digits_only(&after)
        },
    }
}

/// The (id, title) that one `<h3>…</h3>` block gives: the id after
/// `href="/papers/` up to the next `"`, when it is an arXiv id, and the
/// block's text without tags, trimmed, when that is not empty.
pub open spec fn h3_paper(block: Seq<char>) -> Option<(Seq<char>, Seq<char>)> {
    match find_from(block, "href=\"/papers/"@, 0) {
        None => None,
        Some(hp) => {
            let id_raw = block.subrange(hp + 14, block.len() as int);
            let id_end = match find_char_from(id_raw, '"', 0) {
                Some(q) => q,
                None => id_raw.len() as int,
            };
            let pid = id_raw.subrange(0, id_end);
            if !spec_is_arxiv_id(pid) {
                None
            } else {
                let title = trim(crate::text::strip_tags_scan(block).1);
                if title.len() == 0 {
                    None
                } else {
                    Some((pid, title))
                }
            }
        },
    }
}

/// The papers of every `<h3>` block from `pos` on, in order.
pub open spec fn h3_papers_from(h: Seq<char>, pos: int) -> Seq<(Seq<char>, Seq<char>)>
    decreases h.len() - pos,
{
    if pos < 0 || pos > h.len() {
        Seq::empty()
    } else {
        match find_from(h, "<h3"@, pos) {
            None => Seq::empty(),
            Some(start) => match find_from(h, "</h3>"@, start) {
                None => Seq::empty(),
                Some(e) => {
                    let end = e + 5;
                    if end <= pos || end > h.len() {
                        Seq::empty()
                    } else {
                        let rest = h3_papers_from(h, end);
                        match h3_paper(h.subrange(start, end)) {
                            Some(p) => seq![p] + rest,
                            None => rest,
                        }
                    }
                },
            },
        }
    }
}

fn h3_paper_exec(block: &Vec<char>) -> (r: Option<(String, String)>)
    ensures
        match r {
            Some(p) => h3_paper(block@) == Some((p.0@, p.1@)),
            None => h3_paper(block@) is None,
        },
{
    let needle = chars_of("href=\"/papers/");
    proof {
        reveal_strlit("href=\"/papers/");
        lemma_find_from_facts(block@, needle@, 0);
    }
    let bl = block.len();
    assert(needle@.len() == 14);
    let hp = match find_at(block, &needle, 0) {
        Some(h) => h,
        None => {
            return None;
        },
    };
    assert(find_from(block@, needle@, 0) == Some(hp as int));
    let id_raw = sub_vec(block, hp + 14, block.len());
    proof { lemma_find_char_from_facts(id_raw@, '"', 0); }
    let id_end = match find_char_at(&id_raw, '"', 0) {
        Some(q) => {
            assert(find_char_from(id_raw@, '"', 0) == Some(q as int));
            q
        },
        None => id_raw.len(),
    };
    let pid = sub_vec(&id_raw, 0, id_end);
    if !is_arxiv_id(&pid) {
        return None;
    }
    let stripped = crate::text::strip_tags(string_of(block).as_str());
    let title = crate::strs::trimmed_string(stripped.as_str());
    if title.as_str().unicode_len() == 0 {
        return None;
    }
    Some((string_of(&pid), title))
}

/// (arXiv id, title) pairs from `<h3><a href="/papers/{id}">TITLE</a></h3>`.
pub fn extract_h3_papers(html: &str) -> (r: Vec<(String, String)>)
    ensures
        r@.map_values(|p: (String, String)| (p.0@, p.1@)) == h3_papers_from(html@, 0),
{
    let h = chars_of(html);
    let open = chars_of("<h3");
    let close = chars_of("</h3>");
    proof {
        reveal_strlit("<h3");
        reveal_strlit("</h3>");
    }
    let ghost target = h3_papers_from(h@, 0);
    assert(close@.len() == 5);
    let mut out: Vec<(String, String)> = Vec::new();
    let mut pos: usize = 0;
    while pos <= h.len()
        invariant
            0 <= pos,
            open@ == "<h3"@,
            close@ == "</h3>"@,
            close@.len() == 5,
            target == h3_papers_from(h@, 0),
            out@.map_values(|p: (String, String)| (p.0@, p.1@)) + h3_papers_from(h@, pos as int) == target,
        ensures
            out@.map_values(|p: (String, String)| (p.0@, p.1@)) == target,
        decreases h.len() + 1 - pos,
    {
        proof { lemma_find_from_facts(h@, open@, pos as int); }
        let start = match find_at(&h, &open, pos) {
            Some(st) => st,
            None => {
                assert(h3_papers_from(h@, pos as int) =~= Seq::empty());
                assert(out@.map_values(|p: (String, String)| (p.0@, p.1@)) + h3_papers_from(h@, pos as int)
                    =~= out@.map_values(|p: (String, String)| (p.0@, p.1@)));
                break;
            },
        };
        assert(find_from(h@, open@, pos as int) == Some(start as int));
        proof { lemma_find_from_facts(h@, close@, start as int); }
        let e = match find_at(&h, &close, start) {
            Some(x) => x,
            None => {
                assert(h3_papers_from(h@, pos as int) =~= Seq::empty());
                assert(out@.map_values(|p: (String, String)| (p.0@, p.1@)) + h3_papers_from(h@, pos as int)
                    =~= out@.map_values(|p: (String, String)| (p.0@, p.1@)));
                break;
            },
        };
        assert(find_from(h@, close@, start as int) == Some(e as int));
        let end = e + 5;
        let block = sub_vec(&h, start, end);
        let ghost before = out@.map_values(|p: (String, String)| (p.0@, p.1@));
        match h3_paper_exec(&block) {
            Some(p) => {
                let ghost pv = (p.0@, p.1@);
                out.push(p);
                assert(out@.map_values(|p: (String, String)| (p.0@, p.1@)) =~= before.push(pv));
                assert(before.push(pv) + h3_papers_from(h@, end as int) =~= before + (seq![pv] + h3_papers_from(h@, end as int)));
            },
            None => {},
        }
        pos = end;
    }
    out
}

// ---------------------------------------------------------------------------
// The daily papers page: upvotes and authors
// ---------------------------------------------------------------------------

/// `p` occurs in `s` at byte `i`.
pub open spec fn bytes_at(s: Seq<u8>, p: Seq<u8>, i: int) -> bool {
    0 <= i && i + p.len() <= s.len() && s.subrange(i, i + p.len()) == p
}

/// The first occurrence of `p` in `s` at or after byte `i`.
pub open spec fn bytes_find(s: Seq<u8>, p: Seq<u8>, i: int) -> Option<int>
    decreases s.len() + 1 - i,
{
    if i < 0 || i + p.len() > s.len() {
        None
    } else if bytes_at(s, p, i) {
        Some(i)
    } else {
        bytes_find(s, p, i + 1)
    }
}

proof fn lemma_bytes_find(s: Seq<u8>, p: Seq<u8>, i: int)
    requires
        0 <= i,
    ensures
        match bytes_find(s, p, i) {
            Some(k) => i <= k && bytes_at(s, p, k),
            None => true,
        },
    decreases s.len() + 1 - i,
{
    if i + p.len() <= s.len() && !bytes_at(s, p, i) {
        lemma_bytes_find(s, p, i + 1);
    }
}

fn bytes_match(s: &[u8], p: &[u8], i: usize) -> (r: bool)
    ensures
        r == bytes_at(s@, p@, i as int),
{
    let n = s.len();
    if i > s.len() || p.len() > s.len() - i {
        return false;
    }
    let mut k: usize = 0;
    while k < p.len()
        invariant
            i + p@.len() <= s@.len(),
            s@.len() == n,
            0 <= k <= p@.len(),
            forall|j: int| 0 <= j < k ==> s@[i + j] == p@[j],
        decreases p.len() - k,
    {
        if s[i + k] != p[k] {
            assert(s@.subrange(i as int, i + p@.len())[k as int] != p@[k as int]);
            return false;
        }
        k += 1;
    }
    assert(s@.subrange(i as int, i + p@.len()) =~= p@);
    true
}

fn bytes_find_at(s: &[u8], p: &[u8], from: usize) -> (r: Option<usize>)
    requires
        p@.len() > 0,
    ensures
        match bytes_find(s@, p@, from as int) {
            Some(k) => r == Some(k as usize),
            None => r is None,
        },
{
    let mut i = from;
    while i <= s.len() && p.len() <= s.len() - i
        invariant
            from <= i,
            p@.len() > 0,
            bytes_find(s@, p@, from as int) == bytes_find(s@, p@, i as int),
        decreases s.len() + 1 - i,
    {
        if bytes_match(s, p, i) {
            return Some(i);
        }
        i += 1;
    }
    None
}

/// The bytes of `&quot;`.
pub open spec fn quot() -> Seq<u8> {
    seq![38u8, 113u8, 117u8, 111u8, 116u8, 59u8]
}

/// The bytes of `&quot;id&quot;:&quot;`.
pub open spec fn id_needle() -> Seq<u8> {
    quot() + seq![105u8, 100u8] + quot() + seq![58u8] + quot()
}

/// The bytes of `&quot;upvotes&quot;:`.
pub open spec fn upvotes_needle() -> Seq<u8> {
    quot() + seq![117u8, 112u8, 118u8, 111u8, 116u8, 101u8, 115u8] + quot() + seq![58u8]
}

/// The bytes of `&quot;name&quot;:&quot;`.
pub open spec fn name_needle() -> Seq<u8> {
    quot() + seq![110u8, 97u8, 109u8, 101u8] + quot() + seq![58u8] + quot()
}

pub open spec fn is_digit_byte(b: u8) -> bool {
    48 <= b <= 57
}

pub open spec fn is_hex_byte(b: u8) -> bool {
    (48 <= b <= 57) || (65 <= b <= 70) || (97 <= b <= 102)
}

/// The length of the run of ASCII digits at the start.
pub open spec fn digit_run(s: Seq<u8>) -> int
    decreases s.len(),
{
    if s.len() == 0 || !is_digit_byte(s[0]) {
        0
    } else {
        1 + digit_run(s.drop_first())
    }
}

/// The upvote count in a paper's JSON block: the digits after
/// `&quot;upvotes&quot;:`, as a `u32`.
pub open spec fn upvotes_of(block: Seq<u8>) -> Option<u32> {
    match bytes_find(block, upvotes_needle(), 0) {
        None => None,
        Some(k) => {
            let rest = block.subrange(k + upvotes_needle().len(), block.len() as int);
            crate::strs::spec_parse_u32(crate::xml::name_text(rest.subrange(0, digit_run(rest))))
        },
    }
}

/// A `name` value that reads as a person: shorter than 64 bytes, not empty
/// and not only hexadecimal digits (those are object ids).
pub open spec fn keeps_name(name: Seq<u8>) -> bool {
    &&& name.len() < 64
    &&& name.len() > 0
    &&& !(forall|i: int| 0 <= i < name.len() ==> is_hex_byte(#[trigger] name[i]))
}

/// The author names of a block from byte `pos` on, after `acc`, stopping at
/// 20 names.
pub open spec fn authors_from(b: Seq<u8>, pos: int, acc: Seq<Seq<char>>) -> Seq<Seq<char>>
    decreases b.len() - pos,
{
    if pos < 0 || pos > b.len() {
        acc
    } else {
        match bytes_find(b, name_needle(), pos) {
            None => acc,
            Some(k) => {
                let vs = k + name_needle().len();
                match bytes_find(b, quot(), vs) {
                    None => acc,
                    Some(ve) => {
                        let name = b.subrange(vs, ve);
                        let acc2 = if keeps_name(name) {
                            acc.push(crate::xml::name_text(name))
                        } else {
                            acc
                        };
                        if acc2.len() >= 20 || ve <= pos || ve > b.len() {
                            acc2
                        } else {
                            authors_from(b, ve, acc2)
                        }
                    },
                }
            },
        }
    }
}

/// The author names in a paper's JSON block, looked for in its first 2048
/// bytes.
pub open spec fn authors_of(block: Seq<u8>) -> Seq<Seq<char>> {
    let limit = if block.len() < 2048 { block.len() as int } else { 2048 };
    authors_from(block.subrange(0, limit), 0, Seq::empty())
}

/// Where the JSON block of an id starting at byte `vs` ends: 4096 bytes
/// on, or at the end.
pub open spec fn block_end(len: int, vs: int) -> int {
    if vs + 4096 < len {
        vs + 4096
    } else {
        len
    }
}

/// (id, upvotes, authors) for every arXiv id in the page's encoded JSON, in
/// order, from byte `pos` on.
pub open spec fn meta_from(h: Seq<u8>, pos: int) -> Seq<(Seq<char>, Option<u32>, Seq<Seq<char>>)>
    decreases h.len() - pos,
{
    if pos < 0 || pos > h.len() {
        Seq::empty()
    } else {
        match bytes_find(h, id_needle(), pos) {
            None => Seq::empty(),
            Some(k) => {
                let vs = k + id_needle().len();
                if vs <= pos || vs > h.len() {
                    Seq::empty()
                } else {
                    match bytes_find(h, quot(), vs) {
                        None => meta_from(h, vs),
                        Some(ve) => {
                            if ve < vs || ve > h.len() {
                                Seq::empty()
                            } else if !spec_is_arxiv_id(crate::xml::name_text(h.subrange(vs, ve))) {
                                meta_from(h, ve)
                            } else {
                                let id = crate::xml::name_text(h.subrange(vs, ve));
                                let block = h.subrange(vs, block_end(h.len() as int, vs));
                                seq![(id, upvotes_of(block), authors_of(block))] + meta_from(h, ve)
                            }
                        },
                    }
                }
            },
        }
    }
}

/// Whether every JSON block the scan cuts from byte `pos` on (4096 bytes,
/// and its first 2048) ends on a character boundary.  Where one does not,
/// cutting the text there would panic.
pub open spec fn meta_cuts_ok(h: Seq<u8>, pos: int) -> bool
    decreases h.len() - pos,
{
    if pos < 0 || pos > h.len() {
        true
    } else {
        match bytes_find(h, id_needle(), pos) {
            None => true,
            Some(k) => {
                let vs = k + id_needle().len();
                if vs <= pos || vs > h.len() {
                    true
                } else {
                    match bytes_find(h, quot(), vs) {
                        None => meta_cuts_ok(h, vs),
                        Some(ve) => {
                            let id = crate::xml::name_text(h.subrange(vs, ve));
                            if ve < vs || ve > h.len() {
                                true
                            } else if !spec_is_arxiv_id(id) {
                                meta_cuts_ok(h, ve)
                            } else {
                                let be = block_end(h.len() as int, vs);
                                let le = if be - vs < 2048 { be } else { vs + 2048 };
                                &&& vstd::utf8::is_char_boundary(h, be)
                                &&& vstd::utf8::is_char_boundary(h, le)
                                &&& meta_cuts_ok(h, ve)
                            }
                        },
                    }
                }
            },
        }
    }
}

fn needle_bytes(which: u8) -> (r: Vec<u8>)
    ensures
        which == 0 ==> r@ == quot(),
        which == 1 ==> r@ == id_needle(),
        which == 2 ==> r@ == upvotes_needle(),
        which == 3 ==> r@ == name_needle(),
        r@.len() > 0,
{
    let q: Vec<u8> = vec![38u8, 113u8, 117u8, 111u8, 116u8, 59u8];
    if which == 0 {
        assert(q@ =~= quot());
        q
    } else if which == 1 {
        let v: Vec<u8> = vec![
            38u8, 113u8, 117u8, 111u8, 116u8, 59u8, 105u8, 100u8, 38u8, 113u8, 117u8, 111u8, 116u8, 59u8, 58u8,
            38u8, 113u8, 117u8, 111u8, 116u8, 59u8,
        ];
        assert(v@ =~= id_needle());
        v
    } else if which == 2 {
        let v: Vec<u8> = vec![
            38u8, 113u8, 117u8, 111u8, 116u8, 59u8, 117u8, 112u8, 118u8, 111u8, 116u8, 101u8, 115u8, 38u8, 113u8,
            117u8, 111u8, 116u8, 59u8, 58u8,
        ];
        assert(v@ =~= upvotes_needle());
        v
    } else {
        let v: Vec<u8> = vec![
            38u8, 113u8, 117u8, 111u8, 116u8, 59u8, 110u8, 97u8, 109u8, 101u8, 38u8, 113u8, 117u8, 111u8, 116u8,
            59u8, 58u8, 38u8, 113u8, 117u8, 111u8, 116u8, 59u8,
        ];
        assert(v@ =~= name_needle());
        v
    }
}

fn bytes_slice(s: &[u8], from: usize, to: usize) -> (r: Vec<u8>)
    requires
        from <= to <= s@.len(),
    ensures
        r@ == s@.subrange(from as int, to as int),
{
    let mut r: Vec<u8> = Vec::new();
    let mut i = from;
    while i < to
        invariant
            from <= i <= to <= s@.len(),
            r@ == s@.subrange(from as int, i as int),
        decreases to - i,
    {
        r.push(s[i]);
        i += 1;
        assert(r@ =~= s@.subrange(from as int, i as int));
    }
    r
}

fn text_of_bytes(b: Vec<u8>) -> (r: String)
    ensures
        r@ == crate::xml::name_text(b@),
{
    match crate::github::utf8_string(b) {
        Some(s) => s,
        None => String::new(),
    }
}

/// The upvote count in a paper's JSON block (see `upvotes_of`).
pub fn extract_upvotes(block: &[u8]) -> (r: Option<u32>)
    ensures
        r == upvotes_of(block@),
{
    let needle = needle_bytes(2);
    proof { lemma_bytes_find(block@, needle@, 0); }
    let k = match bytes_find_at(block, &needle, 0) {
        Some(k) => k,
        None => {
            return None;
        },
    };
    let n = block.len();
    assert(bytes_find(block@, needle@, 0) == Some(k as int));
    let start = k + needle.len();
    let ghost rest = block@.subrange(start as int, block@.len() as int);
    let mut j = start;
    assert(block@.subrange(j as int, block@.len() as int) =~= rest);
    while j < block.len() && 48 <= block[j] && block[j] <= 57
        invariant
            start <= j <= block@.len(),
            rest == block@.subrange(start as int, block@.len() as int),
            digit_run(rest) == (j - start) + digit_run(block@.subrange(j as int, block@.len() as int)),
        decreases block.len() - j,
    {
        assert(block@.subrange(j as int, block@.len() as int).drop_first() =~= block@.subrange(j + 1, block@.len() as int));
        j += 1;
    }
    assert(digit_run(block@.subrange(j as int, block@.len() as int)) == 0);
    assert(rest.subrange(0, digit_run(rest)) =~= block@.subrange(start as int, j as int));
    let digits = bytes_slice(block, start, j);
    let text = text_of_bytes(digits);
    crate::strs::parse_u32(&chars_of(text.as_str()))
}

fn all_hex(b: &[u8]) -> (r: bool)
    ensures
        r == (forall|i: int| 0 <= i < b@.len() ==> is_hex_byte(#[trigger] b@[i])),
{
    let mut i: usize = 0;
    while i < b.len()
        invariant
            0 <= i <= b@.len(),
            forall|k: int| 0 <= k < i ==> is_hex_byte(#[trigger] b@[k]),
        decreases b.len() - i,
    {
        let c = b[i];
        if !((48 <= c && c <= 57) || (65 <= c && c <= 70) || (97 <= c && c <= 102)) {
            assert(!is_hex_byte(b@[i as int]));
            return false;
        }
        i += 1;
    }
    true
}

/// The author names in a paper's JSON block (see `authors_of`).
pub fn extract_authors(block: &[u8]) -> (r: Vec<String>)
    ensures
        views(r@) == authors_of(block@),
{
    let limit = if block.len() < 2048 { block.len() } else { 2048 };
    let b = bytes_slice(block, 0, limit);
    let needle = needle_bytes(3);
    let q = needle_bytes(0);
    let mut out: Vec<String> = Vec::new();
    let mut pos: usize = 0;
    let ghost bb = b@;
    assert(views(out@) =~= Seq::<Seq<char>>::empty());
    while pos <= b.len()
        invariant_except_break
            authors_from(bb, pos as int, views(out@)) == authors_from(bb, 0, Seq::empty()),
        invariant
            bb == b@,
            bb == block@.subrange(0, limit as int),
            needle@ == name_needle(),
            q@ == quot(),
            0 <= pos,
        ensures
            views(out@) == authors_from(bb, 0, Seq::empty()),
        decreases b.len() + 1 - pos,
    {
        proof { lemma_bytes_find(b@, needle@, pos as int); }
        let k = match bytes_find_at(&b, &needle, pos) {
            Some(k) => k,
            None => {
                break;
            },
        };
        let n = b.len();
        assert(bytes_find(b@, needle@, pos as int) == Some(k as int));
        let vs = k + needle.len();
        proof { lemma_bytes_find(b@, q@, vs as int); }
        let ve = match bytes_find_at(&b, &q, vs) {
            Some(e) => e,
            None => {
                break;
            },
        };
        assert(bytes_find(b@, q@, vs as int) == Some(ve as int));
        let name = bytes_slice(&b, vs, ve);
        let ghost before = views(out@);
        assert(authors_from(bb, pos as int, before) == authors_from(bb, 0, Seq::empty()));
        if name.len() < 64 && name.len() > 0 && !all_hex(&name) {
            let t = text_of_bytes(name);
            out.push(t);
            assert(views(out@) =~= before.push(crate::xml::name_text(b@.subrange(vs as int, ve as int))));
        }
        if out.len() >= 20 {
            break;
        }
        pos = ve;
    }
    out
}

/// (id, upvotes, authors) as plain values.
pub open spec fn meta_views(v: Seq<(String, Option<u32>, Vec<String>)>) -> Seq<(Seq<char>, Option<u32>, Seq<Seq<char>>)> {
    v.map_values(|m: (String, Option<u32>, Vec<String>)| (m.0@, m.1, views(m.2@)))
}

/// Reads the page's encoded JSON (see `meta_from`); none when one of the
/// blocks would be cut inside a character.
pub fn scan_json_meta(html: &str) -> (r: Option<Vec<(String, Option<u32>, Vec<String>)>>)
    ensures
        r is Some <==> meta_cuts_ok(vstd::utf8::encode_utf8(html@), 0),
        r matches Some(v) ==> meta_views(v@) == meta_from(vstd::utf8::encode_utf8(html@), 0),
{
    let h = html.as_bytes();
    let ghost hb = h@;
    let idn = needle_bytes(1);
    let q = needle_bytes(0);
    let mut out: Vec<(String, Option<u32>, Vec<String>)> = Vec::new();
    let mut pos: usize = 0;
    while pos <= h.len()
        invariant
            hb == h@,
            hb == vstd::utf8::encode_utf8(html@),
            idn@ == id_needle(),
            q@ == quot(),
            meta_views(out@) + meta_from(hb, pos as int) == meta_from(hb, 0),
            meta_cuts_ok(hb, pos as int) == meta_cuts_ok(hb, 0),
        ensures
            meta_views(out@) == meta_from(hb, 0),
            meta_cuts_ok(hb, 0),
        decreases h.len() + 1 - pos,
    {
        let n = h.len();
        proof { lemma_bytes_find(h@, idn@, pos as int); }
        let k = match bytes_find_at(h, &idn, pos) {
            Some(k) => k,
            None => {
                assert(meta_views(out@) + meta_from(hb, pos as int) =~= meta_views(out@));
                break;
            },
        };
        assert(bytes_find(h@, idn@, pos as int) == Some(k as int));
        let vs = k + idn.len();
        proof { lemma_bytes_find(h@, q@, vs as int); }
        let ve = match bytes_find_at(h, &q, vs) {
            Some(e) => e,
            None => {
                pos = vs;
                continue;
            },
        };
        assert(bytes_find(h@, q@, vs as int) == Some(ve as int));
        let idb = bytes_slice(h, vs, ve);
        let id_text = text_of_bytes(idb);
        if !is_arxiv_id(&chars_of(id_text.as_str())) {
            pos = ve;
            continue;
        }
        let be = if 4096 < h.len() - vs { vs + 4096 } else { h.len() };
        let le = if be - vs < 2048 { be } else { vs + 2048 };
        if !html.is_char_boundary(be) || !html.is_char_boundary(le) {
            return None;
        }
        let block = bytes_slice(h, vs, be);
        let up = extract_upvotes(&block);
        let au = extract_authors(&block);
        let ghost before = meta_views(out@);
        let ghost entry = (id_text@, up, views(au@));
        out.push((id_text, up, au));
        assert(meta_views(out@) =~= before.push(entry));
        assert(before.push(entry) + meta_from(hb, ve as int) =~= before + (seq![entry] + meta_from(hb, ve as int)));
        pos = ve;
    }
    Some(out)
}

/// The upvotes and authors that the first JSON entry for `id` gives (none
/// and no authors when there is none).
pub open spec fn first_meta(meta: Seq<(Seq<char>, Option<u32>, Seq<Seq<char>>)>, id: Seq<char>) -> (Option<u32>, Seq<Seq<char>>)
    decreases meta.len(),
{
    if meta.len() == 0 {
        (None, Seq::empty())
    } else if meta[0].0 == id {
        (meta[0].1, meta[0].2)
    } else {
        first_meta(meta.drop_first(), id)
    }
}

/// Whether an earlier pair has the same id as the pair at `i`.
pub open spec fn seen_before(t: Seq<(Seq<char>, Seq<char>)>, i: int) -> bool {
    exists|k: int| 0 <= k < i && #[trigger] t[k].0 == t[i].0
}

/// The pairs without those whose id came earlier.
pub open spec fn unique_titles(t: Seq<(Seq<char>, Seq<char>)>) -> Seq<(Seq<char>, Seq<char>)>
    decreases t.len(),
{
    if t.len() == 0 {
        Seq::empty()
    } else {
        let d = unique_titles(t.drop_last());
        if seen_before(t, t.len() - 1) {
            d
        } else {
            d.push(t.last())
        }
    }
}

/// The feed item of one paper on the daily page.
pub open spec fn is_hf_item(
    item: FeedItem,
    id: Seq<char>,
    title: Seq<char>,
    today: Seq<char>,
    meta: Seq<(Seq<char>, Option<u32>, Seq<Seq<char>>)>,
) -> bool {
    let (up, authors) = first_meta(meta, id);
    let upvotes: u32 = match up {
        Some(u) => u,
        None => 0,
    };
    let st = spec_subtopics(title, ""@);
    &&& item.id@ == id
    &&& item.title@ == title
    &&& item.source_platform == SourcePlatform::HuggingFace
    &&& item.content_type == ContentType::Paper
    &&& views(item.domain_tags@) == (if st.len() == 0 { seq!["ml"@] } else { st })
    &&& item.signal == spec_signal(SourcePlatform::HuggingFace, upvotes)
    &&& item.published_at@ == today
    &&& views(item.authors@) == authors
    &&& item.summary_short@.len() == 0
    &&& item.workflow_state == WorkflowState::Inbox
    &&& item.url@ == "https://huggingface.co/papers/"@ + id
    &&& item.upvote_count == upvotes
    &&& item.github_repo is None
    &&& item.github_owner is None
    &&& item.github_repo_name is None
    &&& item.benchmark_results@.len() == 0
    &&& item.full_content is None
    &&& item.source_name@ == "huggingface"@
    &&& item.title_lower@.len() == 0
    &&& item.authors_lower@.len() == 0
}

/// Whether the page's JSON can be read without cutting inside a character.
pub fn json_meta_readable(html: &str) -> (r: bool)
    ensures
        r == meta_cuts_ok(vstd::utf8::encode_utf8(html@), 0),
{
    scan_json_meta(html).is_some()
}

/// (id, upvotes, authors) from the page's encoded JSON, in order.
pub fn extract_json_meta(html: &str) -> (r: Vec<(String, Option<u32>, Vec<String>)>)
    requires
        meta_cuts_ok(vstd::utf8::encode_utf8(html@), 0),
    ensures
        meta_views(r@) == meta_from(vstd::utf8::encode_utf8(html@), 0),
{
    match scan_json_meta(html) {
        Some(v) => v,
        None => Vec::new(),
    }
}

fn meta_for(meta: &Vec<(String, Option<u32>, Vec<String>)>, id: &str) -> (r: (Option<u32>, Vec<String>))
    ensures
        (r.0, views(r.1@)) == first_meta(meta_views(meta@), id@),
{
    let mut i: usize = 0;
    assert(meta_views(meta@).subrange(0, meta@.len() as int) =~= meta_views(meta@));
    while i < meta.len()
        invariant
            0 <= i <= meta@.len(),
            first_meta(meta_views(meta@), id@) == first_meta(meta_views(meta@).subrange(i as int, meta@.len() as int), id@),
        decreases meta.len() - i,
    {
        let ghost rest = meta_views(meta@).subrange(i as int, meta@.len() as int);
        assert(rest.drop_first() =~= meta_views(meta@).subrange(i + 1, meta@.len() as int));
        if str_eq(meta[i].0.as_str(), id) {
            let authors = crate::strs::clone_strings(&meta[i].2);
            return (meta[i].1, authors);
        }
        i += 1;
    }
    assert(meta_views(meta@).subrange(i as int, meta@.len() as int) =~= Seq::empty());
    (None, Vec::new())
}

/// Parse the Hugging Face daily papers page (see `is_hf_item`): one item
/// per `<h3>` paper, first occurrence of each id only, dated `today`.
pub fn parse_papers(html: &str, today: &str) -> (r: Vec<FeedItem>)
    requires
        meta_cuts_ok(vstd::utf8::encode_utf8(html@), 0),
    ensures
        r@.len() == unique_titles(h3_papers_from(html@, 0)).len(),
        forall|i: int|
            0 <= i < r@.len() ==> is_hf_item(
                #[trigger] r@[i],
                unique_titles(h3_papers_from(html@, 0))[i].0,
                unique_titles(h3_papers_from(html@, 0))[i].1,
                today@,
                meta_from(vstd::utf8::encode_utf8(html@), 0),
            ),
{
    let titles = extract_h3_papers(html);
    let meta = extract_json_meta(html);
    let ghost tv = titles@.map_values(|p: (String, String)| (p.0@, p.1@));
    let ghost mv = meta_from(vstd::utf8::encode_utf8(html@), 0);
    let mut seen: Vec<String> = Vec::new();
    let mut items: Vec<FeedItem> = Vec::new();
    let mut i: usize = 0;
    while i < titles.len()
        invariant
            0 <= i <= titles@.len(),
            tv == titles@.map_values(|p: (String, String)| (p.0@, p.1@)),
            tv == h3_papers_from(html@, 0),
            mv == meta_views(meta@),
            items@.len() == unique_titles(tv.take(i as int)).len(),
            forall|k: int|
                0 <= k < items@.len() ==> is_hf_item(
                    #[trigger] items@[k],
                    unique_titles(tv.take(i as int))[k].0,
                    unique_titles(tv.take(i as int))[k].1,
                    today@,
                    mv,
                ),
            forall|x: Seq<char>| #[trigger] views(seen@).contains(x) <==> exists|k: int| 0 <= k < i && tv[k].0 == x,
        decreases titles.len() - i,
    {
        let id = &titles[i].0;
        let title = &titles[i].1;
        let ghost t1 = tv.take(i + 1);
        assert(t1.drop_last() =~= tv.take(i as int));
        assert(t1.last() == tv[i as int]);
        let dup = contains_tag(&seen, id.as_str());
        assert(dup == seen_before(t1, i as int)) by {
            if dup {
                let k = choose|k: int| 0 <= k < i && tv[k].0 == id@;
                assert(t1[k].0 == t1[i as int].0);
            }
            if seen_before(t1, i as int) {
                let k = choose|k: int| 0 <= k < i && #[trigger] t1[k].0 == t1[i as int].0;
                assert(tv[k].0 == id@);
                assert(views(seen@).contains(id@));
            }
        }
        let ghost old_seen = views(seen@);
        if !dup {
            seen.push(id.clone());
            let (up, authors) = meta_for(&meta, id.as_str());
            let upvote_count: u32 = match up {
                Some(u) => u,
                None => 0,
            };
            let subtopics = detect_subtopics(title.as_str(), "");
            let mut domain_tags = owned_strings(&subtopics);
            if domain_tags.len() == 0 {
                domain_tags.push(to_owned_string("ml"));
            }
            let mut url = chars_of("https://huggingface.co/papers/");
            push_str(&mut url, id.as_str());
            let mut item = FeedItem {
                id: id.clone(),
                title: title.clone(),
                source_platform: SourcePlatform::HuggingFace,
                content_type: ContentType::Paper,
                domain_tags,
                signal: SignalLevel::Secondary,
                published_at: to_owned_string(today),
                authors,
                summary_short: String::new(),
                workflow_state: WorkflowState::Inbox,
                url: string_of(&url),
                upvote_count,
                github_repo: None,
                github_owner: None,
                github_repo_name: None,
                benchmark_results: Vec::new(),
                full_content: None,
                source_name: to_owned_string("huggingface"),
                title_lower: String::new(),
                authors_lower: Vec::new(),
            };
            item.signal = item.compute_signal();
            proof {
                if subtopics@.len() == 0 {
                    assert(views(item.domain_tags@) =~= seq!["ml"@]);
                }
            }
            items.push(item);
            assert(views(seen@) =~= old_seen.push(id@));
        }
        proof {
            assert forall|x: Seq<char>| #[trigger] views(seen@).contains(x) <==> exists|k: int| 0 <= k < i + 1 && tv[k].0 == x by {
                if exists|k: int| 0 <= k < i + 1 && tv[k].0 == x {
                    let k = choose|k: int| 0 <= k < i + 1 && tv[k].0 == x;
                    if k == i {
                        if !dup {
                            assert(views(seen@)[old_seen.len() as int] == x);
                        }
                    } else {
                        assert(old_seen.contains(x));
                        let j = choose|j: int| 0 <= j < old_seen.len() && old_seen[j] == x;
                        assert(views(seen@)[j] == x);
                    }
                }
                if views(seen@).contains(x) {
                    let j = choose|j: int| 0 <= j < views(seen@).len() && views(seen@)[j] == x;
                    if j < old_seen.len() {
                        assert(old_seen.contains(x));
                    } else {
                        assert(tv[i as int].0 == x);
                    }
                }
            }
        }
        i += 1;
    }
    assert(tv.take(titles@.len() as int) =~= tv);
    items
}

// ---------------------------------------------------------------------------
// Repository links
// ---------------------------------------------------------------------------

/// The most requests made for repository links in one round.
pub const MAX_ENRICH_REQUESTS: usize = 20;

/// A cached link expires after this many days.
pub const CACHE_TTL_DAYS: i32 = 7;

/// `s` without trailing copies of `c` (`str::trim_end_matches`).
pub open spec fn trim_end_char(s: Seq<char>, c: char) -> Seq<char>
    decreases s.len(),
{
    if s.len() > 0 && s.last() == c {
        trim_end_char(s.drop_last(), c)
    } else {
        s
    }
}

pub(crate) fn trim_end_char_exec(v: &Vec<char>, c: char) -> (r: Vec<char>)
    ensures
        r@ == trim_end_char(v@, c),
{
    let mut j = v.len();
    assert(v@.subrange(0, j as int) =~= v@);
    while j > 0 && v[j - 1] == c
        invariant
            0 <= j <= v@.len(),
            trim_end_char(v@, c) == trim_end_char(v@.subrange(0, j as int), c),
        decreases j,
    {
        assert(v@.subrange(0, j as int).drop_last() =~= v@.subrange(0, j - 1));
        j -= 1;
    }
    sub_vec(v, 0, j)
}

/// (owner, name) of a GitHub repository URL: the path after
/// `https://github.com/` (trailing `/` removed) or `http://github.com/`,
/// split at its first `/`; an empty part is none.
pub open spec fn spec_owner_repo(url: Seq<char>) -> (Option<Seq<char>>, Option<Seq<char>>) {
    let t = trim_end_char(url, '/');
    let path = if starts_with(t, "https://github.com/"@) {
        t.subrange(19, t.len() as int)
    } else if starts_with(url, "http://github.com/"@) {
        url.subrange(18, url.len() as int)
    } else {
        Seq::empty()
    };
    match find_char_from(path, '/', 0) {
        Some(p) => (
            if p > 0 { Some(path.subrange(0, p)) } else { None },
            if p + 1 < path.len() { Some(path.subrange(p + 1, path.len() as int)) } else { None },
        ),
        None => (if path.len() > 0 { Some(path) } else { None }, None),
    }
}

pub fn parse_github_owner_repo(url: &str) -> (r: (Option<String>, Option<String>))
    ensures
        (crate::models::opt_view(r.0), crate::models::opt_view(r.1)) == spec_owner_repo(url@),
{
    let v = chars_of(url);
    let t = trim_end_char_exec(&v, '/');
    let https = chars_of("https://github.com/");
    let http = chars_of("http://github.com/");
    proof {
        reveal_strlit("https://github.com/");
        reveal_strlit("http://github.com/");
    }
    let path = if crate::strs::has_prefix(&t, &https) {
        sub_vec(&t, 19, t.len())
    } else if crate::strs::has_prefix(&v, &http) {
        sub_vec(&v, 18, v.len())
    } else {
        Vec::new()
    };
    proof { lemma_find_char_from_facts(path@, '/', 0); }
    match find_char_at(&path, '/', 0) {
        Some(p) => {
            assert(find_char_from(path@, '/', 0) == Some(p as int));
            let owner = if p > 0 { Some(string_of(&sub_vec(&path, 0, p))) } else { None };
            let name = if p + 1 < path.len() { Some(string_of(&sub_vec(&path, p + 1, path.len()))) } else { None };
            (owner, name)
        },
        None => {
            let owner = if path.len() > 0 { Some(string_of(&path)) } else { None };
            (owner, None)
        },
    }
}

/// Record `repo` as the item's repository, with its owner and name.
pub fn apply_repo(items: &mut Vec<FeedItem>, idx: usize, repo: &str)
    requires
        idx < old(items)@.len(),
    ensures
        final(items)@.len() == old(items)@.len(),
        forall|i: int| 0 <= i < final(items)@.len() && i != idx ==> #[trigger] final(items)@[i] == old(items)@[i],
        crate::models::opt_view(final(items)@[idx as int].github_repo) == Some(repo@),
        (
            crate::models::opt_view(final(items)@[idx as int].github_owner),
            crate::models::opt_view(final(items)@[idx as int].github_repo_name),
        ) == spec_owner_repo(repo@),
        final(items)@[idx as int].id == old(items)@[idx as int].id,
        final(items)@[idx as int].title == old(items)@[idx as int].title,
        final(items)@[idx as int].summary_short == old(items)@[idx as int].summary_short,
        final(items)@[idx as int].upvote_count == old(items)@[idx as int].upvote_count,
{
    let mut item = items.remove(idx);
    item.github_repo = Some(to_owned_string(repo));
    let (owner, name) = parse_github_owner_repo(repo);
    item.github_owner = owner;
    item.github_repo_name = name;
    items.insert(idx, item);
}

/// The item's id when it reads as an arXiv id (`NNNN.NNNN…`, four digits,
/// a dot, at least four digits).
pub open spec fn spec_paper_arxiv_id(id: Seq<char>) -> Option<Seq<char>> {
    match find_char_from(id, '.', 0) {
        None => None,
        Some(d) => if d == 4 && id.len() - d - 1 >= 4 && all_digits(id.subrange(0, d)) && all_digits(
            id.subrange(d + 1, id.len() as int),
        ) {
            Some(id)
        } else {
            None
        },
    }
}

pub fn extract_paper_arxiv_id(item: &FeedItem) -> (r: Option<String>)
    ensures
        crate::models::opt_view(r) == spec_paper_arxiv_id(item.id@),
{
    let v = chars_of(item.id.as_str());
    let n = v.len();
    proof { lemma_find_char_from_facts(v@, '.', 0); }
    match find_char_at(&v, '.', 0) {
        None => None,
        Some(d) => {
            assert(find_char_from(v@, '.', 0) == Some(d as int));
            if d == 4 && v.len() - d - 1 >= 4 && ascii_digits_only(&sub_vec(&v, 0, d)) && ascii_digits_only(
                &sub_vec(&v, d + 1, v.len()),
            ) {
                Some(item.id.clone())
            } else {
                None
            }
        },
    }
}

/// A GitHub repository URL: `http(s)://github.com/OWNER/REPO`.
pub const GITHUB_REPO_PATTERN: &'static str = "https?://github\\.com/[a-zA-Z0-9_.-]+/[a-zA-Z0-9_.-]+";

/// The first match of the regular expression `pattern` in `text`, as the
/// `regex` crate finds it (none when the pattern does not compile).
pub uninterp spec fn github_url_match(pattern: Seq<char>, text: Seq<char>) -> Option<Seq<char>>;

/// `regex::Regex::new(pattern)` then `find(text)`; the matching rules are
/// the crate's and are not spelled out here.
#[verifier::external_body]
fn find_github_url(pattern: &str, text: &str) -> (r: Option<String>)
    ensures
        crate::models::opt_view(r) == github_url_match(pattern@, text@),
{
    regex::Regex::new(pattern).ok().and_then(|re| re.find(text).map(|m| m.as_str().to_string()))
}

/// A GitHub repository URL found in free text, without trailing dots.
pub fn extract_github_from_text(text: &str) -> (r: Option<String>)
    ensures
        crate::models::opt_view(r) == match github_url_match(GITHUB_REPO_PATTERN@, text@) {
            Some(m) => Some(trim_end_char(m, '.')),
            None => None,
        },
{
    match find_github_url(GITHUB_REPO_PATTERN, text) {
        Some(m) => {
            let v = chars_of(m.as_str());
            Some(string_of(&trim_end_char_exec(&v, '.')))
        },
        None => None,
    }
}

/// What to do next for one candidate paper.
#[derive(Debug, Clone, PartialEq, Eq)]
pub enum EnrichStep {
    /// A fresh cache entry answers: apply its link, if it has one.
    UseCached(Option<String>),
    /// Ask the API (and fall back to the abstract).
    Fetch,
    /// The request budget is spent: stop.
    Stop,
}

/// The decision for one candidate: a fresh cache entry wins; otherwise a
/// request is made while fewer than `MAX_ENRICH_REQUESTS` were made.
/// `cached` is the cache entry (its link, and whether it is stale).
pub fn enrich_step(cached: Option<(Option<String>, bool)>, requests_made: usize) -> (r: EnrichStep)
    ensures
        match cached {
            Some((repo, false)) => r == EnrichStep::UseCached(repo),
            _ => if requests_made >= MAX_ENRICH_REQUESTS {
                r == EnrichStep::Stop
            } else {
                r == EnrichStep::Fetch
            },
        },
{
    match cached {
        Some((repo, false)) => EnrichStep::UseCached(repo),
        _ => if requests_made >= MAX_ENRICH_REQUESTS {
            EnrichStep::Stop
        } else {
            EnrichStep::Fetch
        },
    }
}

/// The link to keep after a request: the API's answer, or else one found
/// in the abstract.
pub fn choose_repo(api: Option<String>, abstract_text: &str) -> (r: Option<String>)
    ensures
        api is Some ==> r == api,
        api is None ==> crate::models::opt_view(r) == match github_url_match(GITHUB_REPO_PATTERN@, abstract_text@) {
            Some(m) => Some(trim_end_char(m, '.')),
            None => None,
        },
{
    match api {
        Some(a) => Some(a),
        None => extract_github_from_text(abstract_text),
    }
}

/// Whether a repository cache entry dated `cached_at` (`YYYY-MM-DD`) is
/// stale on the day numbered `today`: more than `CACHE_TTL_DAYS` old, or
/// with no readable date.
pub fn hf_cache_stale(cached_at: &str, today: i64) -> (r: bool)
    ensures
        r == crate::dates::stale_after(cached_at@, today, CACHE_TTL_DAYS as int),
{
    match crate::dates::day_number(cached_at) {
        Some(d) => (today as i128) - (d as i128) > CACHE_TTL_DAYS as i128,
        None => true,
    }
}

/// Papers that may get a link: items without one whose id is an arXiv id,
/// as (index, id, upvotes), most upvoted first (ties keep item order).
pub fn repo_candidates(items: &Vec<FeedItem>) -> (r: Vec<(usize, String, u32)>)
    ensures
        forall|k: int| 0 <= k < r@.len() ==> {
            let (i, id, _) = #[trigger] r@[k];
            &&& i < items@.len()
            &&& items@[i as int].github_repo is None
            &&& spec_paper_arxiv_id(items@[i as int].id@) == Some(id@)
            &&& r@[k].2 == items@[i as int].upvote_count
        },
        forall|i: int|
            0 <= i < items@.len() && items@[i].github_repo is None && spec_paper_arxiv_id(items@[i].id@) is Some
                ==> exists|k: int| 0 <= k < r@.len() && #[trigger] r@[k].0 == i,
        forall|a: int, b: int| 0 <= a < b < r@.len() ==> #[trigger] r@[a].2 >= #[trigger] r@[b].2,
        forall|a: int, b: int|
            0 <= a < b < r@.len() && #[trigger] r@[a].2 == #[trigger] r@[b].2 ==> r@[a].0 < r@[b].0,
{
    let mut out: Vec<(usize, String, u32)> = Vec::new();
    let mut i: usize = 0;
    while i < items.len()
        invariant
            0 <= i <= items@.len(),
            forall|k: int| 0 <= k < out@.len() ==> {
                let (j, id, _) = #[trigger] out@[k];
                &&& j < i
                &&& items@[j as int].github_repo is None
                &&& spec_paper_arxiv_id(items@[j as int].id@) == Some(id@)
                &&& out@[k].2 == items@[j as int].upvote_count
            },
            forall|j: int|
                0 <= j < i && items@[j].github_repo is None && spec_paper_arxiv_id(items@[j].id@) is Some
                    ==> exists|k: int| 0 <= k < out@.len() && #[trigger] out@[k].0 == j,
            forall|a: int, b: int| 0 <= a < b < out@.len() ==> #[trigger] out@[a].2 >= #[trigger] out@[b].2,
            forall|a: int, b: int|
                0 <= a < b < out@.len() && #[trigger] out@[a].2 == #[trigger] out@[b].2 ==> out@[a].0 < out@[b].0,
        decreases items.len() - i,
    {
        if items[i].github_repo.is_none() {
            match extract_paper_arxiv_id(&items[i]) {
                Some(id) => {
                    let up = items[i].upvote_count;
                    // After every entry with at least as many upvotes.
                    let mut p: usize = 0;
                    while p < out.len() && out[p].2 >= up
                        invariant
                            0 <= p <= out@.len(),
                            forall|k: int| 0 <= k < p ==> #[trigger] out@[k].2 >= up,
                        decreases out.len() - p,
                    {
                        p += 1;
                    }
                    let ghost before = out@;
                    out.insert(p, (i, id, up));
                    proof {
                        assert forall|a: int, b: int| 0 <= a < b < out@.len() implies #[trigger] out@[a].2 >= #[trigger] out@[b].2 by {
                            if b < p {
                            } else if b == p {
                                assert(out@[a] == before[a]);
                            } else if a == p {
                                assert(out@[b] == before[b - 1]);
                                assert(before[p as int].2 < up);
                                if b - 1 > p {
                                    assert(before[p as int].2 >= before[b - 1].2);
                                }
                            } else if a < p {
                                assert(out@[a] == before[a] && out@[b] == before[b - 1]);
                            } else {
                                assert(out@[a] == before[a - 1] && out@[b] == before[b - 1]);
                            }
                        }
                        assert forall|a: int, b: int|
                            0 <= a < b < out@.len() && #[trigger] out@[a].2 == #[trigger] out@[b].2 implies out@[a].0 < out@[b].0 by {
                            if b < p {
                            } else if b == p {
                                assert(out@[a] == before[a]);
                            } else if a == p {
                                assert(out@[b] == before[b - 1]);
                                assert(before[p as int].2 < up);
                                if b - 1 > p {
                                    assert(before[p as int].2 >= before[b - 1].2);
                                }
                            } else if a < p {
                                assert(out@[a] == before[a] && out@[b] == before[b - 1]);
                            } else {
                                assert(out@[a] == before[a - 1] && out@[b] == before[b - 1]);
                            }
                        }
                        assert forall|j: int|
                            0 <= j < i + 1 && items@[j].github_repo is None && spec_paper_arxiv_id(items@[j].id@) is Some
                                implies exists|k: int| 0 <= k < out@.len() && #[trigger] out@[k].0 == j by {
                            if j == i {
                                assert(out@[p as int].0 == j);
                            } else {
                                let k = choose|k: int| 0 <= k < before.len() && #[trigger] before[k].0 == j;
                                if k < p {
                                    assert(out@[k].0 == j);
                                } else {
                                    assert(out@[k + 1].0 == j);
                                }
                            }
                        }
                    }
                },
                None => {},
            }
        }
        i += 1;
    }
    out
}

/// The URL asking the arXiv API for the abstracts of the items' ids (none
/// when there are no items).
pub fn abstracts_url(items: &Vec<FeedItem>) -> (r: Option<String>)
    ensures
        items@.len() == 0 <==> r is None,
        r matches Some(u) ==> u@ == "http://export.arxiv.org/api/query?id_list="@ + crate::text::join_with(
            items@.map_values(|it: FeedItem| it.id@),
            ","@,
        ) + "&max_results=50"@,
{
    if items.len() == 0 {
        return None;
    }
    let mut ids: Vec<String> = Vec::new();
    let mut i: usize = 0;
    while i < items.len()
        invariant
            0 <= i <= items@.len(),
            views(ids@) == items@.take(i as int).map_values(|it: FeedItem| it.id@),
        decreases items.len() - i,
    {
        let ghost before = views(ids@);
        ids.push(items[i].id.clone());
        assert(views(ids@) =~= before.push(items@[i as int].id@));
        assert(items@.take(i + 1).map_values(|it: FeedItem| it.id@) =~= items@.take(i as int).map_values(
            |it: FeedItem| it.id@,
        ).push(items@[i as int].id@));
        i += 1;
    }
    assert(items@.take(items@.len() as int) =~= items@);
    let list = crate::text::join_strings(&ids, ",");
    let mut u = chars_of("http://export.arxiv.org/api/query?id_list=");
    push_str(&mut u, list.as_str());
    push_str(&mut u, "&max_results=50");
    Some(string_of(&u))
}

/// The string under a top-level key of a JSON object, as `serde_json`
/// reads the text (none when the text is not JSON, the key is missing or
/// its value is not a string).
pub uninterp spec fn json_string_field(body: Seq<char>, key: Seq<char>) -> Option<Seq<char>>;

/// `serde_json::from_str::<Value>` then `get(key)` and `as_str`.
#[verifier::external_body]
fn json_field(body: &str, key: &str) -> (r: Option<String>)
    ensures
        crate::models::opt_view(r) == json_string_field(body@, key@),
{
    serde_json::from_str::<serde_json::Value>(body)
        .ok()
        .and_then(|v| v.get(key).and_then(|f| f.as_str()).map(|s| s.to_string()))
}

/// The repository link in a Hugging Face paper API answer: its
/// `githubRepo` text when that is not empty and mentions `github.com`.
pub fn repo_from_api_body(body: &str) -> (r: Option<String>)
    ensures
        crate::models::opt_view(r) == match json_string_field(body@, "githubRepo"@) {
            Some(s) => if s.len() > 0 && contains_seq(s, "github.com"@) {
                Some(s)
            } else {
                None
            },
            None => None,
        },
{
    match json_field(body, "githubRepo") {
        Some(s) => {
            if s.as_str().unicode_len() > 0 && crate::strs::str_contains(s.as_str(), "github.com") {
                Some(s)
            } else {
                None
            }
        },
        None => None,
    }
}

} // verus!
