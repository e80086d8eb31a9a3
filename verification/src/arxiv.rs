//! The arXiv export API: query URLs and the Atom answer read into items.
use vstd::prelude::*;

use crate::models::{
    contains_string, detect_subtopics, map_arxiv_category, opt_str_view, opt_view, spec_arxiv_category_label, spec_signal,
    spec_subtopics, static_views, views, ContentType, FeedItem, SignalLevel, SourcePlatform, WorkflowState,
};
use crate::rss::FeedEntry;
use crate::strs::{
    chars_of, find_char_at, find_char_from, lemma_find_char_from_facts, str_eq, str_trim, string_of, sub_vec,
    to_owned_string, trim,
};
use crate::text::{collapse_whitespace, collapsed, truncate_chars, truncated};
use crate::github::utf8_string;
use crate::xml::{
    bytes_eq, is_last_event, lemma_stop_index, name_text, read_all_events, stop_index, take_string, xml_events,
    XmlEvent,
};

verus! {

broadcast use vstd::string::group_string_axioms;

// ---------------------------------------------------------------------------
// The scanner
// ---------------------------------------------------------------------------

/// What the Atom scanner has gathered so far.
pub ghost struct AtomScan {
    pub in_entry: bool,
    pub in_author: bool,
    /// Raw name of the last opened tag.
    pub tag: Seq<char>,
    pub title: Seq<char>,
    pub url: Seq<char>,
    pub published: Seq<char>,
    pub summary: Seq<char>,
    pub authors: Seq<Seq<char>>,
    /// The name being read inside `<author>`.
    pub author_name: Seq<char>,
    /// The `term` of each `<category/>`.
    pub terms: Seq<Seq<char>>,
}

/// The texts of one finished arXiv entry.
pub ghost struct AtomEntry {
    pub title: Seq<char>,
    pub url: Seq<char>,
    pub published: Seq<char>,
    pub summary: Seq<char>,
    pub authors: Seq<Seq<char>>,
    pub terms: Seq<Seq<char>>,
}

pub open spec fn atom_start_scan() -> AtomScan {
    AtomScan {
        in_entry: false,
        in_author: false,
        tag: Seq::empty(),
        title: Seq::empty(),
        url: Seq::empty(),
        published: Seq::empty(),
        summary: Seq::empty(),
        authors: Seq::empty(),
        author_name: Seq::empty(),
        terms: Seq::empty(),
    }
}

/// The bytes of `term`.
pub open spec fn term_key() -> Seq<u8> {
    seq![116u8, 101u8, 114u8, 109u8]
}

/// The terms gathered from the attributes of a `<category/>`: every `term`
/// whose value is UTF-8, in order.
pub open spec fn category_terms(attrs: Seq<(Vec<u8>, Vec<u8>)>) -> Seq<Seq<char>>
    decreases attrs.len(),
{
    if attrs.len() == 0 {
        Seq::empty()
    } else {
        let before = category_terms(attrs.drop_last());
        let kv = attrs.last();
        if kv.0@ == term_key() && vstd::utf8::valid_utf8(kv.1@) {
            before.push(vstd::utf8::decode_utf8(kv.1@))
        } else {
            before
        }
    }
}

pub open spec fn atom_start(s: AtomScan, tag: Seq<char>) -> AtomScan {
    let s1 = if tag == "entry"@ {
        AtomScan {
            in_entry: true,
            title: Seq::empty(),
            url: Seq::empty(),
            published: Seq::empty(),
            summary: Seq::empty(),
            authors: Seq::empty(),
            terms: Seq::empty(),
            ..s
        }
    } else if tag == "author"@ && s.in_entry {
        AtomScan { in_author: true, author_name: Seq::empty(), ..s }
    } else {
        s
    };
    AtomScan { tag: tag, ..s1 }
}

pub open spec fn atom_empty(s: AtomScan, tag: Seq<char>, attrs: Seq<(Vec<u8>, Vec<u8>)>) -> AtomScan {
    if s.in_entry && tag == "category"@ {
        AtomScan { terms: s.terms + category_terms(attrs), ..s }
    } else {
        s
    }
}

pub open spec fn atom_text(s: AtomScan, text: Seq<char>) -> AtomScan {
    if !s.in_entry {
        s
    } else if s.in_author && s.tag == "name"@ {
        AtomScan { author_name: s.author_name + text, ..s }
    } else if s.tag == "title"@ {
        AtomScan { title: s.title + text, ..s }
    } else if s.tag == "id"@ {
        AtomScan { url: s.url + text, ..s }
    } else if s.tag == "published"@ {
        AtomScan { published: s.published + text, ..s }
    } else if s.tag == "summary"@ {
        AtomScan { summary: s.summary + text, ..s }
    } else {
        s
    }
}

pub open spec fn atom_entry_of(s: AtomScan) -> AtomEntry {
    AtomEntry {
        title: s.title,
        url: s.url,
        published: s.published,
        summary: s.summary,
        authors: s.authors,
        terms: s.terms,
    }
}

/// A closing tag: `</author>` keeps the trimmed name if there is one,
/// `</entry>` finishes the entry.
pub open spec fn atom_end(s: AtomScan, tag: Seq<char>) -> (AtomScan, Option<AtomEntry>) {
    let s1 = if s.in_entry && tag == "author"@ {
        let name = trim(s.author_name);
        AtomScan {
            in_author: false,
            authors: if name.len() > 0 { s.authors.push(name) } else { s.authors },
            author_name: Seq::empty(),
            ..s
        }
    } else {
        s
    };
    if s1.in_entry && tag == "entry"@ {
        let s2 = AtomScan { in_entry: false, tag: Seq::empty(), ..s1 };
        (
            AtomScan {
                title: Seq::empty(),
                url: Seq::empty(),
                published: Seq::empty(),
                summary: Seq::empty(),
                authors: Seq::empty(),
                terms: Seq::empty(),
                ..s2
            },
            Some(atom_entry_of(s2)),
        )
    } else {
        (s1, None)
    }
}

pub open spec fn atom_step(s: AtomScan, e: XmlEvent) -> (AtomScan, Option<AtomEntry>) {
    match e {
        XmlEvent::Start(raw) => (atom_start(s, name_text(raw@)), None),
        XmlEvent::Empty(raw, attrs) => (atom_empty(s, name_text(raw@), attrs@), None),
        XmlEvent::Text(t) => {
            let text = match t {
                Some(x) => x@,
                None => Seq::empty(),
            };
            (atom_text(s, text), None)
        },
        XmlEvent::End(raw) => atom_end(s, name_text(raw@)),
        _ => (s, None),
    }
}

pub open spec fn atom_scan(events: Seq<XmlEvent>, n: int) -> (AtomScan, Seq<AtomEntry>)
    decreases n,
{
    if n <= 0 {
        (atom_start_scan(), Seq::empty())
    } else {
        let (s, out) = atom_scan(events, n - 1);
        let (s2, o) = atom_step(s, events[n - 1]);
        (
            s2,
            match o {
                Some(en) => out.push(en),
                None => out,
            },
        )
    }
}

/// The entries of an arXiv answer, or the parse error that ends it.
pub open spec fn atom_entries(events: Seq<XmlEvent>) -> Result<Seq<AtomEntry>, Seq<char>> {
    let k = stop_index(events, 0);
    if k < events.len() && events[k] is Error {
        Err("XML parse error: "@ + events[k]->Error_0@)
    } else {
        Ok(atom_scan(events, k).1)
    }
}

// ---------------------------------------------------------------------------
// Items
// ---------------------------------------------------------------------------

/// The labels of the mapped category codes, in order.
pub open spec fn mapped_labels(terms: Seq<Seq<char>>) -> Seq<Seq<char>>
    decreases terms.len(),
{
    if terms.len() == 0 {
        Seq::empty()
    } else {
        let before = mapped_labels(terms.drop_last());
        match spec_arxiv_category_label(terms.last()) {
            Some(l) => before.push(l),
            None => before,
        }
    }
}

/// `base` followed by each of `extra` not already present.
pub open spec fn add_missing(base: Seq<Seq<char>>, extra: Seq<Seq<char>>) -> Seq<Seq<char>>
    decreases extra.len(),
{
    if extra.len() == 0 {
        base
    } else {
        let before = add_missing(base, extra.drop_last());
        if before.contains(extra.last()) {
            before
        } else {
            before.push(extra.last())
        }
    }
}

/// What `add_missing` adds comes after `base`, which stays as it is.
proof fn lemma_add_missing_keeps_base(base: Seq<Seq<char>>, extra: Seq<Seq<char>>)
    ensures
        add_missing(base, extra).len() >= base.len(),
        add_missing(base, extra).take(base.len() as int) == base,
    decreases extra.len(),
{
    if extra.len() > 0 {
        lemma_add_missing_keeps_base(base, extra.drop_last());
        let before = add_missing(base, extra.drop_last());
        if !before.contains(extra.last()) {
            assert(before.push(extra.last()).take(base.len() as int) =~= before.take(base.len() as int));
        }
    }
}

/// `add_missing` keeps everything of both lists and nothing else.
proof fn lemma_add_missing_members(base: Seq<Seq<char>>, extra: Seq<Seq<char>>)
    ensures
        forall|x: Seq<char>| extra.contains(x) ==> add_missing(base, extra).contains(x),
        forall|x: Seq<char>| base.contains(x) ==> add_missing(base, extra).contains(x),
        forall|x: Seq<char>| add_missing(base, extra).contains(x) ==> base.contains(x) || extra.contains(x),
    decreases extra.len(),
{
    if extra.len() > 0 {
        let e = extra.drop_last();
        lemma_add_missing_members(base, e);
        let before = add_missing(base, e);
        let last = extra.last();
        assert forall|x: Seq<char>| e.contains(x) implies extra.contains(x) by {
            let k = choose|k: int| 0 <= k < e.len() && e[k] == x;
            assert(extra[k] == x);
        }
        assert(extra[extra.len() - 1] == last);
        if !before.contains(last) {
            let r = before.push(last);
            assert(r[before.len() as int] == last);
            assert forall|x: Seq<char>| before.contains(x) implies r.contains(x) by {
                let k = choose|k: int| 0 <= k < before.len() && before[k] == x;
                assert(r[k] == x);
            }
            assert forall|x: Seq<char>| r.contains(x) implies base.contains(x) || extra.contains(x) by {
                let k = choose|k: int| 0 <= k < r.len() && r[k] == x;
                if k < before.len() {
                    assert(before[k] == x);
                }
            }
        }
        if before.contains(last) {
            assert(add_missing(base, extra) == before);
        } else {
            assert(add_missing(base, extra) == before.push(last));
            assert(before.push(last)[before.len() as int] == last);
        }
        assert(add_missing(base, extra).contains(last));
        assert forall|x: Seq<char>| extra.contains(x) implies add_missing(base, extra).contains(x) by {
            let k = choose|k: int| 0 <= k < extra.len() && extra[k] == x;
            if k < extra.len() - 1 {
                assert(e[k] == x);
                assert(e.contains(x));
                assert(before.contains(x));
                if !before.contains(last) {
                    let kk = choose|kk: int| 0 <= kk < before.len() && before[kk] == x;
                    assert(before.push(last)[kk] == x);
                }
            } else {
                assert(x == last);
            }
        }
    }
}

/// The labels of a list of terms are those of its two parts, one after the
/// other.
pub proof fn law_mapped_labels_concat(a: Seq<Seq<char>>, b: Seq<Seq<char>>)
    ensures
        mapped_labels(a + b) == mapped_labels(a) + mapped_labels(b),
    decreases b.len(),
{
    if b.len() == 0 {
        assert(a + b =~= a);
        assert(mapped_labels(a) + mapped_labels(b) =~= mapped_labels(a));
    } else {
        law_mapped_labels_concat(a, b.drop_last());
        assert((a + b).drop_last() =~= a + b.drop_last());
        assert((a + b).last() == b.last());
        match spec_arxiv_category_label(b.last()) {
            Some(l) => {
                assert(mapped_labels(a) + mapped_labels(b.drop_last()).push(l) =~= (mapped_labels(a) + mapped_labels(
                    b.drop_last(),
                )).push(l));
            },
            None => {},
        }
    }
}

/// One term gives its label, or nothing when it has none.
pub proof fn law_mapped_labels_single(t: Seq<char>)
    ensures
        mapped_labels(seq![t]) == match spec_arxiv_category_label(t) {
            Some(l) => seq![l],
            None => Seq::<Seq<char>>::empty(),
        },
{
    assert(seq![t].drop_last() =~= Seq::<Seq<char>>::empty());
    assert(seq![t].last() == t);
    assert(mapped_labels(Seq::<Seq<char>>::empty()) =~= Seq::<Seq<char>>::empty());
    match spec_arxiv_category_label(t) {
        Some(l) => assert(Seq::<Seq<char>>::empty().push(l) =~= seq![l]),
        None => {},
    }
}

proof fn lemma_mapped_labels_contains(terms: Seq<Seq<char>>, i: int)
    requires
        0 <= i < terms.len(),
        spec_arxiv_category_label(terms[i]) is Some,
    ensures
        mapped_labels(terms).contains(spec_arxiv_category_label(terms[i])->0),
    decreases terms.len(),
{
    let before = mapped_labels(terms.drop_last());
    if i == terms.len() - 1 {
        let l = spec_arxiv_category_label(terms[i])->0;
        assert(before.push(l)[before.len() as int] == l);
    } else {
        lemma_mapped_labels_contains(terms.drop_last(), i);
        let l = spec_arxiv_category_label(terms[i])->0;
        let k = choose|k: int| 0 <= k < before.len() && before[k] == l;
        match spec_arxiv_category_label(terms.last()) {
            Some(m) => assert(before.push(m)[k] == l),
            None => {},
        }
    }
}

/// The date part of an arXiv timestamp: what precedes the first `T`.
pub open spec fn date_part(published: Seq<char>) -> Seq<char> {
    match find_char_from(published, 'T', 0) {
        Some(p) => published.subrange(0, p),
        None => published,
    }
}

/// The date of a timestamp is the part before its first `T`: it begins the
/// timestamp, holds no `T`, and is followed by a `T` unless it is all of it.
pub proof fn law_date_part_before_t(published: Seq<char>)
    ensures
        date_part(published).len() <= published.len(),
        published.take(date_part(published).len() as int) == date_part(published),
        !date_part(published).contains('T'),
        date_part(published).len() < published.len() ==> published[date_part(published).len() as int] == 'T',
{
    lemma_find_char_from_facts(published, 'T', 0);
    let d = date_part(published);
    assert(published.take(d.len() as int) =~= d);
    if d.contains('T') {
        let k = choose|k: int| 0 <= k < d.len() && d[k] == 'T';
        assert(published[k] == 'T');
    }
}

/// The feed item an arXiv entry becomes.
pub open spec fn is_arxiv_item(item: FeedItem, e: AtomEntry) -> bool {
    let title = collapsed(e.title);
    let summary = truncated(collapsed(e.summary), 300);
    &&& item.id@ == e.url
    &&& item.url@ == e.url
    &&& item.title@ == title
    &&& item.source_platform == SourcePlatform::ArXiv
    &&& item.content_type == ContentType::Paper
    &&& views(item.domain_tags@) == add_missing(mapped_labels(e.terms), spec_subtopics(title, summary))
    &&& item.signal == SignalLevel::Primary
    &&& item.published_at@ == date_part(e.published)
    &&& views(item.authors@) == e.authors
    &&& item.summary_short@ == summary
    &&& item.workflow_state == WorkflowState::Inbox
    &&& item.upvote_count == 0
    &&& item.github_repo is None
    &&& item.github_owner is None
    &&& item.github_repo_name is None
    &&& item.benchmark_results@.len() == 0
    &&& item.full_content is None
    &&& item.source_name@ == "arxiv"@
    &&& item.title_lower@.len() == 0
    &&& item.authors_lower@.len() == 0
}

/// The domain tags of an arXiv item begin with the labels of its category
/// terms, one per term that has a label, in order; so every such label is
/// among them.
pub proof fn law_arxiv_tags_cover_categories(item: FeedItem, e: AtomEntry, i: int)
    requires
        is_arxiv_item(item, e),
        0 <= i < e.terms.len(),
        spec_arxiv_category_label(e.terms[i]) is Some,
    ensures
        views(item.domain_tags@).take(mapped_labels(e.terms).len() as int) == mapped_labels(e.terms),
        views(item.domain_tags@).contains(spec_arxiv_category_label(e.terms[i])->0),
{
    let title = collapsed(e.title);
    let summary = truncated(collapsed(e.summary), 300);
    let m = mapped_labels(e.terms);
    lemma_add_missing_keeps_base(m, spec_subtopics(title, summary));
    lemma_mapped_labels_contains(e.terms, i);
    let l = spec_arxiv_category_label(e.terms[i])->0;
    let k = choose|k: int| 0 <= k < m.len() && m[k] == l;
    let d = views(item.domain_tags@);
    assert(d.take(m.len() as int)[k] == d[k]);
}

/// Besides the category labels, an arXiv item's domain tags hold each
/// subtopic found in its title and summary, and nothing else.
pub proof fn law_arxiv_tags_add_subtopics(item: FeedItem, e: AtomEntry)
    requires
        is_arxiv_item(item, e),
    ensures
        forall|x: Seq<char>|
            spec_subtopics(collapsed(e.title), truncated(collapsed(e.summary), 300)).contains(x) ==> views(
                item.domain_tags@,
            ).contains(x),
        forall|x: Seq<char>|
            views(item.domain_tags@).contains(x) ==> mapped_labels(e.terms).contains(x) || spec_subtopics(
                collapsed(e.title),
                truncated(collapsed(e.summary), 300),
            ).contains(x),
{
    lemma_add_missing_members(
        mapped_labels(e.terms),
        spec_subtopics(collapsed(e.title), truncated(collapsed(e.summary), 300)),
    );
}

/// What reading an arXiv answer gives: its parse error, or one item per
/// entry, in order.
pub open spec fn atom_result_ok(r: Result<Vec<FeedItem>, String>, events: Seq<XmlEvent>) -> bool {
    match atom_entries(events) {
        Err(msg) => r matches Err(m) && m@ == msg,
        Ok(entries) => r matches Ok(items) && items@.len() == entries.len() && forall|i: int|
            0 <= i < entries.len() ==> is_arxiv_item(#[trigger] items@[i], entries[i]),
    }
}

// ---------------------------------------------------------------------------
// Executable scanner
// ---------------------------------------------------------------------------

struct AtomState {
    in_entry: bool,
    in_author: bool,
    tag: String,
    title: String,
    url: String,
    published: String,
    summary: String,
    authors: Vec<String>,
    author_name: String,
    terms: Vec<String>,
}

impl AtomState {
    spec fn scan(&self) -> AtomScan {
        AtomScan {
            in_entry: self.in_entry,
            in_author: self.in_author,
            tag: self.tag@,
            title: self.title@,
            url: self.url@,
            published: self.published@,
            summary: self.summary@,
            authors: views(self.authors@),
            author_name: self.author_name@,
            terms: views(self.terms@),
        }
    }
}

struct AtomRaw {
    title: String,
    url: String,
    published: String,
    summary: String,
    authors: Vec<String>,
    terms: Vec<String>,
}

impl AtomRaw {
    spec fn entry(&self) -> AtomEntry {
        AtomEntry {
            title: self.title@,
            url: self.url@,
            published: self.published@,
            summary: self.summary@,
            authors: views(self.authors@),
            terms: views(self.terms@),
        }
    }
}

spec fn atom_raws(v: Seq<AtomRaw>) -> Seq<AtomEntry> {
    v.map_values(|e: AtomRaw| e.entry())
}

fn take_strings(v: &mut Vec<String>) -> (r: Vec<String>)
    ensures
        r == *old(v),
        final(v)@.len() == 0,
{
    let mut t: Vec<String> = Vec::new();
    std::mem::swap(v, &mut t);
    t
}

fn push_terms(terms: &mut Vec<String>, attrs: &Vec<(Vec<u8>, Vec<u8>)>)
    ensures
        views(final(terms)@) == views(old(terms)@) + category_terms(attrs@),
{
    let key: Vec<u8> = vec![116u8, 101u8, 114u8, 109u8];
    assert(key@ =~= term_key());
    let ghost start = views(terms@);
    let mut i: usize = 0;
    assert(attrs@.take(0) =~= Seq::<(Vec<u8>, Vec<u8>)>::empty());
    assert(start + category_terms(attrs@.take(0)) =~= start);
    while i < attrs.len()
        invariant
            0 <= i <= attrs@.len(),
            key@ == term_key(),
            views(terms@) == start + category_terms(attrs@.take(i as int)),
        decreases attrs.len() - i,
    {
        assert(attrs@.take(i + 1).drop_last() =~= attrs@.take(i as int));
        assert(attrs@.take(i + 1).last() == attrs@[i as int]);
        let ghost before = views(terms@);
        let kv = &attrs[i];
        if bytes_eq(&kv.0, &key) {
            match utf8_string(kv.1.clone()) {
                Some(v) => {
                    let ghost vv = v@;
                    terms.push(v);
                    assert(views(terms@) =~= before.push(vv));
                },
                None => {},
            }
        }
        i += 1;
    }
    assert(attrs@.take(attrs@.len() as int) =~= attrs@);
}

fn atom_take_start(st: &mut AtomState, tag: String)
    ensures
        final(st).scan() == atom_start(old(st).scan(), tag@),
{
    if str_eq(tag.as_str(), "entry") {
        st.in_entry = true;
        st.title = String::new();
        st.url = String::new();
        st.published = String::new();
        st.summary = String::new();
        st.authors = Vec::new();
        st.terms = Vec::new();
        assert(views(st.authors@) =~= Seq::<Seq<char>>::empty());
        assert(views(st.terms@) =~= Seq::<Seq<char>>::empty());
    } else if str_eq(tag.as_str(), "author") && st.in_entry {
        st.in_author = true;
        st.author_name = String::new();
    }
    st.tag = tag;
}

fn atom_take_empty(st: &mut AtomState, tag: String, attrs: &Vec<(Vec<u8>, Vec<u8>)>)
    ensures
        final(st).scan() == atom_empty(old(st).scan(), tag@, attrs@),
{
    if st.in_entry && str_eq(tag.as_str(), "category") {
        push_terms(&mut st.terms, attrs);
    }
}

fn atom_take_text(st: &mut AtomState, text: &str)
    ensures
        final(st).scan() == atom_text(old(st).scan(), text@),
{
    if !st.in_entry {
        return;
    }
    if st.in_author && str_eq(st.tag.as_str(), "name") {
        st.author_name.append(text);
    } else if str_eq(st.tag.as_str(), "title") {
        st.title.append(text);
    } else if str_eq(st.tag.as_str(), "id") {
        st.url.append(text);
    } else if str_eq(st.tag.as_str(), "published") {
        st.published.append(text);
    } else if str_eq(st.tag.as_str(), "summary") {
        st.summary.append(text);
    }
}

fn atom_take_end(st: &mut AtomState, tag: String) -> (o: Option<AtomRaw>)
    ensures
        final(st).scan() == atom_end(old(st).scan(), tag@).0,
        match o {
            Some(r) => atom_end(old(st).scan(), tag@).1 == Some(r.entry()),
            None => atom_end(old(st).scan(), tag@).1 is None,
        },
{
    if st.in_entry && str_eq(tag.as_str(), "author") {
        st.in_author = false;
        let name = str_trim(st.author_name.as_str());
        if name.unicode_len() > 0 {
            let ghost before = views(st.authors@);
            let n = to_owned_string(name);
            st.authors.push(n);
            assert(views(st.authors@) =~= before.push(trim(st.author_name@)));
        }
        st.author_name = String::new();
    }
    if st.in_entry && str_eq(tag.as_str(), "entry") {
        st.in_entry = false;
        st.tag = String::new();
        let entry = AtomRaw {
            title: take_string(&mut st.title),
            url: take_string(&mut st.url),
            published: take_string(&mut st.published),
            summary: take_string(&mut st.summary),
            authors: take_strings(&mut st.authors),
            terms: take_strings(&mut st.terms),
        };
        assert(views(st.authors@) =~= Seq::<Seq<char>>::empty());
        assert(views(st.terms@) =~= Seq::<Seq<char>>::empty());
        return Some(entry);
    }
    None
}

fn atom_take_event(st: &mut AtomState, e: &XmlEvent) -> (o: Option<AtomRaw>)
    ensures
        final(st).scan() == atom_step(old(st).scan(), *e).0,
        match o {
            Some(r) => atom_step(old(st).scan(), *e).1 == Some(r.entry()),
            None => atom_step(old(st).scan(), *e).1 is None,
        },
{
    match e {
        XmlEvent::Start(raw) => {
            atom_take_start(st, crate::xml::raw_name(raw));
            None
        },
        XmlEvent::Empty(raw, attrs) => {
            atom_take_empty(st, crate::xml::raw_name(raw), attrs);
            None
        },
        XmlEvent::Text(t) => {
            match t {
                Some(x) => atom_take_text(st, x.as_str()),
                None => {
                    proof { reveal_strlit(""); }
                    atom_take_text(st, "");
                },
            }
            None
        },
        XmlEvent::End(raw) => atom_take_end(st, crate::xml::raw_name(raw)),
        _ => None,
    }
}

fn scan_atom(events: &Vec<XmlEvent>) -> (r: Result<Vec<AtomRaw>, String>)
    ensures
        match atom_entries(events@) {
            Err(msg) => r matches Err(m) && m@ == msg,
            Ok(entries) => r matches Ok(v) && atom_raws(v@) == entries,
        },
{
    let mut st = AtomState {
        in_entry: false,
        in_author: false,
        tag: String::new(),
        title: String::new(),
        url: String::new(),
        published: String::new(),
        summary: String::new(),
        authors: Vec::new(),
        author_name: String::new(),
        terms: Vec::new(),
    };
    assert(views(st.authors@) =~= Seq::<Seq<char>>::empty());
    assert(views(st.terms@) =~= Seq::<Seq<char>>::empty());
    assert(st.scan() == atom_start_scan());
    let mut out: Vec<AtomRaw> = Vec::new();
    let mut i: usize = 0;
    proof { lemma_stop_index(events@, 0); }
    assert(atom_raws(out@) =~= Seq::<AtomEntry>::empty());
    while i < events.len()
        invariant
            0 <= i <= events@.len(),
            i <= stop_index(events@, 0),
            forall|k: int| 0 <= k < stop_index(events@, 0) ==> !is_last_event(#[trigger] events@[k]),
            stop_index(events@, 0) < events@.len() ==> is_last_event(events@[stop_index(events@, 0)]),
            st.scan() == atom_scan(events@, i as int).0,
            atom_raws(out@) == atom_scan(events@, i as int).1,
        decreases events.len() - i,
    {
        match &events[i] {
            XmlEvent::Eof => {
                assert(stop_index(events@, 0) == i);
                return Ok(out);
            },
            XmlEvent::Error(msg) => {
                assert(stop_index(events@, 0) == i);
                let mut m = chars_of("XML parse error: ");
                crate::strs::push_str(&mut m, msg.as_str());
                return Err(string_of(&m));
            },
            _ => {},
        }
        let ghost before = atom_raws(out@);
        let o = atom_take_event(&mut st, &events[i]);
        match o {
            Some(en) => {
                out.push(en);
                assert(atom_raws(out@) =~= before.push(en.entry()));
            },
            None => {},
        }
        i += 1;
    }
    Ok(out)
}


fn mapped_tags(terms: &Vec<String>) -> (r: Vec<String>)
    ensures
        views(r@) == mapped_labels(views(terms@)),
{
    let mut r: Vec<String> = Vec::new();
    let mut i: usize = 0;
    while i < terms.len()
        invariant
            0 <= i <= terms@.len(),
            views(r@) == mapped_labels(views(terms@).take(i as int)),
        decreases terms.len() - i,
    {
        assert(views(terms@).take(i + 1).drop_last() =~= views(terms@).take(i as int));
        assert(views(terms@).take(i + 1).last() == terms@[i as int]@);
        let ghost before = views(r@);
        match map_arxiv_category(terms[i].as_str()) {
            Some(l) => {
                r.push(to_owned_string(l));
                assert(views(r@) =~= before.push(l@));
            },
            None => {},
        }
        i += 1;
    }
    assert(views(terms@).take(terms@.len() as int) =~= views(terms@));
    r
}

fn add_missing_labels(base: &mut Vec<String>, extra: &Vec<&'static str>)
    ensures
        views(final(base)@) == add_missing(views(old(base)@), static_views(extra@)),
{
    let ghost b0 = views(base@);
    let mut i: usize = 0;
    assert(static_views(extra@).take(0) =~= Seq::<Seq<char>>::empty());
    while i < extra.len()
        invariant
            0 <= i <= extra@.len(),
            views(base@) == add_missing(b0, static_views(extra@).take(i as int)),
        decreases extra.len() - i,
    {
        assert(static_views(extra@).take(i + 1).drop_last() =~= static_views(extra@).take(i as int));
        assert(static_views(extra@).take(i + 1).last() == extra@[i as int]@);
        if !contains_string(base, extra[i]) {
            let ghost before = views(base@);
            base.push(to_owned_string(extra[i]));
            assert(views(base@) =~= before.push(extra@[i as int]@));
        }
        i += 1;
    }
    assert(static_views(extra@).take(extra@.len() as int) =~= static_views(extra@));
}

fn date_of(published: &str) -> (r: String)
    ensures
        r@ == date_part(published@),
{
    let v = chars_of(published);
    proof { lemma_find_char_from_facts(v@, 'T', 0); }
    match find_char_at(&v, 'T', 0) {
        Some(p) => {
            assert(find_char_from(v@, 'T', 0) == Some(p as int));
            let head = sub_vec(&v, 0, p);
            string_of(&head)
        },
        None => to_owned_string(published),
    }
}

fn arxiv_item(e: AtomRaw) -> (item: FeedItem)
    ensures
        is_arxiv_item(item, e.entry()),
{
    let ghost ent = e.entry();
    let clean_title = collapse_whitespace(e.title.as_str());
    let collapsed_summary = collapse_whitespace(e.summary.as_str());
    let summary_short = truncate_chars(collapsed_summary.as_str(), 300);
    let date = date_of(e.published.as_str());
    let mut mapped = mapped_tags(&e.terms);
    let subtopics = detect_subtopics(clean_title.as_str(), summary_short.as_str());
    add_missing_labels(&mut mapped, &subtopics);
    let mut item = FeedItem {
        id: e.url.clone(),
        title: clean_title,
        source_platform: SourcePlatform::ArXiv,
        content_type: ContentType::Paper,
        domain_tags: mapped,
        signal: SignalLevel::Primary,
        published_at: date,
        authors: e.authors,
        summary_short,
        workflow_state: WorkflowState::Inbox,
        url: e.url,
        upvote_count: 0,
        github_repo: None,
        github_owner: None,
        github_repo_name: None,
        benchmark_results: Vec::new(),
        full_content: None,
        source_name: to_owned_string("arxiv"),
        title_lower: String::new(),
        authors_lower: Vec::new(),
    };
    item.signal = item.compute_signal();
    item
}

/// The feed items of an arXiv Atom answer's events (see `atom_result_ok`).
pub fn atom_from_events(events: &Vec<XmlEvent>) -> (r: Result<Vec<FeedItem>, String>)
    ensures
        atom_result_ok(r, events@),
{
    let entries = match scan_atom(events) {
        Ok(v) => v,
        Err(m) => {
            return Err(m);
        },
    };
    let ghost es = atom_raws(entries@);
    let mut items: Vec<FeedItem> = Vec::new();
    let mut rest = entries;
    let ghost n = es.len();
    assert(atom_raws(rest@) =~= es.subrange(0, n as int));
    while rest.len() > 0
        invariant
            atom_entries(events@) == Ok::<Seq<AtomEntry>, Seq<char>>(es),
            n == es.len(),
            items@.len() + rest@.len() == n,
            atom_raws(rest@) == es.subrange(items@.len() as int, n as int),
            forall|k: int| 0 <= k < items@.len() ==> is_arxiv_item(#[trigger] items@[k], es[k]),
        decreases rest.len(),
    {
        let ghost k = items@.len() as int;
        let ghost before = rest@;
        let e = rest.remove(0);
        assert(e.entry() == atom_raws(before)[0]);
        assert(atom_raws(rest@) =~= atom_raws(before).drop_first());
        let item = arxiv_item(e);
        items.push(item);
    }
    Ok(items)
}

/// Parse an arXiv Atom answer into feed items.
pub fn parse_atom(xml: &str) -> (r: Result<Vec<FeedItem>, String>)
    ensures
        atom_result_ok(r, xml_events(xml@, true)),
{
    let events = read_all_events(xml);
    atom_from_events(&events)
}

// ---------------------------------------------------------------------------
// Query URLs
// ---------------------------------------------------------------------------

/// A byte kept as it is in a query: ASCII letters and digits and `-_.~`.
pub open spec fn unreserved(b: u8) -> bool {
    (48 <= b <= 57) || (65 <= b <= 90) || (97 <= b <= 122) || b == 45 || b == 95 || b == 46 || b == 126
}

/// An upper-case hexadecimal digit.
pub open spec fn hex_digit(d: int) -> char {
    if d < 10 {
        crate::strs::digit_char(d)
    } else if d == 10 {
        'A'
    } else if d == 11 {
        'B'
    } else if d == 12 {
        'C'
    } else if d == 13 {
        'D'
    } else if d == 14 {
        'E'
    } else {
        'F'
    }
}

/// One byte percent-encoded: itself when unreserved, else `%XX`.
pub open spec fn encode_byte(b: u8) -> Seq<char> {
    if unreserved(b) {
        seq![b as char]
    } else {
        seq!['%', hex_digit(b as int / 16), hex_digit(b as int % 16)]
    }
}

/// The bytes percent-encoded one by one.
pub open spec fn percent_encoded(bs: Seq<u8>) -> Seq<char>
    decreases bs.len(),
{
    if bs.len() == 0 {
        Seq::empty()
    } else {
        percent_encoded(bs.drop_last()) + encode_byte(bs.last())
    }
}

/// An upper-case hexadecimal digit.
pub fn hex_char_pub(d: u8) -> (c: char)
    requires
        d < 16,
    ensures
        c == hex_digit(d as int),
{
    hex_char(d)
}

fn hex_char(d: u8) -> (c: char)
    requires
        d < 16,
    ensures
        c == hex_digit(d as int),
{
    if d < 10 {
        crate::strs::digit(d as u64)
    } else if d == 10 {
        'A'
    } else if d == 11 {
        'B'
    } else if d == 12 {
        'C'
    } else if d == 13 {
        'D'
    } else if d == 14 {
        'E'
    } else {
        'F'
    }
}

/// Percent-encode one word of a query, byte by byte of its UTF-8.
pub fn percent_encode_query_part(part: &str) -> (r: String)
    ensures
        r@ == percent_encoded(vstd::utf8::encode_utf8(part@)),
{
    let bytes = part.as_bytes();
    let mut out: Vec<char> = Vec::new();
    let mut i: usize = 0;
    while i < bytes.len()
        invariant
            0 <= i <= bytes@.len(),
            bytes@ == vstd::utf8::encode_utf8(part@),
            out@ == percent_encoded(bytes@.take(i as int)),
        decreases bytes.len() - i,
    {
        let b = bytes[i];
        assert(bytes@.take(i + 1).drop_last() =~= bytes@.take(i as int));
        assert(bytes@.take(i + 1).last() == b);
        let ghost before = out@;
        if (48 <= b && b <= 57) || (65 <= b && b <= 90) || (97 <= b && b <= 122) || b == 45 || b == 95 || b == 46
            || b == 126 {
            let c = crate::strs::char_from_ascii(b as u32);
            out.push(c);
            assert(c == b as char);
        } else {
            out.push('%');
            out.push(hex_char(b / 16));
            out.push(hex_char(b % 16));
        }
        assert(out@ =~= before + encode_byte(b));
        i += 1;
    }
    assert(bytes@.take(bytes@.len() as int) =~= bytes@);
    string_of(&out)
}

/// Free-text query words, each percent-encoded, joined with `+AND+`.
pub fn encode_arxiv_query(query: &str) -> (r: String)
    ensures
        r@ == crate::text::join_with(
            crate::text::words(query@).map_values(|w: Seq<char>| percent_encoded(vstd::utf8::encode_utf8(w))),
            "+AND+"@,
        ),
{
    let v = chars_of(query);
    let ws = crate::text::split_words(&v);
    let ghost target = crate::text::words(query@).map_values(|w: Seq<char>| percent_encoded(vstd::utf8::encode_utf8(w)));
    let mut out: Vec<char> = Vec::new();
    let mut i: usize = 0;
    while i < ws.len()
        invariant
            0 <= i <= ws@.len(),
            crate::text::char_vecs(ws@) == crate::text::words(query@),
            target.len() == ws@.len(),
            target == crate::text::words(query@).map_values(|w: Seq<char>| percent_encoded(vstd::utf8::encode_utf8(w))),
            out@ == crate::text::join_with(target.take(i as int), "+AND+"@),
        decreases ws.len() - i,
    {
        let w = string_of(&ws[i]);
        assert(w@ == crate::text::char_vecs(ws@)[i as int]);
        let enc = percent_encode_query_part(w.as_str());
        proof {
            crate::text::lemma_join_push(target.take(i as int), "+AND+"@, target[i as int]);
            assert(target.take(i + 1) =~= target.take(i as int).push(target[i as int]));
        }
        if i > 0 {
            crate::strs::push_str(&mut out, "+AND+");
        }
        crate::strs::push_str(&mut out, enc.as_str());
        i += 1;
    }
    assert(target.take(ws@.len() as int) =~= target);
    string_of(&out)
}

/// The search part of the feed query: the given category codes, or the
/// default ML categories when there are none.
pub open spec fn spec_categories_query(categories: Seq<Seq<char>>) -> Seq<char> {
    if categories.len() == 0 {
        "cat:cs.LG+OR+cat:cs.AI+OR+cat:stat.ML"@
    } else {
        crate::text::join_with(categories.map_values(|c: Seq<char>| "cat:"@ + c), "+OR+"@)
    }
}

pub open spec fn spec_fetch_url(categories: Seq<Seq<char>>) -> Seq<char> {
    "http://export.arxiv.org/api/query?search_query="@ + spec_categories_query(categories)
        + "&sortBy=submittedDate&sortOrder=descending&max_results=50"@
}

/// The URL of the newest 50 papers in the given categories.
pub fn fetch_url(categories: &Vec<String>) -> (r: String)
    ensures
        r@ == spec_fetch_url(views(categories@)),
{
    let query = if categories.len() == 0 {
        to_owned_string("cat:cs.LG+OR+cat:cs.AI+OR+cat:stat.ML")
    } else {
        let mut parts: Vec<String> = Vec::new();
        let mut i: usize = 0;
        while i < categories.len()
            invariant
                0 <= i <= categories@.len(),
                views(parts@) == views(categories@).take(i as int).map_values(|c: Seq<char>| "cat:"@ + c),
            decreases categories.len() - i,
        {
            let mut p = chars_of("cat:");
            crate::strs::push_str(&mut p, categories[i].as_str());
            let ghost before = views(parts@);
            let item = string_of(&p);
            assert(item@ == "cat:"@ + categories@[i as int]@);
            parts.push(item);
            assert(views(parts@) =~= before.push("cat:"@ + categories@[i as int]@));
            assert(views(categories@).take(i + 1) =~= views(categories@).take(i as int).push(categories@[i as int]@));
            assert(views(categories@).take(i + 1).map_values(|c: Seq<char>| "cat:"@ + c) =~= views(categories@).take(
                i as int,
            ).map_values(|c: Seq<char>| "cat:"@ + c).push("cat:"@ + categories@[i as int]@));
            i += 1;
        }
        assert(views(categories@).take(categories@.len() as int) =~= views(categories@));
        crate::text::join_strings(&parts, "+OR+")
    };
    let mut u = chars_of("http://export.arxiv.org/api/query?search_query=");
    crate::strs::push_str(&mut u, query.as_str());
    crate::strs::push_str(&mut u, "&sortBy=submittedDate&sortOrder=descending&max_results=50");
    string_of(&u)
}

pub open spec fn spec_search_query_url(query: Seq<char>, max_results: nat) -> Seq<char> {
    "http://export.arxiv.org/api/query?search_query=all:"@ + crate::text::join_with(
        crate::text::words(query).map_values(|w: Seq<char>| percent_encoded(vstd::utf8::encode_utf8(w))),
        "+AND+"@,
    ) + "&sortBy=submittedDate&sortOrder=descending&max_results="@ + crate::strs::decimal(
        if max_results < 100 { max_results } else { 100 },
    )
}

/// The URL of a free-text search over all fields, newest first, asking for
/// at most `max_results` (capped at 100).
pub fn search_query_url(query: &str, max_results: usize) -> (r: String)
    ensures
        r@ == spec_search_query_url(query@, max_results as nat),
{
    let encoded = encode_arxiv_query(query);
    let mut u = chars_of("http://export.arxiv.org/api/query?search_query=all:");
    crate::strs::push_str(&mut u, encoded.as_str());
    crate::strs::push_str(&mut u, "&sortBy=submittedDate&sortOrder=descending&max_results=");
    let n: u64 = if max_results < 100 { max_results as u64 } else { 100 };
    crate::strs::push_decimal(&mut u, n);
    string_of(&u)
}

pub open spec fn spec_fetch_by_ids_url(ids: Seq<Seq<char>>) -> Option<Seq<char>> {
    let normalized = crate::discovery::keep_some(ids, crate::discovery::rule_fn(crate::discovery::TextRule::PaperId));
    if normalized.len() == 0 {
        None
    } else {
        Some(
            "http://export.arxiv.org/api/query?id_list="@ + crate::text::join_with(normalized, ","@)
                + "&max_results="@ + crate::strs::decimal(
                if normalized.len() < 100 { normalized.len() } else { 100 },
            ),
        )
    }
}

/// The URL that looks up the given papers, after normalising each id; none
/// when no id is valid.
pub fn fetch_by_ids_url(ids: &Vec<String>) -> (r: Option<String>)
    ensures
        match r {
            Some(u) => spec_fetch_by_ids_url(views(ids@)) == Some(u@),
            None => spec_fetch_by_ids_url(views(ids@)) is None,
        },
{
    let ghost f = crate::discovery::rule_fn(crate::discovery::TextRule::PaperId);
    let mut normalized: Vec<String> = Vec::new();
    let mut i: usize = 0;
    assert(views(ids@).take(0) =~= Seq::<Seq<char>>::empty());
    while i < ids.len()
        invariant
            0 <= i <= ids@.len(),
            f == crate::discovery::rule_fn(crate::discovery::TextRule::PaperId),
            views(normalized@) == crate::discovery::keep_some(views(ids@).take(i as int), f),
        decreases ids.len() - i,
    {
        assert(views(ids@).take(i + 1).drop_last() =~= views(ids@).take(i as int));
        assert(views(ids@).take(i + 1).last() == ids@[i as int]@);
        let ghost before = views(normalized@);
        match crate::discovery::normalize_arxiv_id(ids[i].as_str()) {
            Some(id) => {
                let ghost idv = id@;
                normalized.push(id);
                assert(views(normalized@) =~= before.push(idv));
            },
            None => {},
        }
        i += 1;
    }
    assert(views(ids@).take(ids@.len() as int) =~= views(ids@));
    if normalized.len() == 0 {
        return None;
    }
    let list = crate::text::join_strings(&normalized, ",");
    let mut u = chars_of("http://export.arxiv.org/api/query?id_list=");
    crate::strs::push_str(&mut u, list.as_str());
    crate::strs::push_str(&mut u, "&max_results=");
    let n: u64 = if normalized.len() < 100 { normalized.len() as u64 } else { 100 };
    crate::strs::push_decimal(&mut u, n);
    Some(string_of(&u))
}

} // verus!
