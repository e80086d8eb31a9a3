//! Cleaning up what an AI discovery plan proposes.
use vstd::prelude::*;

use crate::models::views;
use crate::tags::{contains_tag, insert_tag_sorted, strictly_sorted};
use crate::strs::{
    chars_of, ends_with, find_char_at, find_char_from, has_prefix, has_suffix, is_alnum, is_ascii_alnum,
    is_ascii_digit, is_digit, lemma_find_char_from_facts, lemma_rfind_char_facts, rfind_char, rfind_char_in,
    starts_with, str_starts_with, str_trim, string_of, sub_vec, to_owned_string, trim, trim_vec, all_digits,
    trim_bounds, trim_start, is_whitespace, is_ws, push_str,
};

verus! {

broadcast use vstd::string::group_string_axioms;

/// Whether the text starts with `http://` or `https://`.
pub open spec fn spec_is_http_url(url: Seq<char>) -> bool {
    starts_with(url, "http://"@) || starts_with(url, "https://"@)
}

pub fn is_http_url(url: &str) -> (r: bool)
    ensures
        r == spec_is_http_url(url@),
{
    str_starts_with(url, "http://") || str_starts_with(url, "https://")
}

/// A character allowed in an arXiv identifier or category.
pub open spec fn is_id_symbol(c: char) -> bool {
    is_alnum(c) || c == '.' || c == '-'
}

pub open spec fn all_id_symbols(s: Seq<char>) -> bool {
    forall|i: int| 0 <= i < s.len() ==> is_id_symbol(#[trigger] s[i])
}

fn id_symbols_only(v: &[char]) -> (r: bool)
    ensures
        r == all_id_symbols(v@),
{
    let mut i: usize = 0;
    while i < v.len()
        invariant
            0 <= i <= v@.len(),
            forall|k: int| 0 <= k < i ==> is_id_symbol(#[trigger] v@[k]),
        decreases v.len() - i,
    {
        let c = v[i];
        if !(is_ascii_alnum(c) || c == '.' || c == '-') {
            assert(!is_id_symbol(v@[i as int]));
            return false;
        }
        i += 1;
    }
    true
}

/// A category code: trimmed, at most 20 bytes, with a `.`, made of ASCII
/// letters, digits, `.` and `-`.
pub open spec fn spec_normalize_arxiv_category(value: Seq<char>) -> Option<Seq<char>> {
    let cat = trim(value);
    if vstd::utf8::encode_utf8(cat).len() > 20 || !cat.contains('.') {
        None
    } else if all_id_symbols(cat) {
        Some(cat)
    } else {
        None
    }
}

pub fn normalize_arxiv_category(value: &str) -> (r: Option<String>)
    ensures
        match r {
            Some(s) => spec_normalize_arxiv_category(value@) == Some(s@),
            None => spec_normalize_arxiv_category(value@) is None,
        },
{
    let cat = str_trim(value);
    let v = chars_of(cat);
    proof { lemma_find_char_from_facts(v@, '.', 0); }
    let dot = find_char_at(&v, '.', 0);
    proof {
        if v@.contains('.') {
            let k = choose|k: int| 0 <= k < v@.len() && v@[k] == '.';
            assert(find_char_from(v@, '.', 0) is Some);
        }
    }
    if cat.as_bytes().len() > 20 || dot.is_none() {
        return None;
    }
    if id_symbols_only(&v) {
        Some(to_owned_string(cat))
    } else {
        None
    }
}

/// Index of the first `?` or `#` from `i` on.
pub open spec fn query_start(s: Seq<char>, i: int) -> int
    decreases s.len() - i,
{
    if i < 0 || i >= s.len() {
        s.len() as int
    } else if s[i] == '?' || s[i] == '#' {
        i
    } else {
        query_start(s, i + 1)
    }
}

/// What follows the first of the known arXiv abstract-page prefixes.
pub open spec fn without_abs_prefix(s: Seq<char>) -> Seq<char> {
    if starts_with(s, "https://arxiv.org/abs/"@) {
        s.subrange("https://arxiv.org/abs/"@.len() as int, s.len() as int)
    } else if starts_with(s, "http://arxiv.org/abs/"@) {
        s.subrange("http://arxiv.org/abs/"@.len() as int, s.len() as int)
    } else if starts_with(s, "arxiv.org/abs/"@) {
        s.subrange("arxiv.org/abs/"@.len() as int, s.len() as int)
    } else {
        s
    }
}

/// An identifier without a trailing version (`v` and at least one digit).
pub open spec fn without_version(id: Seq<char>) -> Seq<char> {
    match rfind_char(id, 'v') {
        Some(p) => {
            let version = id.subrange(p + 1, id.len() as int);
            if version.len() > 0 && all_digits(version) {
                id.subrange(0, p)
            } else {
                id
            }
        },
        None => id,
    }
}

/// An arXiv identifier from a bare id or an abstract-page URL: trimmed,
/// prefix, query, fragment and version removed; it must then hold a `.` and
/// only ASCII letters, digits, `.` and `-`.
pub open spec fn spec_normalize_arxiv_id(value: Seq<char>) -> Option<Seq<char>> {
    let a = without_abs_prefix(trim(value));
    let b = a.subrange(0, query_start(a, 0));
    let id = without_version(b);
    if id.contains('.') && all_id_symbols(id) {
        Some(id)
    } else {
        None
    }
}

pub proof fn lemma_query_start(s: Seq<char>, i: int)
    requires
        0 <= i <= s.len(),
    ensures
        i <= query_start(s, i) <= s.len(),
        forall|k: int| i <= k < query_start(s, i) ==> s[k] != '?' && s[k] != '#',
    decreases s.len() - i,
{
    if i < s.len() && s[i] != '?' && s[i] != '#' {
        lemma_query_start(s, i + 1);
    }
}

fn strip_abs_prefix(v: &Vec<char>) -> (r: Vec<char>)
    ensures
        r@ == without_abs_prefix(v@),
{
    let p1 = chars_of("https://arxiv.org/abs/");
    let p2 = chars_of("http://arxiv.org/abs/");
    let p3 = chars_of("arxiv.org/abs/");
    if has_prefix(v, &p1) {
        sub_vec(v, p1.len(), v.len())
    } else if has_prefix(v, &p2) {
        sub_vec(v, p2.len(), v.len())
    } else if has_prefix(v, &p3) {
        sub_vec(v, p3.len(), v.len())
    } else {
        v.clone()
    }
}

fn all_ascii_digits(v: &[char]) -> (r: bool)
    ensures
        r == all_digits(v@),
{
    let mut i: usize = 0;
    while i < v.len()
        invariant
            0 <= i <= v@.len(),
            forall|k: int| 0 <= k < i ==> is_digit(#[trigger] v@[k]),
        decreases v.len() - i,
    {
        if !is_ascii_digit(v[i]) {
            assert(!is_digit(v@[i as int]));
            return false;
        }
        i += 1;
    }
    true
}

/// Normalise an arXiv identifier or abstract URL (see
/// `spec_normalize_arxiv_id`).
pub fn normalize_arxiv_id(value: &str) -> (r: Option<String>)
    ensures
        match r {
            Some(s) => spec_normalize_arxiv_id(value@) == Some(s@),
            None => spec_normalize_arxiv_id(value@) is None,
        },
{
    let t = trim_vec(&chars_of(value));
    let a = strip_abs_prefix(&t);
    proof { lemma_query_start(a@, 0); }
    let mut q: usize = 0;
    while q < a.len() && a[q] != '?' && a[q] != '#'
        invariant
            0 <= q <= a@.len(),
            query_start(a@, 0) == query_start(a@, q as int),
        decreases a.len() - q,
    {
        q += 1;
    }
    let b = sub_vec(&a, 0, q);
    proof { lemma_rfind_char_facts(b@, 'v'); }
    let id = match rfind_char_in(&b, 'v') {
        Some(p) => {
            let version = sub_vec(&b, p + 1, b.len());
            if version.len() > 0 && all_ascii_digits(&version) {
                sub_vec(&b, 0, p)
            } else {
                b
            }
        },
        None => b,
    };
    proof { lemma_find_char_from_facts(id@, '.', 0); }
    let dot = find_char_at(&id, '.', 0);
    proof {
        if id@.contains('.') {
            let k = choose|k: int| 0 <= k < id@.len() && id@[k] == '.';
            assert(find_char_from(id@, '.', 0) is Some);
        }
    }
    if dot.is_some() && id_symbols_only(&id) {
        Some(string_of(&id))
    } else {
        None
    }
}

/// The host part of a feed URL, used as its name: the scheme prefixes
/// removed (each as often as it repeats) and the text up to the first `/`.
pub open spec fn spec_feed_name_from_url(url: Seq<char>) -> Seq<char> {
    let a = strip_all(url, "https://"@);
    let b = strip_all(a, "http://"@);
    match find_char_from(b, '/', 0) {
        Some(p) => b.subrange(0, p),
        None => b,
    }
}

/// `str::trim_start_matches` with a text pattern.
pub open spec fn strip_all(s: Seq<char>, p: Seq<char>) -> Seq<char>
    decreases s.len(),
{
    if p.len() > 0 && starts_with(s, p) {
        strip_all(s.subrange(p.len() as int, s.len() as int), p)
    } else {
        s
    }
}

fn strip_all_exec(v: &Vec<char>, p: &Vec<char>) -> (r: Vec<char>)
    ensures
        r@ == strip_all(v@, p@),
{
    let mut i: usize = 0;
    if p.len() == 0 {
        return v.clone();
    }
    assert(v@.subrange(0, v@.len() as int) =~= v@);
    while p.len() <= v.len() - i && has_prefix(&sub_vec(v, i, v.len()), p)
        invariant
            0 <= i <= v@.len(),
            p@.len() > 0,
            strip_all(v@, p@) == strip_all(v@.subrange(i as int, v@.len() as int), p@),
        decreases v.len() - i,
    {
        assert(v@.subrange(i as int, v@.len() as int).subrange(p@.len() as int, v@.len() - i) =~= v@.subrange(
            i + p@.len(),
            v@.len() as int,
        ));
        i += p.len();
    }
    let rest = sub_vec(v, i, v.len());
    proof {
        let s = v@.subrange(i as int, v@.len() as int);
        if starts_with(s, p@) {
            assert(i + p@.len() <= v@.len());
        }
    }
    rest
}

/// `str::trim_start_matches` on character vectors.
pub fn strip_all_pub(v: &Vec<char>, p: &Vec<char>) -> (r: Vec<char>)
    ensures
        r@ == strip_all(v@, p@),
{
    strip_all_exec(v, p)
}

pub fn feed_name_from_url(url: &str) -> (r: String)
    ensures
        r@ == spec_feed_name_from_url(url@),
{
    let v = chars_of(url);
    let a = strip_all_exec(&v, &chars_of("https://"));
    let b = strip_all_exec(&a, &chars_of("http://"));
    proof { lemma_find_char_from_facts(b@, '/', 0); }
    match find_char_at(&b, '/', 0) {
        Some(p) => {
            assert(find_char_from(b@, '/', 0) == Some(p as int));
            let head = sub_vec(&b, 0, p);
            string_of(&head)
        },
        None => string_of(&b),
    }
}

/// A model's answer without a Markdown code fence around it: trimmed; when
/// it starts with three backticks, the opening fence (with an optional
/// `json` tag) and a closing fence are taken off and the rest trimmed.
pub open spec fn spec_strip_json_fence(content: Seq<char>) -> Seq<char> {
    let t = trim(content);
    if !starts_with(t, "```"@) {
        t
    } else {
        let o = if starts_with(t, "```json"@) {
            t.subrange(7, t.len() as int)
        } else {
            t.subrange(3, t.len() as int)
        };
        let w = trim_start(o);
        trim(
            if ends_with(w, "```"@) {
                w.subrange(0, w.len() - 3)
            } else {
                w
            },
        )
    }
}

pub fn strip_json_fence(content: &str) -> (r: &str)
    ensures
        r@ == spec_strip_json_fence(content@),
{
    let v = chars_of(content);
    assert(v@.subrange(0, v@.len() as int) =~= v@);
    let (a, b) = trim_bounds(&v, 0, v.len());
    let t = sub_vec(&v, a, b);
    let fence = chars_of("```");
    if !has_prefix(&t, &fence) {
        return content.substring_char(a, b);
    }
    proof {
        reveal_strlit("```");
        reveal_strlit("```json");
    }
    let fence_json = chars_of("```json");
    let open: usize = if has_prefix(&t, &fence_json) { a + 7 } else { a + 3 };
    let mut c = open;
    while c < b && is_whitespace(v[c])
        invariant
            open <= c <= b <= v@.len(),
            trim_start(v@.subrange(open as int, b as int)) == trim_start(v@.subrange(c as int, b as int)),
        decreases b - c,
    {
        assert(v@.subrange(c as int, b as int).drop_first() =~= v@.subrange(c + 1, b as int));
        c += 1;
    }
    assert(t@.subrange(open - a, t@.len() as int) =~= v@.subrange(open as int, b as int));
    let w = sub_vec(&v, c, b);
    let end: usize = if has_suffix(&w, &fence) { b - 3 } else { b };
    assert(ends_with(w@, "```"@) ==> w@.subrange(0, w@.len() - 3) =~= v@.subrange(c as int, end as int));
    assert(!ends_with(w@, "```"@) ==> w@ =~= v@.subrange(c as int, end as int));
    let (x, y) = trim_bounds(&v, c, end);
    content.substring_char(x, y)
}

// ---------------------------------------------------------------------------
// Discovery plans
// ---------------------------------------------------------------------------

/// A JSON value proposed as a source: a bare string, an object, or
/// anything else.
#[derive(Debug, Clone)]
pub enum PlanValue {
    Text(String),
    Object(PlanObject),
    Other,
}

/// The keys of a proposed source object: `None` when the key is absent,
/// `Some(None)` when its value is not a string.
#[derive(Debug, Clone)]
pub struct PlanObject {
    pub url: Option<Option<String>>,
    pub value: Option<Option<String>>,
    pub name: Option<Option<String>>,
    pub title: Option<Option<String>>,
    pub kind: Option<Option<String>>,
    pub reason: Option<Option<String>>,
}

/// A discovery plan as the model wrote it.
#[derive(Debug, Clone)]
pub struct RawDiscoveryPlan {
    pub topic: String,
    pub arxiv_categories: Vec<String>,
    pub paper_ids: Vec<String>,
    pub rss_urls: Vec<PlanValue>,
    pub github_sources: Vec<PlanValue>,
    pub huggingface_sources: Vec<PlanValue>,
    pub search_terms: Vec<String>,
    pub summary: String,
}

/// A proposed RSS feed.
#[derive(Debug, Clone)]
pub struct DiscoveredRssFeed {
    pub url: String,
    pub name: String,
    pub reason: String,
}

/// A proposed GitHub or Hugging Face source.
#[derive(Debug, Clone)]
pub struct DiscoveredSource {
    pub url: String,
    pub kind: String,
    pub reason: String,
}

/// A cleaned-up discovery plan.
#[derive(Debug, Clone)]
pub struct DiscoveryPlan {
    pub topic: String,
    pub arxiv_categories: Vec<String>,
    pub paper_ids: Vec<String>,
    pub rss_urls: Vec<DiscoveredRssFeed>,
    pub github_sources: Vec<DiscoveredSource>,
    pub huggingface_sources: Vec<DiscoveredSource>,
    pub search_terms: Vec<String>,
    pub summary: String,
}

/// A key's text: present and a string, trimmed.
pub open spec fn key_text(k: Option<Option<String>>) -> Option<Seq<char>> {
    match k {
        Some(Some(s)) => Some(trim(s@)),
        _ => None,
    }
}

/// `(url, name, reason)` of a proposed feed, when it has an HTTP URL.  A
/// missing or empty name falls back to the URL's host.
pub open spec fn spec_rss_feed(v: PlanValue) -> Option<(Seq<char>, Seq<char>, Seq<char>)> {
    match v {
        PlanValue::Text(url) => if spec_is_http_url(url@) {
            Some((url@, spec_feed_name_from_url(url@), Seq::empty()))
        } else {
            None
        },
        PlanValue::Object(o) => match key_text(o.url) {
            Some(url) => if spec_is_http_url(url) {
                let named = if o.name is Some { o.name } else { o.title };
                let name = match key_text(named) {
                    Some(n) => if n.len() > 0 { n } else { spec_feed_name_from_url(url) },
                    None => spec_feed_name_from_url(url),
                };
                let reason = match key_text(o.reason) {
                    Some(r) => r,
                    None => Seq::empty(),
                };
                Some((url, name, reason))
            } else {
                None
            },
            None => None,
        },
        PlanValue::Other => None,
    }
}

/// `(url, kind, reason)` of a proposed source, when it has an HTTP URL
/// (under `url`, or else under `value`).
pub open spec fn spec_source(v: PlanValue) -> Option<(Seq<char>, Seq<char>, Seq<char>)> {
    match v {
        PlanValue::Text(url) => if spec_is_http_url(url@) {
            Some((url@, Seq::empty(), Seq::empty()))
        } else {
            None
        },
        PlanValue::Object(o) => {
            let u = if o.url is Some { o.url } else { o.value };
            match key_text(u) {
                Some(url) => if spec_is_http_url(url) {
                    let kind = match key_text(o.kind) {
                        Some(k) => k,
                        None => Seq::empty(),
                    };
                    let reason = match key_text(o.reason) {
                        Some(r) => r,
                        None => Seq::empty(),
                    };
                    Some((url, kind, reason))
                } else {
                    None
                },
                None => None,
            }
        },
        PlanValue::Other => None,
    }
}

fn key_string(k: &Option<Option<String>>) -> (r: Option<String>)
    ensures
        match r {
            Some(s) => key_text(*k) == Some(s@),
            None => key_text(*k) is None,
        },
{
    match k {
        Some(Some(s)) => Some(crate::strs::trimmed_string(s.as_str())),
        _ => None,
    }
}

pub fn normalize_rss_feed(v: &PlanValue) -> (r: Option<DiscoveredRssFeed>)
    ensures
        match r {
            Some(f) => spec_rss_feed(*v) == Some((f.url@, f.name@, f.reason@)),
            None => spec_rss_feed(*v) is None,
        },
{
    match v {
        PlanValue::Text(url) => {
            if !is_http_url(url.as_str()) {
                return None;
            }
            Some(DiscoveredRssFeed { url: url.clone(), name: feed_name_from_url(url.as_str()), reason: String::new() })
        },
        PlanValue::Object(o) => {
            let url = match key_string(&o.url) {
                Some(u) => u,
                None => {
                    return None;
                },
            };
            if !is_http_url(url.as_str()) {
                return None;
            }
            let named = if o.name.is_some() { &o.name } else { &o.title };
            let name = match key_string(named) {
                Some(n) => if n.as_str().unicode_len() > 0 { n } else { feed_name_from_url(url.as_str()) },
                None => feed_name_from_url(url.as_str()),
            };
            let reason = match key_string(&o.reason) {
                Some(r) => r,
                None => String::new(),
            };
            Some(DiscoveredRssFeed { url, name, reason })
        },
        PlanValue::Other => None,
    }
}

pub fn normalize_source(v: &PlanValue) -> (r: Option<DiscoveredSource>)
    ensures
        match r {
            Some(f) => spec_source(*v) == Some((f.url@, f.kind@, f.reason@)),
            None => spec_source(*v) is None,
        },
{
    match v {
        PlanValue::Text(url) => {
            if !is_http_url(url.as_str()) {
                return None;
            }
            Some(DiscoveredSource { url: url.clone(), kind: String::new(), reason: String::new() })
        },
        PlanValue::Object(o) => {
            let u = if o.url.is_some() { &o.url } else { &o.value };
            let url = match key_string(u) {
                Some(x) => x,
                None => {
                    return None;
                },
            };
            if !is_http_url(url.as_str()) {
                return None;
            }
            let kind = match key_string(&o.kind) {
                Some(k) => k,
                None => String::new(),
            };
            let reason = match key_string(&o.reason) {
                Some(r) => r,
                None => String::new(),
            };
            Some(DiscoveredSource { url, kind, reason })
        },
        PlanValue::Other => None,
    }
}

/// The values that `f` maps to something, in order.
pub open spec fn keep_some<A, B>(s: Seq<A>, f: spec_fn(A) -> Option<B>) -> Seq<B>
    decreases s.len(),
{
    if s.len() == 0 {
        Seq::empty()
    } else {
        let before = keep_some(s.drop_last(), f);
        match f(s.last()) {
            Some(b) => before.push(b),
            None => before,
        }
    }
}

/// At most the first `n` elements.
pub open spec fn first_n<A>(s: Seq<A>, n: nat) -> Seq<A> {
    if s.len() <= n {
        s
    } else {
        s.take(n as int)
    }
}

/// Strictly sorted, holding exactly the elements of `src`.
pub open spec fn sorted_set_of(r: Seq<Seq<char>>, src: Seq<Seq<char>>) -> bool {
    &&& strictly_sorted(r)
    &&& forall|x: Seq<char>| #[trigger] r.contains(x) <==> src.contains(x)
}

proof fn lemma_keep_some_prefix<A, B>(s: Seq<A>, f: spec_fn(A) -> Option<B>, i: int, j: int)
    requires
        0 <= i <= j <= s.len(),
    ensures
        keep_some(s.take(i), f).len() <= keep_some(s.take(j), f).len(),
        keep_some(s.take(i), f) == keep_some(s.take(j), f).take(keep_some(s.take(i), f).len() as int),
    decreases j - i,
{
    if i < j {
        lemma_keep_some_prefix(s, f, i, j - 1);
        assert(s.take(j).drop_last() =~= s.take(j - 1));
        let a = keep_some(s.take(i), f);
        let b = keep_some(s.take(j - 1), f);
        let c = keep_some(s.take(j), f);
        assert(a =~= c.take(a.len() as int));
    } else {
        assert(keep_some(s.take(i), f).take(keep_some(s.take(i), f).len() as int) =~= keep_some(s.take(i), f));
    }
}

pub open spec fn category_of(x: Seq<char>) -> Option<Seq<char>> {
    spec_normalize_arxiv_category(x)
}

pub open spec fn paper_id_of(x: Seq<char>) -> Option<Seq<char>> {
    spec_normalize_arxiv_id(x)
}

pub open spec fn term_of(x: Seq<char>) -> Option<Seq<char>> {
    if trim(x).len() > 0 {
        Some(trim(x))
    } else {
        None
    }
}

/// Which cleaning rule a list of texts goes through.
pub enum TextRule {
    Category,
    PaperId,
    SearchTerm,
}

pub open spec fn rule_fn(rule: TextRule) -> spec_fn(Seq<char>) -> Option<Seq<char>> {
    match rule {
        TextRule::Category => |x: Seq<char>| category_of(x),
        TextRule::PaperId => |x: Seq<char>| paper_id_of(x),
        TextRule::SearchTerm => |x: Seq<char>| term_of(x),
    }
}

fn apply_rule(rule: &TextRule, x: &str) -> (r: Option<String>)
    ensures
        match r {
            Some(s) => (rule_fn(*rule))(x@) == Some(s@),
            None => (rule_fn(*rule))(x@) is None,
        },
{
    match rule {
        TextRule::Category => normalize_arxiv_category(x),
        TextRule::PaperId => normalize_arxiv_id(x),
        TextRule::SearchTerm => {
            let t = crate::strs::trimmed_string(x);
            if t.as_str().unicode_len() > 0 {
                Some(t)
            } else {
                None
            }
        },
    }
}

/// The first `n` texts that the rule keeps, sorted and without repeats.
pub fn first_sorted_unique(raw: &Vec<String>, rule: TextRule, n: usize) -> (r: Vec<String>)
    ensures
        sorted_set_of(views(r@), first_n(keep_some(views(raw@), rule_fn(rule)), n as nat)),
{
    let ghost f = rule_fn(rule);
    let ghost src = views(raw@);
    let mut out: Vec<String> = Vec::new();
    let mut taken: usize = 0;
    let mut i: usize = 0;
    assert(src.take(0) =~= Seq::<Seq<char>>::empty());
    while i < raw.len() && taken < n
        invariant
            0 <= i <= raw@.len(),
            src == views(raw@),
            f == rule_fn(rule),
            taken == keep_some(src.take(i as int), f).len(),
            taken <= n,
            sorted_set_of(views(out@), keep_some(src.take(i as int), f)),
        decreases raw.len() - i,
    {
        assert(src.take(i + 1).drop_last() =~= src.take(i as int));
        assert(src.take(i + 1).last() == raw@[i as int]@);
        let ghost before = keep_some(src.take(i as int), f);
        match apply_rule(&rule, raw[i].as_str()) {
            Some(c) => {
                let ghost cv = c@;
                if !contains_tag(&out, c.as_str()) {
                    insert_tag_sorted(&mut out, c);
                    assert forall|x: Seq<char>| #[trigger] views(out@).contains(x) <==> before.push(cv).contains(x) by {
                        assert(views(out@).to_set().contains(x) == views(out@).contains(x));
                        if before.push(cv).contains(x) && x != cv {
                            let k = choose|k: int| 0 <= k < before.push(cv).len() && before.push(cv)[k] == x;
                            assert(before[k] == x);
                        }
                        if before.contains(x) {
                            let k = choose|k: int| 0 <= k < before.len() && before[k] == x;
                            assert(before.push(cv)[k] == x);
                        }
                        assert(before.push(cv)[before.len() as int] == cv);
                    }
                } else {
                    assert forall|x: Seq<char>| #[trigger] views(out@).contains(x) <==> before.push(cv).contains(x) by {
                        if before.push(cv).contains(x) && x != cv {
                            let k = choose|k: int| 0 <= k < before.push(cv).len() && before.push(cv)[k] == x;
                            assert(before[k] == x);
                        }
                        if before.contains(x) {
                            let k = choose|k: int| 0 <= k < before.len() && before[k] == x;
                            assert(before.push(cv)[k] == x);
                        }
                        assert(before.push(cv)[before.len() as int] == cv);
                    }
                }
                taken += 1;
            },
            None => {},
        }
        i += 1;
    }
    proof {
        let all = keep_some(src, f);
        assert(src.take(src.len() as int) =~= src);
        lemma_keep_some_prefix(src, f, i as int, src.len() as int);
        let part = keep_some(src.take(i as int), f);
        if taken < n {
            assert(i == raw@.len());
            assert(first_n(all, n as nat) == all);
        } else {
            assert(first_n(all, n as nat) =~= part);
        }
    }
    out
}

pub open spec fn feed_triple(f: DiscoveredRssFeed) -> (Seq<char>, Seq<char>, Seq<char>) {
    (f.url@, f.name@, f.reason@)
}

pub open spec fn source_triple(f: DiscoveredSource) -> (Seq<char>, Seq<char>, Seq<char>) {
    (f.url@, f.kind@, f.reason@)
}

/// The first `n` proposed feeds with an HTTP URL, in order.
pub fn first_feeds(raw: &Vec<PlanValue>, n: usize) -> (r: Vec<DiscoveredRssFeed>)
    ensures
        r@.map_values(|f: DiscoveredRssFeed| feed_triple(f)) == first_n(
            keep_some(raw@, |v: PlanValue| spec_rss_feed(v)),
            n as nat,
        ),
{
    let ghost f = |v: PlanValue| spec_rss_feed(v);
    let mut out: Vec<DiscoveredRssFeed> = Vec::new();
    let mut i: usize = 0;
    assert(raw@.take(0) =~= Seq::<PlanValue>::empty());
    assert(out@.map_values(|x: DiscoveredRssFeed| feed_triple(x)) =~= keep_some(raw@.take(0), f));
    while i < raw.len() && out.len() < n
        invariant
            0 <= i <= raw@.len(),
            f == |v: PlanValue| spec_rss_feed(v),
            out@.len() <= n,
            out@.map_values(|x: DiscoveredRssFeed| feed_triple(x)) == keep_some(raw@.take(i as int), f),
        decreases raw.len() - i,
    {
        assert(raw@.take(i + 1).drop_last() =~= raw@.take(i as int));
        assert(raw@.take(i + 1).last() == raw@[i as int]);
        let ghost before = out@.map_values(|x: DiscoveredRssFeed| feed_triple(x));
        match normalize_rss_feed(&raw[i]) {
            Some(feed) => {
                out.push(feed);
                assert(out@.map_values(|x: DiscoveredRssFeed| feed_triple(x)) =~= before.push(feed_triple(feed)));
            },
            None => {},
        }
        i += 1;
    }
    proof {
        let all = keep_some(raw@, f);
        assert(raw@.take(raw@.len() as int) =~= raw@);
        lemma_keep_some_prefix(raw@, f, i as int, raw@.len() as int);
        let part = keep_some(raw@.take(i as int), f);
        if out@.len() < n {
            assert(first_n(all, n as nat) == all);
        } else {
            assert(first_n(all, n as nat) =~= part);
        }
    }
    out
}

/// The first `n` proposed sources with an HTTP URL, in order.
pub fn first_sources(raw: &Vec<PlanValue>, n: usize) -> (r: Vec<DiscoveredSource>)
    ensures
        r@.map_values(|f: DiscoveredSource| source_triple(f)) == first_n(
            keep_some(raw@, |v: PlanValue| spec_source(v)),
            n as nat,
        ),
{
    let ghost f = |v: PlanValue| spec_source(v);
    let mut out: Vec<DiscoveredSource> = Vec::new();
    let mut i: usize = 0;
    assert(raw@.take(0) =~= Seq::<PlanValue>::empty());
    assert(out@.map_values(|x: DiscoveredSource| source_triple(x)) =~= keep_some(raw@.take(0), f));
    while i < raw.len() && out.len() < n
        invariant
            0 <= i <= raw@.len(),
            f == |v: PlanValue| spec_source(v),
            out@.len() <= n,
            out@.map_values(|x: DiscoveredSource| source_triple(x)) == keep_some(raw@.take(i as int), f),
        decreases raw.len() - i,
    {
        assert(raw@.take(i + 1).drop_last() =~= raw@.take(i as int));
        assert(raw@.take(i + 1).last() == raw@[i as int]);
        let ghost before = out@.map_values(|x: DiscoveredSource| source_triple(x));
        match normalize_source(&raw[i]) {
            Some(src) => {
                out.push(src);
                assert(out@.map_values(|x: DiscoveredSource| source_triple(x)) =~= before.push(source_triple(src)));
            },
            None => {},
        }
        i += 1;
    }
    proof {
        let all = keep_some(raw@, f);
        assert(raw@.take(raw@.len() as int) =~= raw@);
        lemma_keep_some_prefix(raw@, f, i as int, raw@.len() as int);
        let part = keep_some(raw@.take(i as int), f);
        if out@.len() < n {
            assert(first_n(all, n as nat) == all);
        } else {
            assert(first_n(all, n as nat) =~= part);
        }
    }
    out
}

/// The plan the model's answer gives for `topic`: its own topic (trimmed)
/// or else `topic`; at most 8 category codes, 20 paper ids and 5 search
/// terms, each list sorted without repeats; at most 10 feeds and 10 sources
/// of each kind, in order; and the summary's first 80 characters.
pub open spec fn plan_made_from(plan: DiscoveryPlan, topic: Seq<char>, raw: RawDiscoveryPlan) -> bool {
    &&& plan.topic@ == (if trim(raw.topic@).len() == 0 {
        topic
    } else {
        trim(raw.topic@)
    })
    &&& sorted_set_of(
        views(plan.arxiv_categories@),
        first_n(keep_some(views(raw.arxiv_categories@), rule_fn(TextRule::Category)), 8),
    )
    &&& sorted_set_of(views(plan.paper_ids@), first_n(keep_some(views(raw.paper_ids@), rule_fn(TextRule::PaperId)), 20))
    &&& plan.rss_urls@.map_values(|f: DiscoveredRssFeed| feed_triple(f)) == first_n(
        keep_some(raw.rss_urls@, |v: PlanValue| spec_rss_feed(v)),
        10,
    )
    &&& plan.github_sources@.map_values(|f: DiscoveredSource| source_triple(f)) == first_n(
        keep_some(raw.github_sources@, |v: PlanValue| spec_source(v)),
        10,
    )
    &&& plan.huggingface_sources@.map_values(|f: DiscoveredSource| source_triple(f)) == first_n(
        keep_some(raw.huggingface_sources@, |v: PlanValue| spec_source(v)),
        10,
    )
    &&& sorted_set_of(
        views(plan.search_terms@),
        first_n(keep_some(views(raw.search_terms@), rule_fn(TextRule::SearchTerm)), 5),
    )
    &&& plan.summary@ == first_n(raw.summary@, 80)
}

/// Clean up a discovery plan as the model wrote it.
pub fn plan_from_raw(topic: &str, raw: &RawDiscoveryPlan) -> (plan: DiscoveryPlan)
    ensures
        plan_made_from(plan, topic@, *raw),
{
    let t = crate::strs::trimmed_string(raw.topic.as_str());
    let plan_topic = if t.as_str().unicode_len() == 0 { to_owned_string(topic) } else { t };
    let sv = chars_of(raw.summary.as_str());
    let summary = if sv.len() <= 80 {
        string_of(&sv)
    } else {
        string_of(&sub_vec(&sv, 0, 80))
    };
    DiscoveryPlan {
        topic: plan_topic,
        arxiv_categories: first_sorted_unique(&raw.arxiv_categories, TextRule::Category, 8),
        paper_ids: first_sorted_unique(&raw.paper_ids, TextRule::PaperId, 20),
        rss_urls: first_feeds(&raw.rss_urls, 10),
        github_sources: first_sources(&raw.github_sources, 10),
        huggingface_sources: first_sources(&raw.huggingface_sources, 10),
        search_terms: first_sorted_unique(&raw.search_terms, TextRule::SearchTerm, 5),
        summary,
    }
}


/// The text of the discovery prompt before the topic.
pub const PROMPT_HEAD: &'static str = "You are a research discovery assistant for an AI/ML feed reader.\nTopic: \"";
/// The text of the discovery prompt between the two mentions of the topic.
pub const PROMPT_MID: &'static str = "\"\n\nReturn ONLY valid JSON. Do not include markdown, code fences, or explanation.\n\nRequired JSON shape:\n{\n  \"topic\": \"";
/// The text of the discovery prompt after the topic.
pub const PROMPT_TAIL: &'static str = "\",\n  \"arxiv_categories\": [\"cs.LG\"],\n  \"paper_ids\": [\"2312.01234v1\"],\n  \"rss_urls\": [{\"url\": \"https://example.com/feed\", \"name\": \"Example\", \"reason\": \"why relevant\"}],\n  \"github_sources\": [{\"url\": \"https://github.com/org/repo\", \"kind\": \"repo\", \"reason\": \"why relevant\"}],\n  \"huggingface_sources\": [{\"url\": \"https://huggingface.co/papers\", \"kind\": \"search\", \"reason\": \"why relevant\"}],\n  \"search_terms\": [\"sparse autoencoder mechanistic interpretability\"],\n  \"summary\": \"One sentence summary.\"\n}\n\nRules:\n- arxiv_categories: at most 8 relevant category codes.\n- paper_ids: at most 20 specific arXiv IDs you are confident exist.\n- rss_urls: at most 10 RSS/blog feed URLs directly relevant to this topic.\n- github_sources: at most 10 GitHub org/repo URLs; checklist only.\n- huggingface_sources: at most 10 HuggingFace URLs; checklist only.\n- search_terms: 1 to 5 specific phrases for arXiv search.\n- summary: 80 characters or fewer.";

/// The prompt asking an assistant for a discovery plan on `topic`: the
/// topic is named, then shown again in the JSON shape the reply must have.
pub fn build_prompt(topic: &str) -> (r: String)
    ensures
        r@ == PROMPT_HEAD@ + topic@ + PROMPT_MID@ + topic@ + PROMPT_TAIL@,
{
    let mut v = chars_of(PROMPT_HEAD);
    push_str(&mut v, topic);
    push_str(&mut v, PROMPT_MID);
    push_str(&mut v, topic);
    push_str(&mut v, PROMPT_TAIL);
    let r = string_of(&v);
    assert(r@ =~= PROMPT_HEAD@ + topic@ + PROMPT_MID@ + topic@ + PROMPT_TAIL@);
    r
}

} // verus!
