//! Finding the feed of a web page a user adds as a source.
use vstd::prelude::*;

use crate::app::DiscoverResult;
use crate::discovery::{strip_all, strip_all_pub};
use crate::huggingface::{trim_end_char};
use crate::strs::{
    chars_of, contains_seq, find, find_at, find_char_at, find_char_from, find_from, is_whitespace, is_ws,
    lemma_find_char_from_facts, lemma_find_from_facts, lemma_rfind_char_facts, push_all, push_str, rfind_char,
    rfind_char_in, starts_with, str_contains, string_of, sub_vec, to_owned_string,
};

verus! {

broadcast use vstd::string::group_string_axioms;

/// The text before the first `c` (all of it when there is none).
pub open spec fn before_char(s: Seq<char>, c: char) -> Seq<char> {
    match find_char_from(s, c, 0) {
        Some(p) => s.subrange(0, p),
        None => s,
    }
}

fn before_char_exec(v: &Vec<char>, c: char) -> (r: Vec<char>)
    ensures
        r@ == before_char(v@, c),
{
    let n = v.len();
    proof { lemma_find_char_from_facts(v@, c, 0); }
    match find_char_at(v, c, 0) {
        Some(p) => {
            assert(find_char_from(v@, c, 0) == Some(p as int));
            sub_vec(v, 0, p)
        },
        None => sub_vec(v, 0, v.len()),
    }
}

/// The host of a URL: scheme prefixes removed, up to the first `/`.
pub open spec fn url_host(url: Seq<char>) -> Seq<char> {
    before_char(strip_all(strip_all(url, "https://"@), "http://"@), '/')
}

fn host_exec(url: &Vec<char>) -> (r: Vec<char>)
    ensures
        r@ == url_host(url@),
{
    let a = strip_all_pub(url, &chars_of("https://"));
    let b = strip_all_pub(&a, &chars_of("http://"));
    before_char_exec(&b, '/')
}

/// `https://host` (or `http://host` unless the URL is HTTPS).
pub open spec fn spec_url_origin(url: Seq<char>) -> Seq<char> {
    if starts_with(url, "https://"@) {
        "https://"@ + url_host(url)
    } else {
        "http://"@ + url_host(url)
    }
}

pub fn url_origin(url: &str) -> (r: String)
    ensures
        r@ == spec_url_origin(url@),
{
    let v = chars_of(url);
    let host = host_exec(&v);
    let mut out = if crate::strs::str_starts_with(url, "https://") { chars_of("https://") } else { chars_of("http://") };
    push_all(&mut out, &host);
    string_of(&out)
}

/// A short source name from a URL: its host without `www.`, up to the
/// first `.` (`"openai"` from `openai.com/...`).
pub open spec fn spec_domain_name(url: Seq<char>) -> Seq<char> {
    let host = url_host(url);
    let h = if starts_with(host, "www."@) { host.subrange(4, host.len() as int) } else { host };
    before_char(h, '.')
}

pub fn domain_name(url: &str) -> (r: String)
    ensures
        r@ == spec_domain_name(url@),
{
    let v = chars_of(url);
    let host = host_exec(&v);
    let www = chars_of("www.");
    proof { reveal_strlit("www."); }
    let h = if crate::strs::has_prefix(&host, &www) { sub_vec(&host, 4, host.len()) } else { sub_vec(&host, 0, host.len()) };
    assert(host@.subrange(0, host@.len() as int) =~= host@);
    string_of(&before_char_exec(&h, '.'))
}

/// The end of an unquoted attribute value: the first whitespace or `>`.
pub open spec fn value_end(s: Seq<char>, i: int) -> int
    decreases s.len() - i,
{
    if i < 0 || i >= s.len() {
        s.len() as int
    } else if is_ws(s[i]) || s[i] == '>' {
        i
    } else {
        value_end(s, i + 1)
    }
}

/// The value of attribute `attr` in a tag: after `attr=`, inside double or
/// single quotes (none when the closing quote is missing) or up to the next
/// whitespace or `>`.
pub open spec fn spec_attr_value(tag: Seq<char>, attr: Seq<char>) -> Option<Seq<char>> {
    match find(tag, attr + "="@) {
        None => None,
        Some(pos) => {
            let rest = tag.subrange(pos + attr.len() + 1, tag.len() as int);
            if rest.len() > 0 && (rest[0] == '"' || rest[0] == '\'') {
                let inner = rest.subrange(1, rest.len() as int);
                match find_char_from(inner, rest[0], 0) {
                    Some(end) => Some(inner.subrange(0, end)),
                    None => None,
                }
            } else {
                Some(rest.subrange(0, value_end(rest, 0)))
            }
        },
    }
}

proof fn lemma_value_end(s: Seq<char>, i: int)
    requires
        0 <= i <= s.len(),
    ensures
        i <= value_end(s, i) <= s.len(),
    decreases s.len() - i,
{
    if i < s.len() && !(is_ws(s[i]) || s[i] == '>') {
        lemma_value_end(s, i + 1);
    }
}

pub fn attr_value(tag: &str, attr: &str) -> (r: Option<String>)
    ensures
        crate::models::opt_view(r) == spec_attr_value(tag@, attr@),
{
    let t = chars_of(tag);
    let mut needle = chars_of(attr);
    needle.push('=');
    proof { reveal_strlit("="); }
    assert(needle@ =~= attr@ + "="@);
    let n = t.len();
    proof { lemma_find_from_facts(t@, needle@, 0); }
    let pos = match find_at(&t, &needle, 0) {
        Some(p) => p,
        None => {
            return None;
        },
    };
    assert(find_from(t@, needle@, 0) == Some(pos as int));
    let rest = sub_vec(&t, pos + needle.len(), t.len());
    if rest.len() > 0 && (rest[0] == '"' || rest[0] == '\'') {
        let q = rest[0];
        let inner = sub_vec(&rest, 1, rest.len());
        let m = inner.len();
        proof { lemma_find_char_from_facts(inner@, q, 0); }
        match find_char_at(&inner, q, 0) {
            Some(end) => {
                assert(find_char_from(inner@, q, 0) == Some(end as int));
                Some(string_of(&sub_vec(&inner, 0, end)))
            },
            None => None,
        }
    } else {
        let mut e: usize = 0;
        proof { lemma_value_end(rest@, 0); }
        while e < rest.len() && !is_whitespace(rest[e]) && rest[e] != '>'
            invariant
                0 <= e <= rest@.len(),
                value_end(rest@, 0) == value_end(rest@, e as int),
            decreases rest.len() - e,
        {
            e += 1;
        }
        Some(string_of(&sub_vec(&rest, 0, e)))
    }
}

/// An RSS link made absolute against the page URL.
pub open spec fn resolve_link(href: Seq<char>, base: Seq<char>) -> Seq<char> {
    if starts_with(href, "http"@) {
        href
    } else if starts_with(href, "/"@) {
        spec_url_origin(base) + href
    } else {
        base + "/"@ + href
    }
}

/// The marker of a feed link element.
pub open spec fn rss_type() -> Seq<char> {
    "application/rss+xml"@
}

/// The first feed link in the page from position `off` on: the tag around
/// each `application/rss+xml` (from the last `<` before it to the next `>`)
/// with an `href`.
pub open spec fn rss_link_from(h: Seq<char>, base: Seq<char>, off: int) -> Option<Seq<char>>
    decreases h.len() - off,
{
    if off < 0 || off > h.len() {
        None
    } else {
        let s = h.subrange(off, h.len() as int);
        match find(s, rss_type()) {
            None => None,
            Some(pos) => {
                let ts = match rfind_char(s.subrange(0, pos), '<') {
                    Some(t) => t,
                    None => 0,
                };
                let te = match find_char_from(s, '>', pos) {
                    Some(p) => p + 1,
                    None => s.len() as int,
                };
                match spec_attr_value(s.subrange(ts, te), "href"@) {
                    Some(href) => Some(resolve_link(href, base)),
                    None => if pos + rss_type().len() > 0 && off + pos + rss_type().len() <= h.len() {
                        rss_link_from(h, base, off + pos + rss_type().len())
                    } else {
                        None
                    },
                }
            },
        }
    }
}

fn resolve_exec(href: String, base: &str) -> (r: String)
    ensures
        r@ == resolve_link(href@, base@),
{
    proof {
        reveal_strlit("/");
    }
    if crate::strs::str_starts_with(href.as_str(), "http") {
        href
    } else if crate::strs::str_starts_with(href.as_str(), "/") {
        let o = url_origin(base);
        let mut v = chars_of(o.as_str());
        push_str(&mut v, href.as_str());
        string_of(&v)
    } else {
        let mut v = chars_of(base);
        v.push('/');
        push_str(&mut v, href.as_str());
        assert(v@ =~= base@ + "/"@ + href@);
        string_of(&v)
    }
}

/// Scan a page for `<link ... type="application/rss+xml" href="...">` (see
/// `rss_link_from`).
pub fn extract_rss_link(html: &str, base_url: &str) -> (r: Option<String>)
    ensures
        crate::models::opt_view(r) == rss_link_from(html@, base_url@, 0),
{
    let h = chars_of(html);
    let needle = chars_of("application/rss+xml");
    proof { reveal_strlit("application/rss+xml"); }
    let mut off: usize = 0;
    while off <= h.len()
        invariant
            needle@ == rss_type(),
            needle@.len() == 19,
            h@ == html@,
            rss_link_from(h@, base_url@, off as int) == rss_link_from(h@, base_url@, 0),
        decreases h.len() + 1 - off,
    {
        let s = sub_vec(&h, off, h.len());
        let n = s.len();
        proof { lemma_find_from_facts(s@, needle@, 0); }
        let pos = match find_at(&s, &needle, 0) {
            Some(p) => p,
            None => {
                return None;
            },
        };
        assert(find_from(s@, needle@, 0) == Some(pos as int));
        let head = sub_vec(&s, 0, pos);
        proof { lemma_rfind_char_facts(head@, '<'); }
        let ts = match rfind_char_in(&head, '<') {
            Some(t) => {
                assert(rfind_char(head@, '<') == Some(t as int));
                t
            },
            None => 0,
        };
        proof { lemma_find_char_from_facts(s@, '>', pos as int); }
        let te = match find_char_at(&s, '>', pos) {
            Some(p) => {
                assert(find_char_from(s@, '>', pos as int) == Some(p as int));
                p + 1
            },
            None => s.len(),
        };
        let tag = string_of(&sub_vec(&s, ts, te));
        match attr_value(tag.as_str(), "href") {
            Some(href) => {
                return Some(resolve_exec(href, base_url));
            },
            None => {},
        }
        off = off + pos + needle.len();
    }
    None
}

/// The page URL without trailing slashes.
pub open spec fn base_of(url: Seq<char>) -> Seq<char> {
    trim_end_char(url, '/')
}

/// The usual feed paths tried on a site.
pub open spec fn feed_suffix(i: int) -> Seq<char> {
    if i == 0 {
        "/feed"@
    } else if i == 1 {
        "/rss"@
    } else if i == 2 {
        "/atom.xml"@
    } else if i == 3 {
        "/feed.xml"@
    } else {
        "/rss.xml"@
    }
}

/// The candidate feed URLs of a page, in the order they are tried.
pub fn feed_candidates(url: &str) -> (r: Vec<String>)
    ensures
        r@.len() == 5,
        forall|i: int| 0 <= i < 5 ==> #[trigger] r@[i]@ == base_of(url@) + feed_suffix(i),
{
    let base = crate::huggingface::trim_end_char_exec(&chars_of(url), '/');
    let suffixes: [&str; 5] = ["/feed", "/rss", "/atom.xml", "/feed.xml", "/rss.xml"];
    let mut out: Vec<String> = Vec::new();
    let mut i: usize = 0;
    while i < 5
        invariant
            0 <= i <= 5,
            base@ == base_of(url@),
            suffixes@[0]@ == "/feed"@,
            suffixes@[1]@ == "/rss"@,
            suffixes@[2]@ == "/atom.xml"@,
            suffixes@[3]@ == "/feed.xml"@,
            suffixes@[4]@ == "/rss.xml"@,
            out@.len() == i,
            forall|k: int| 0 <= k < i ==> #[trigger] out@[k]@ == base_of(url@) + feed_suffix(k),
        decreases 5 - i,
    {
        let mut v = sub_vec(&base, 0, base.len());
        assert(base@.subrange(0, base@.len() as int) =~= base@);
        push_str(&mut v, suffixes[i]);
        out.push(string_of(&v));
        i += 1;
    }
    out
}

/// The message when no feed was found.
pub fn discovery_failure(url: &str) -> (r: DiscoverResult)
    ensures
        r matches DiscoverResult::Failed(m) && m@ == "Could not find a feed. Tried: "@ + crate::text::join_with(
            Seq::new(5, |i: int| base_of(url@) + feed_suffix(i)),
            ", "@,
        ),
{
    let c = feed_candidates(url);
    let joined = crate::text::join_strings(&c, ", ");
    assert(crate::models::views(c@) =~= Seq::new(5, |i: int| base_of(url@) + feed_suffix(i)));
    let mut v = chars_of("Could not find a feed. Tried: ");
    push_str(&mut v, joined.as_str());
    DiscoverResult::Failed(string_of(&v))
}

/// The code after an arXiv listing prefix: up to `/`, `?`, `#` or a space.
pub open spec fn code_end(s: Seq<char>, i: int) -> int
    decreases s.len() - i,
{
    if i < 0 || i >= s.len() {
        s.len() as int
    } else if s[i] == '/' || s[i] == '?' || s[i] == '#' || s[i] == ' ' {
        i
    } else {
        code_end(s, i + 1)
    }
}

/// The arXiv category named after `prefix` in a URL, when it looks like a
/// code (it has a `.` or is at most 8 bytes).
pub open spec fn category_after(url: Seq<char>, prefix: Seq<char>) -> Option<Seq<char>> {
    match find(url, prefix) {
        None => None,
        Some(pos) => {
            let rest = url.subrange(pos + prefix.len(), url.len() as int);
            let code = rest.subrange(0, code_end(rest, 0));
            if code.len() > 0 && (code.contains('.') || vstd::utf8::encode_utf8(code).len() <= 8) {
                Some(code)
            } else {
                None
            }
        },
    }
}

/// The listing prefixes of arXiv URLs, tried in this order.
pub open spec fn arxiv_prefix(i: int) -> Seq<char> {
    if i == 0 {
        "arxiv.org/list/"@
    } else if i == 1 {
        "arxiv.org/abs/"@
    } else if i == 2 {
        "arxiv.org/rss/"@
    } else {
        "export.arxiv.org/rss/"@
    }
}

/// The category of the first arXiv prefix from `i` on that names one.
pub open spec fn first_category(url: Seq<char>, i: int) -> Option<Seq<char>>
    decreases 4 - i,
{
    if i < 0 || i >= 4 {
        None
    } else {
        match category_after(url, arxiv_prefix(i)) {
            Some(c) => Some(c),
            None => first_category(url, i + 1),
        }
    }
}

/// The Substack subdomain of a URL: its text after the scheme, up to the
/// first `.`.
pub open spec fn substack_name(url: Seq<char>) -> Seq<char> {
    before_char(strip_all(strip_all(url, "https://"@), "http://"@), '.')
}

/// Whether `r` is the source a URL names without fetching it: the category
/// of the first arXiv listing prefix that names one; Hugging Face daily
/// papers (already a source); a Substack feed; otherwise none.
pub open spec fn offline_result(url: Seq<char>, r: Option<DiscoverResult>) -> bool {
    match first_category(url, 0) {
        Some(code) => r matches Some(DiscoverResult::ArxivCategory(c)) && c@ == code,
        None => if contains_seq(url, "huggingface.co/papers"@) || contains_seq(url, "huggingface.co/daily-papers"@) {
            r matches Some(DiscoverResult::HuggingFaceAlreadyEnabled)
        } else if contains_seq(url, ".substack.com"@) {
            r matches Some(DiscoverResult::RssFeed { url: u, name: n }) && u@ == "https://"@ + substack_name(url)
                + ".substack.com/feed"@ && n@ == substack_name(url)
        } else {
            r is None
        },
    }
}

proof fn lemma_code_end(s: Seq<char>, i: int)
    requires
        0 <= i <= s.len(),
    ensures
        i <= code_end(s, i) <= s.len(),
    decreases s.len() - i,
{
    if i < s.len() && !(s[i] == '/' || s[i] == '?' || s[i] == '#' || s[i] == ' ') {
        lemma_code_end(s, i + 1);
    }
}

fn category_exec(url: &Vec<char>, prefix: &str) -> (r: Option<String>)
    ensures
        crate::models::opt_view(r) == category_after(url@, prefix@),
{
    let p = chars_of(prefix);
    let n = url.len();
    proof { lemma_find_from_facts(url@, p@, 0); }
    let pos = match find_at(url, &p, 0) {
        Some(x) => x,
        None => {
            return None;
        },
    };
    assert(find_from(url@, p@, 0) == Some(pos as int));
    let rest = sub_vec(url, pos + p.len(), url.len());
    let mut e: usize = 0;
    proof { lemma_code_end(rest@, 0); }
    while e < rest.len() && rest[e] != '/' && rest[e] != '?' && rest[e] != '#' && rest[e] != ' '
        invariant
            0 <= e <= rest@.len(),
            code_end(rest@, 0) == code_end(rest@, e as int),
        decreases rest.len() - e,
    {
        e += 1;
    }
    let code = string_of(&sub_vec(&rest, 0, e));
    let cv = chars_of(code.as_str());
    proof { lemma_find_char_from_facts(cv@, '.', 0); }
    let has_dot = find_char_at(&cv, '.', 0).is_some();
    proof {
        if cv@.contains('.') {
            let k = choose|k: int| 0 <= k < cv@.len() && cv@[k] == '.';
            assert(find_char_from(cv@, '.', 0) is Some);
        }
    }
    if cv.len() > 0 && (has_dot || code.as_str().as_bytes().len() <= 8) {
        Some(code)
    } else {
        None
    }
}

fn first_category_exec(url: &Vec<char>) -> (r: Option<String>)
    ensures
        crate::models::opt_view(r) == first_category(url@, 0),
{
    let prefixes: [&str; 4] = ["arxiv.org/list/", "arxiv.org/abs/", "arxiv.org/rss/", "export.arxiv.org/rss/"];
    let mut i: usize = 0;
    while i < 4
        invariant
            0 <= i <= 4,
            forall|k: int| 0 <= k < 4 ==> #[trigger] prefixes@[k]@ == arxiv_prefix(k),
            first_category(url@, 0) == first_category(url@, i as int),
        decreases 4 - i,
    {
        match category_exec(url, prefixes[i]) {
            Some(c) => {
                return Some(c);
            },
            None => {},
        }
        i += 1;
    }
    None
}

/// The source a URL names without fetching it (see `offline_result`).
pub fn discover_offline(url: &str) -> (r: Option<DiscoverResult>)
    ensures
        offline_result(url@, r),
{
    let v = chars_of(url);
    match first_category_exec(&v) {
        Some(code) => {
            return Some(DiscoverResult::ArxivCategory(code));
        },
        None => {},
    }
    if str_contains(url, "huggingface.co/papers") || str_contains(url, "huggingface.co/daily-papers") {
        return Some(DiscoverResult::HuggingFaceAlreadyEnabled);
    }
    if str_contains(url, ".substack.com") {
        let a = strip_all_pub(&v, &chars_of("https://"));
        let b = strip_all_pub(&a, &chars_of("http://"));
        let sub = before_char_exec(&b, '.');
        let mut u = chars_of("https://");
        push_all(&mut u, &sub);
        push_str(&mut u, ".substack.com/feed");
        return Some(DiscoverResult::RssFeed { url: string_of(&u), name: string_of(&sub) });
    }
    None
}

/// The source found in a fetched page: its feed link, named after the page's
/// domain.
pub fn discover_from_page(url: &str, body: &str) -> (r: Option<DiscoverResult>)
    ensures
        match rss_link_from(body@, base_of(url@), 0) {
            Some(link) => r matches Some(DiscoverResult::RssFeed { url: u, name: n }) && u@ == link && n@
                == spec_domain_name(url@),
            None => r is None,
        },
{
    let base = string_of(&crate::huggingface::trim_end_char_exec(&chars_of(url), '/'));
    match extract_rss_link(body, base.as_str()) {
        Some(link) => Some(DiscoverResult::RssFeed { url: link, name: domain_name(url) }),
        None => None,
    }
}

/// The source for a feed path that answered: the path itself, named after
/// its domain.
pub fn discover_from_candidate(candidate: String) -> (r: DiscoverResult)
    ensures
        r matches DiscoverResult::RssFeed { url: u, name: n } && u@ == candidate@ && n@ == spec_domain_name(
            candidate@,
        ),
{
    let name = domain_name(candidate.as_str());
    DiscoverResult::RssFeed { url: candidate, name }
}

} // verus!
