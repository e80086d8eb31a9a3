//! The CORE open-access search API: works read into feed items.
use vstd::prelude::*;

use crate::models::{detect_subtopics, is_clean_item, make_clean_item, owned_strings, spec_subtopics, views, ContentType, FeedItem, SourcePlatform};
use crate::strs::{chars_of, contains_seq, push_str, starts_with, str_contains, str_starts_with, string_of, to_owned_string};
use crate::text::{collapse_whitespace, collapsed};

verus! {

broadcast use vstd::string::group_string_axioms;

/// An author of a work.
#[derive(Debug, Clone)]
pub struct CoreAuthor {
    pub name: Option<String>,
}

/// A link of a work.
#[derive(Debug, Clone)]
pub struct CoreLink {
    pub url: String,
}

/// One work as the API describes it.
#[derive(Debug, Clone)]
pub struct CoreWork {
    pub title: Option<String>,
    pub abstract_text: Option<String>,
    pub authors: Vec<CoreAuthor>,
    pub published_date: Option<String>,
    pub year_published: Option<String>,
    pub source_fulltext_urls: Vec<String>,
    pub links: Vec<CoreLink>,
}

/// The named authors, in order.
pub open spec fn core_authors(a: Seq<CoreAuthor>) -> Seq<Seq<char>>
    decreases a.len(),
{
    if a.len() == 0 {
        Seq::empty()
    } else {
        let before = core_authors(a.drop_last());
        match a.last().name {
            Some(n) => if n@.len() > 0 { before.push(n@) } else { before },
            None => before,
        }
    }
}

/// The first full-text URL that points at an arXiv abstract page.
pub open spec fn first_arxiv_url(urls: Seq<String>) -> Option<Seq<char>>
    decreases urls.len(),
{
    if urls.len() == 0 {
        None
    } else if contains_seq(urls[0]@, "arxiv.org/abs/"@) {
        Some(urls[0]@)
    } else {
        first_arxiv_url(urls.drop_first())
    }
}

/// The first link that starts with `http`.
pub open spec fn first_http_link(links: Seq<CoreLink>) -> Option<Seq<char>>
    decreases links.len(),
{
    if links.len() == 0 {
        None
    } else if starts_with(links[0].url@, "http"@) {
        Some(links[0].url@)
    } else {
        first_http_link(links.drop_first())
    }
}

/// The URL of a work: an arXiv abstract page when it has one, else its first
/// web link.
pub open spec fn core_url(w: CoreWork) -> Option<Seq<char>> {
    match first_arxiv_url(w.source_fulltext_urls@) {
        Some(u) => Some(u),
        None => first_http_link(w.links@),
    }
}

/// The item a work becomes: none without a title (after collapsing
/// whitespace) or without a URL.
pub open spec fn core_item_ok(r: Option<FeedItem>, w: CoreWork) -> bool {
    match w.title {
        None => r is None,
        Some(t) => {
            let title = collapsed(t@);
            let summary = collapsed(match w.abstract_text { Some(a) => a@, None => Seq::empty() });
            let published = match w.published_date {
                Some(d) => d@,
                None => match w.year_published {
                    Some(y) => y@,
                    None => Seq::empty(),
                },
            };
            if title.len() == 0 {
                r is None
            } else {
                match core_url(w) {
                    None => r is None,
                    Some(url) => r matches Some(item) && is_clean_item(
                        item,
                        url,
                        url,
                        title,
                        SourcePlatform::Core,
                        ContentType::Paper,
                        spec_subtopics(title, summary),
                        published,
                        core_authors(w.authors@),
                        summary,
                        "core"@,
                    ),
                }
            }
        },
    }
}

fn authors_of(a: &Vec<CoreAuthor>) -> (r: Vec<String>)
    ensures
        views(r@) == core_authors(a@),
{
    let mut r: Vec<String> = Vec::new();
    let mut i: usize = 0;
    while i < a.len()
        invariant
            0 <= i <= a@.len(),
            views(r@) == core_authors(a@.take(i as int)),
        decreases a.len() - i,
    {
        assert(a@.take(i + 1).drop_last() =~= a@.take(i as int));
        assert(a@.take(i + 1).last() == a@[i as int]);
        let ghost before = views(r@);
        match &a[i].name {
            Some(n) => {
                if n.as_str().unicode_len() > 0 {
                    r.push(n.clone());
                    assert(views(r@) =~= before.push(n@));
                }
            },
            None => {},
        }
        i += 1;
    }
    assert(a@.take(a@.len() as int) =~= a@);
    r
}

fn url_of(w: &CoreWork) -> (r: Option<String>)
    ensures
        crate::models::opt_view(r) == core_url(*w),
{
    let mut i: usize = 0;
    assert(w.source_fulltext_urls@.subrange(0, w.source_fulltext_urls@.len() as int) =~= w.source_fulltext_urls@);
    while i < w.source_fulltext_urls.len()
        invariant
            0 <= i <= w.source_fulltext_urls@.len(),
            first_arxiv_url(w.source_fulltext_urls@) == first_arxiv_url(
                w.source_fulltext_urls@.subrange(i as int, w.source_fulltext_urls@.len() as int),
            ),
        decreases w.source_fulltext_urls.len() - i,
    {
        let ghost rest = w.source_fulltext_urls@.subrange(i as int, w.source_fulltext_urls@.len() as int);
        assert(rest.drop_first() =~= w.source_fulltext_urls@.subrange(i + 1, w.source_fulltext_urls@.len() as int));
        if str_contains(w.source_fulltext_urls[i].as_str(), "arxiv.org/abs/") {
            return Some(w.source_fulltext_urls[i].clone());
        }
        i += 1;
    }
    let mut j: usize = 0;
    assert(w.links@.subrange(0, w.links@.len() as int) =~= w.links@);
    while j < w.links.len()
        invariant
            0 <= j <= w.links@.len(),
            first_arxiv_url(w.source_fulltext_urls@) is None,
            first_http_link(w.links@) == first_http_link(w.links@.subrange(j as int, w.links@.len() as int)),
        decreases w.links.len() - j,
    {
        let ghost rest = w.links@.subrange(j as int, w.links@.len() as int);
        assert(rest.drop_first() =~= w.links@.subrange(j + 1, w.links@.len() as int));
        if str_starts_with(w.links[j].url.as_str(), "http") {
            return Some(w.links[j].url.clone());
        }
        j += 1;
    }
    None
}

/// The feed item of one CORE work (see `core_item_ok`).
pub fn work_to_item(w: &CoreWork) -> (r: Option<FeedItem>)
    ensures
        core_item_ok(r, *w),
{
    let t = match &w.title {
        Some(t) => t,
        None => {
            return None;
        },
    };
    let title = collapse_whitespace(t.as_str());
    if title.as_str().unicode_len() == 0 {
        return None;
    }
    let summary = match &w.abstract_text {
        Some(a) => collapse_whitespace(a.as_str()),
        None => {
            proof { reveal_strlit(""); }
            collapse_whitespace("")
        },
    };
    let authors = authors_of(&w.authors);
    let published = match &w.published_date {
        Some(d) => d.clone(),
        None => match &w.year_published {
            Some(y) => y.clone(),
            None => String::new(),
        },
    };
    let url = match url_of(w) {
        Some(u) => u,
        None => {
            return None;
        },
    };
    let tags = owned_strings(&detect_subtopics(title.as_str(), summary.as_str()));
    let id = url.clone();
    Some(make_clean_item(id, url, title, SourcePlatform::Core, ContentType::Paper, tags, published, authors, summary, to_owned_string("core")))
}

/// The URL of the newest 25 AI / ML works.
pub fn search_url(api_key: &str) -> (r: String)
    ensures
        r@ == "https://api.core.ac.uk/v3/search/works?q=artificial+intelligence+machine+learning&limit=25&sort=recency&apiKey="@
            + api_key@,
{
    let mut u = chars_of("https://api.core.ac.uk/v3/search/works?q=artificial+intelligence+machine+learning&limit=25&sort=recency&apiKey=");
    push_str(&mut u, api_key);
    string_of(&u)
}

} // verus!
