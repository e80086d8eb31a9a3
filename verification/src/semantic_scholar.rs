//! Semantic Scholar metadata for arXiv items.
use vstd::prelude::*;

use crate::models::{opt_view, spec_arxiv_id_from_url, views, FeedItem};
use crate::strs::{chars_of, lowercase, push_str, str_eq, string_of, to_lowercase, to_owned_string};

verus! {

broadcast use vstd::string::group_string_axioms;

/// The most network requests in one round without an API key.
pub const MAX_REQUESTS: usize = 10;

/// What is cached of a paper.
#[derive(Debug, Clone)]
pub struct EnrichmentEntry {
    pub authors: Vec<String>,
    pub institution: String,
    pub citation_count: u32,
    pub fields_of_study: Vec<String>,
    pub cached_at: String,
}

/// What the API answered for a paper, as far as it is read.
#[derive(Debug, Clone)]
pub struct S2Paper {
    /// The answer has an `error` or a `message` key.
    pub is_error: bool,
    /// The `name` of each author (none where it is not a string).
    pub author_names: Vec<Option<String>>,
    /// The `name` of the first author's first affiliation.
    pub first_affiliation: Option<String>,
    /// `citationCount`, when it is an unsigned integer.
    pub citation_count: Option<u64>,
    /// The `category` of each field of study (none where not a string).
    pub field_categories: Vec<Option<String>>,
}

/// The texts that are present, in order.
pub open spec fn present(v: Seq<Option<String>>) -> Seq<Seq<char>>
    decreases v.len(),
{
    if v.len() == 0 {
        Seq::empty()
    } else {
        let before = present(v.drop_last());
        match v.last() {
            Some(s) => before.push(s@),
            None => before,
        }
    }
}

fn present_exec(v: &Vec<Option<String>>) -> (r: Vec<String>)
    ensures
        views(r@) == present(v@),
{
    let mut r: Vec<String> = Vec::new();
    let mut i: usize = 0;
    while i < v.len()
        invariant
            0 <= i <= v@.len(),
            views(r@) == present(v@.take(i as int)),
        decreases v.len() - i,
    {
        assert(v@.take(i + 1).drop_last() =~= v@.take(i as int));
        assert(v@.take(i + 1).last() == v@[i as int]);
        let ghost before = views(r@);
        match &v[i] {
            Some(s) => {
                r.push(s.clone());
                assert(views(r@) =~= before.push(s@));
            },
            None => {},
        }
        i += 1;
    }
    assert(v@.take(v@.len() as int) =~= v@);
    r
}

/// The cache entry an answer gives, dated `today`: none for an error
/// answer; the citation count keeps its low 32 bits.
pub fn entry_from_paper(p: &S2Paper, today: &str) -> (r: Option<EnrichmentEntry>)
    ensures
        p.is_error <==> r is None,
        r matches Some(e) ==> {
            &&& views(e.authors@) == present(p.author_names@)
            &&& e.institution@ == match p.first_affiliation {
                Some(s) => s@,
                None => Seq::empty(),
            }
            &&& e.citation_count == match p.citation_count {
                Some(c) => c as u32,
                None => 0u32,
            }
            &&& views(e.fields_of_study@) == present(p.field_categories@)
            &&& e.cached_at@ == today@
        },
{
    if p.is_error {
        return None;
    }
    let citation_count: u32 = match p.citation_count {
        Some(c) => (c % 0x1_0000_0000) as u32,
        None => 0,
    };
    proof {
        match p.citation_count {
            Some(c) => {
                assert((c % 0x1_0000_0000) as u32 == c as u32) by (bit_vector);
            },
            None => {},
        }
    }
    Some(EnrichmentEntry {
        authors: present_exec(&p.author_names),
        institution: match &p.first_affiliation {
            Some(s) => s.clone(),
            None => String::new(),
        },
        citation_count,
        fields_of_study: present_exec(&p.field_categories),
        cached_at: to_owned_string(today),
    })
}

/// Whether the tags are exactly the fallback `["ml"]`.
pub open spec fn only_ml(tags: Seq<Seq<char>>) -> bool {
    tags == seq!["ml"@]
}

/// Fill an item from a cache entry: its authors when it has none, and its
/// tags (lower-cased fields of study) when it only has the fallback tag.
pub fn apply_entry(item: &mut FeedItem, entry: &EnrichmentEntry)
    ensures
        views(final(item).authors@) == if old(item).authors@.len() == 0 && entry.authors@.len() > 0 {
            views(entry.authors@)
        } else {
            views(old(item).authors@)
        },
        views(final(item).domain_tags@) == if only_ml(views(old(item).domain_tags@)) && entry.fields_of_study@.len() > 0 {
            views(entry.fields_of_study@).map_values(|s: Seq<char>| lowercase(s))
        } else {
            views(old(item).domain_tags@)
        },
        final(item).id == old(item).id,
        final(item).url == old(item).url,
        final(item).title == old(item).title,
        final(item).summary_short == old(item).summary_short,
        final(item).upvote_count == old(item).upvote_count,
{
    if item.authors.len() == 0 && entry.authors.len() > 0 {
        item.authors = crate::strs::clone_strings(&entry.authors);
    }
    let is_ml = item.domain_tags.len() == 1 && str_eq(item.domain_tags[0].as_str(), "ml");
    assert(is_ml == only_ml(views(item.domain_tags@))) by {
        if is_ml {
            assert(views(item.domain_tags@) =~= seq!["ml"@]);
        }
        if only_ml(views(item.domain_tags@)) {
            assert(views(item.domain_tags@).len() == 1);
            assert(views(item.domain_tags@)[0] == seq!["ml"@][0]);
            assert(item.domain_tags@[0]@ == "ml"@);
        }
    }
    if is_ml && entry.fields_of_study.len() > 0 {
        let mut tags: Vec<String> = Vec::new();
        let mut i: usize = 0;
        while i < entry.fields_of_study.len()
            invariant
                0 <= i <= entry.fields_of_study@.len(),
                views(tags@) == views(entry.fields_of_study@).take(i as int).map_values(|s: Seq<char>| lowercase(s)),
            decreases entry.fields_of_study.len() - i,
        {
            let ghost before = views(tags@);
            tags.push(to_lowercase(entry.fields_of_study[i].as_str()));
            assert(views(tags@) =~= before.push(lowercase(entry.fields_of_study@[i as int]@)));
            assert(views(entry.fields_of_study@).take(i + 1).map_values(|s: Seq<char>| lowercase(s)) =~= views(
                entry.fields_of_study@,
            ).take(i as int).map_values(|s: Seq<char>| lowercase(s)).push(lowercase(entry.fields_of_study@[i as int]@)));
            i += 1;
        }
        assert(views(entry.fields_of_study@).take(entry.fields_of_study@.len() as int) =~= views(entry.fields_of_study@));
        item.domain_tags = tags;
    }
}

/// Extract an arXiv ID from known URL patterns, as an owned string.
pub fn arxiv_id_from_url(url: &str) -> (r: Option<String>)
    ensures
        opt_view(r) == spec_arxiv_id_from_url(url@),
{
    match crate::models::arxiv_id_from_url(url) {
        Some(id) => Some(to_owned_string(id)),
        None => None,
    }
}

/// The API URL of an arXiv paper's authors, citations and fields.
pub fn paper_api_url(id: &str) -> (r: String)
    ensures
        r@ == "https://api.semanticscholar.org/graph/v1/paper/arXiv:"@ + id@
            + "?fields=authors,citationCount,fieldsOfStudy"@,
{
    let mut u = chars_of("https://api.semanticscholar.org/graph/v1/paper/arXiv:");
    push_str(&mut u, id);
    push_str(&mut u, "?fields=authors,citationCount,fieldsOfStudy");
    string_of(&u)
}

/// What to do for one item.
#[derive(Debug, Clone, PartialEq, Eq)]
pub enum S2Step {
    /// Not an arXiv item: skip it.
    Skip,
    /// A fresh cache entry: apply it.
    UseCached,
    /// Without an API key the request budget is spent: stop.
    Stop,
    /// Ask the API.
    Fetch,
}

/// The decision for one item: skip items without an arXiv id, use a fresh
/// cache entry, stop once `MAX_REQUESTS` requests were made without an API
/// key, and otherwise ask the API.
pub fn enrich_step(has_id: bool, cache_fresh: bool, has_api_key: bool, requests_made: usize) -> (r: S2Step)
    ensures
        r == if !has_id {
            S2Step::Skip
        } else if cache_fresh {
            S2Step::UseCached
        } else if !has_api_key && requests_made >= MAX_REQUESTS {
            S2Step::Stop
        } else {
            S2Step::Fetch
        },
{
    if !has_id {
        S2Step::Skip
    } else if cache_fresh {
        S2Step::UseCached
    } else if !has_api_key && requests_made >= MAX_REQUESTS {
        S2Step::Stop
    } else {
        S2Step::Fetch
    }
}

/// Whether an enrichment cache entry dated `cached_at` (`YYYY-MM-DD`) is
/// stale on the day numbered `today`: more than 7 days old, or with no
/// readable date.
pub fn is_stale(cached_at: &str, today: i64) -> (r: bool)
    ensures
        r == crate::dates::stale_after(cached_at@, today, 7),
{
    match crate::dates::day_number(cached_at) {
        Some(d) => (today as i128) - (d as i128) > 7,
        None => true,
    }
}

} // verus!
