//! Crossref works read into feed items.
use vstd::prelude::*;

use crate::models::{detect_subtopics, is_clean_item, make_clean_item, owned_strings, spec_subtopics, views, ContentType, FeedItem, SourcePlatform};
use crate::strs::{chars_of, decimal, find_at, find_from, lemma_find_from_facts, push_decimal, push_str, string_of, sub_vec, to_owned_string, trim, trim_vec};
use crate::text::{collapse_whitespace, collapsed};

verus! {

broadcast use vstd::string::group_string_axioms;

/// An author as Crossref names them.
#[derive(Debug, Clone)]
pub struct CrAuthor {
    pub given: Option<String>,
    pub family: Option<String>,
}

/// One work as Crossref describes it.
#[derive(Debug, Clone)]
pub struct CrWork {
    pub doi: Option<String>,
    pub url: Option<String>,
    pub title: Vec<String>,
    pub abstract_text: Option<String>,
    pub author: Vec<CrAuthor>,
    /// The `date-parts` of `published`, when there is a `published`.
    pub published: Option<Vec<Vec<i32>>>,
}

/// `str::replace` on the text from position `i` on: every non-overlapping
/// occurrence of `pat`, left to right, replaced by `rep`.
pub open spec fn replace_from(s: Seq<char>, pat: Seq<char>, rep: Seq<char>, i: int) -> Seq<char>
    decreases s.len() - i,
{
    if i < 0 || i > s.len() || pat.len() == 0 {
        s.subrange(if 0 <= i <= s.len() { i } else { s.len() as int }, s.len() as int)
    } else {
        match find_from(s, pat, i) {
            None => s.subrange(i, s.len() as int),
            Some(k) => if k < i || k + pat.len() > s.len() {
                Seq::empty()
            } else {
                s.subrange(i, k) + rep + replace_from(s, pat, rep, k + pat.len())
            },
        }
    }
}

pub open spec fn replace_all(s: Seq<char>, pat: Seq<char>, rep: Seq<char>) -> Seq<char> {
    replace_from(s, pat, rep, 0)
}

fn replace_exec(s: &Vec<char>, pat: &Vec<char>, rep: &str) -> (r: Vec<char>)
    requires
        pat@.len() > 0,
    ensures
        r@ == replace_all(s@, pat@, rep@),
{
    let mut out: Vec<char> = Vec::new();
    let mut i: usize = 0;
    let n = s.len();
    while i <= s.len()
        invariant
            0 <= i <= s@.len() + 1,
            s@.len() == n,
            pat@.len() > 0,
            i <= s@.len() ==> out@ + replace_from(s@, pat@, rep@, i as int) == replace_all(s@, pat@, rep@),
            i > s@.len() ==> out@ == replace_all(s@, pat@, rep@),
        decreases s.len() + 1 - i,
    {
        proof { lemma_find_from_facts(s@, pat@, i as int); }
        match find_at(s, pat, i) {
            None => {
                let tail = sub_vec(s, i, s.len());
                crate::strs::push_all(&mut out, &tail);
                assert(out@ == replace_all(s@, pat@, rep@));
                return out;
            },
            Some(k) => {
                assert(find_from(s@, pat@, i as int) == Some(k as int));
                let head = sub_vec(s, i, k);
                let ghost before = out@;
                crate::strs::push_all(&mut out, &head);
                push_str(&mut out, rep);
                assert(out@ =~= before + (s@.subrange(i as int, k as int) + rep@));
                i = k + pat.len();
            },
        }
    }
    out
}

/// A name from its given and family parts.
pub open spec fn author_name(a: CrAuthor) -> Seq<char> {
    match (a.given, a.family) {
        (Some(g), Some(f)) => g@ + " "@ + f@,
        (None, Some(f)) => f@,
        (Some(g), None) => g@,
        _ => Seq::empty(),
    }
}

pub open spec fn cr_authors(a: Seq<CrAuthor>) -> Seq<Seq<char>>
    decreases a.len(),
{
    if a.len() == 0 {
        Seq::empty()
    } else {
        let before = cr_authors(a.drop_last());
        let n = author_name(a.last());
        if n.len() > 0 { before.push(n) } else { before }
    }
}

/// `{:0w$}`: at least `w` characters, zero-padded after the sign.
pub open spec fn padded(n: int, w: nat) -> Seq<char> {
    let digits = decimal(if n < 0 { (-n) as nat } else { n as nat });
    let sign: Seq<char> = if n < 0 { seq!['-'] } else { Seq::empty() };
    let fill_len: int = w - sign.len() - digits.len();
    sign + Seq::new(if fill_len > 0 { fill_len as nat } else { 0 }, |i: int| '0') + digits
}

/// The date of the first `date-parts` entry as YYYY-MM-DD, with a missing
/// month or day read as `01`.
pub open spec fn cr_date(published: Option<Vec<Vec<i32>>>) -> Seq<char> {
    match published {
        None => Seq::empty(),
        Some(parts) => if parts@.len() == 0 {
            Seq::empty()
        } else {
            let p = parts@[0]@;
            if p.len() == 3 {
                padded(p[0] as int, 4) + "-"@ + padded(p[1] as int, 2) + "-"@ + padded(p[2] as int, 2)
            } else if p.len() == 2 {
                padded(p[0] as int, 4) + "-"@ + padded(p[1] as int, 2) + "-01"@
            } else if p.len() == 1 {
                padded(p[0] as int, 4) + "-01-01"@
            } else {
                Seq::empty()
            }
        },
    }
}

/// The URL of a work: its `URL`, or else its DOI link.
pub open spec fn cr_url(w: CrWork) -> Seq<char> {
    match w.url {
        Some(u) => u@,
        None => "https://doi.org/"@ + match w.doi {
            Some(d) => d@,
            None => Seq::empty(),
        },
    }
}

/// The abstract text (empty when there is none).
pub open spec fn abstract_view(w: CrWork) -> Seq<char> {
    match w.abstract_text {
        Some(a) => a@,
        None => Seq::empty(),
    }
}

/// The abstract without JATS paragraph tags, whitespace collapsed.
pub open spec fn cr_summary(w: CrWork) -> Seq<char> {
    let a = match w.abstract_text {
        Some(a) => a@,
        None => Seq::empty(),
    };
    collapsed(replace_all(replace_all(a, "<jats:p>"@, Seq::empty()), "</jats:p>"@, " "@))
}

/// The item a work becomes: none without a title or with an empty URL.
pub open spec fn cr_item_ok(r: Option<FeedItem>, w: CrWork) -> bool {
    if w.title@.len() == 0 {
        r is None
    } else {
        let title = collapsed(w.title@[0]@);
        let url = cr_url(w);
        if title.len() == 0 || url.len() == 0 {
            r is None
        } else {
            r matches Some(item) && is_clean_item(
                item,
                url,
                url,
                title,
                SourcePlatform::Blog,
                ContentType::Paper,
                spec_subtopics(title, cr_summary(w)),
                cr_date(w.published),
                cr_authors(w.author@),
                cr_summary(w),
                "crossref"@,
            )
        }
    }
}

fn push_padded(v: &mut Vec<char>, n: i32, w: usize)
    requires
        w <= 4,
    ensures
        final(v)@ == old(v)@ + padded(n as int, w as nat),
{
    let ghost start = v@;
    let neg = n < 0;
    let mag: u64 = if neg { (-(n as i64)) as u64 } else { n as u64 };
    let mut digits: Vec<char> = Vec::new();
    push_decimal(&mut digits, mag);
    assert(digits@ =~= decimal(mag as nat));
    if neg {
        v.push('-');
    }
    let sign_len: usize = if neg { 1 } else { 0 };
    let mut k: usize = 0;
    let fill: usize = if digits.len() < w && sign_len < w - digits.len() { w - digits.len() - sign_len } else { 0 };
    let ghost mid = v@;
    while k < fill
        invariant
            0 <= k <= fill,
            v@ == mid + Seq::new(k as nat, |i: int| '0'),
        decreases fill - k,
    {
        v.push('0');
        k += 1;
        assert(v@ =~= mid + Seq::new(k as nat, |i: int| '0'));
    }
    crate::strs::push_all(v, &digits);
    proof {
        let sign: Seq<char> = if neg { seq!['-'] } else { Seq::empty() };
        assert(mid =~= start + sign);
        assert(v@ =~= start + (sign + Seq::new(fill as nat, |i: int| '0') + decimal(mag as nat)));
    }
}

fn date_of(published: &Option<Vec<Vec<i32>>>) -> (r: String)
    ensures
        r@ == cr_date(*published),
{
    match published {
        None => String::new(),
        Some(parts) => {
            if parts.len() == 0 {
                return String::new();
            }
            let p = &parts[0];
            let mut v: Vec<char> = Vec::new();
            proof {
                reveal_strlit("-");
                reveal_strlit("-01");
                reveal_strlit("-01-01");
            }
            if p.len() == 3 {
                push_padded(&mut v, p[0], 4);
                v.push('-');
                push_padded(&mut v, p[1], 2);
                v.push('-');
                push_padded(&mut v, p[2], 2);
            } else if p.len() == 2 {
                push_padded(&mut v, p[0], 4);
                v.push('-');
                push_padded(&mut v, p[1], 2);
                push_str(&mut v, "-01");
            } else if p.len() == 1 {
                push_padded(&mut v, p[0], 4);
                push_str(&mut v, "-01-01");
            }
            let r = string_of(&v);
            assert(r@ =~= cr_date(*published));
            r
        },
    }
}

fn authors_of(a: &Vec<CrAuthor>) -> (r: Vec<String>)
    ensures
        views(r@) == cr_authors(a@),
{
    let mut r: Vec<String> = Vec::new();
    let mut i: usize = 0;
    while i < a.len()
        invariant
            0 <= i <= a@.len(),
            views(r@) == cr_authors(a@.take(i as int)),
        decreases a.len() - i,
    {
        assert(a@.take(i + 1).drop_last() =~= a@.take(i as int));
        assert(a@.take(i + 1).last() == a@[i as int]);
        let name = match (&a[i].given, &a[i].family) {
            (Some(g), Some(f)) => {
                let mut v = chars_of(g.as_str());
                v.push(' ');
                push_str(&mut v, f.as_str());
                proof { reveal_strlit(" "); }
                assert(v@ =~= g@ + " "@ + f@);
                string_of(&v)
            },
            (None, Some(f)) => f.clone(),
            (Some(g), None) => g.clone(),
            _ => String::new(),
        };
        let ghost before = views(r@);
        if name.as_str().unicode_len() > 0 {
            let ghost nv = name@;
            r.push(name);
            assert(views(r@) =~= before.push(nv));
        }
        i += 1;
    }
    assert(a@.take(a@.len() as int) =~= a@);
    r
}

fn summary_of(w: &CrWork) -> (r: String)
    ensures
        r@ == cr_summary(*w),
{
    let a = match &w.abstract_text {
        Some(a) => chars_of(a.as_str()),
        None => Vec::new(),
    };
    let open = chars_of("<jats:p>");
    let close = chars_of("</jats:p>");
    proof {
        reveal_strlit("<jats:p>");
        reveal_strlit("</jats:p>");
        reveal_strlit("");
    }
    let ghost av = abstract_view(*w);
    assert(a@ == av);
    let a1 = replace_exec(&a, &open, "");
    assert(""@ =~= Seq::<char>::empty());
    assert(a1@ == replace_all(av, "<jats:p>"@, Seq::empty()));
    let a2 = replace_exec(&a1, &close, " ");
    let t = string_of(&a2);
    assert(t@ == replace_all(replace_all(av, "<jats:p>"@, Seq::empty()), "</jats:p>"@, " "@));
    collapse_whitespace(t.as_str())
}

/// The feed item of one Crossref work (see `cr_item_ok`).
pub fn item_to_feed(w: &CrWork) -> (r: Option<FeedItem>)
    ensures
        cr_item_ok(r, *w),
{
    if w.title.len() == 0 {
        return None;
    }
    let title = collapse_whitespace(w.title[0].as_str());
    if title.as_str().unicode_len() == 0 {
        return None;
    }
    let summary = summary_of(w);
    let authors = authors_of(&w.author);
    let published = date_of(&w.published);
    let url = match &w.url {
        Some(u) => u.clone(),
        None => {
            let mut v = chars_of("https://doi.org/");
            match &w.doi {
                Some(d) => push_str(&mut v, d.as_str()),
                None => {},
            }
            assert(v@ == cr_url(*w));
            string_of(&v)
        },
    };
    if url.as_str().unicode_len() == 0 {
        return None;
    }
    let tags = owned_strings(&detect_subtopics(title.as_str(), summary.as_str()));
    let id = url.clone();
    Some(make_clean_item(id, url, title, SourcePlatform::Blog, ContentType::Paper, tags, published, authors, summary, to_owned_string("crossref")))
}

/// The first work that gives an item.
pub fn first_item(works: &Vec<CrWork>) -> (r: Option<FeedItem>)
    ensures
        match r {
            Some(item) => exists|i: int|
                0 <= i < works@.len() && cr_item_ok(Some(item), #[trigger] works@[i]) && forall|j: int|
                    0 <= j < i ==> cr_item_ok(None, #[trigger] works@[j]),
            None => forall|j: int| 0 <= j < works@.len() ==> cr_item_ok(None, #[trigger] works@[j]),
        },
{
    let mut i: usize = 0;
    while i < works.len()
        invariant
            0 <= i <= works@.len(),
            forall|j: int| 0 <= j < i ==> cr_item_ok(None, #[trigger] works@[j]),
        decreases works.len() - i,
    {
        match item_to_feed(&works[i]) {
            Some(item) => {
                assert(cr_item_ok(Some(item), works@[i as int]));
                return Some(item);
            },
            None => {},
        }
        i += 1;
    }
    None
}

/// The query text sent to Crossref: trimmed, an arXiv abstract prefix
/// removed, spaces as `+` and URL punctuation as `_`.
pub open spec fn cr_query(query: Seq<char>) -> Seq<char> {
    let q = crate::discovery::strip_all(
        crate::discovery::strip_all(trim(query), "https://arxiv.org/abs/"@),
        "http://arxiv.org/abs/"@,
    );
    q.map_values(|c: char| if c == ' ' { '+' } else if c == '/' || c == ':' || c == '?' || c == '#' || c == '&' || c == '=' { '_' } else { c })
}

/// The Crossref search URL for a title fragment, DOI or arXiv id.
pub fn lookup_url(query: &str) -> (r: String)
    ensures
        r@ == "https://api.crossref.org/works?query="@ + cr_query(query@)
            + "&rows=3&select=DOI,title,abstract,author,published,URL,type"@,
{
    let t = trim_vec(&chars_of(query));
    let a = crate::discovery::strip_all_pub(&t, &chars_of("https://arxiv.org/abs/"));
    let q = crate::discovery::strip_all_pub(&a, &chars_of("http://arxiv.org/abs/"));
    let mut enc: Vec<char> = Vec::new();
    let mut i: usize = 0;
    while i < q.len()
        invariant
            0 <= i <= q@.len(),
            enc@ == q@.take(i as int).map_values(
                |c: char| if c == ' ' { '+' } else if c == '/' || c == ':' || c == '?' || c == '#' || c == '&' || c == '=' { '_' } else { c },
            ),
        decreases q.len() - i,
    {
        let c = q[i];
        let d = if c == ' ' {
            '+'
        } else if c == '/' || c == ':' || c == '?' || c == '#' || c == '&' || c == '=' {
            '_'
        } else {
            c
        };
        enc.push(d);
        i += 1;
        assert(enc@ =~= q@.take(i as int).map_values(
            |c: char| if c == ' ' { '+' } else if c == '/' || c == ':' || c == '?' || c == '#' || c == '&' || c == '=' { '_' } else { c },
        ));
    }
    assert(q@.take(q@.len() as int) =~= q@);
    let mut u = chars_of("https://api.crossref.org/works?query=");
    crate::strs::push_all(&mut u, &enc);
    push_str(&mut u, "&rows=3&select=DOI,title,abstract,author,published,URL,type");
    string_of(&u)
}

} // verus!
