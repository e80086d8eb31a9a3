//! RSS 2.0 and Atom feeds read into feed items.
use vstd::prelude::*;

use crate::models::{
    detect_subtopics, opt_view, owned_strings, spec_signal, spec_subtopics, static_views, views, ContentType, FeedItem,
    SignalLevel, SourcePlatform, WorkflowState,
};
use crate::strs::{
    chars_of, decimal, find_char_at, find_char_from, lemma_find_char_from_facts, push_decimal, push_str,
    skip_ws, spec_parse_u32, str_eq, str_trim, string_of, sub_vec, to_owned_string, trim, trim_start,
    parse_u32,
};
use crate::text::{char_vecs, collapse_whitespace, collapsed, split_words, strip_html, strip_html_scan, truncate_chars, truncated, words};
use crate::xml::{bytes_eq, is_last_event, lemma_stop_index, local_name, stop_index, take_string, local_part, lossy_text, name_text, read_all_events, utf8_lossy, xml_events, XmlEvent};
use crate::github::utf8_string;

verus! {

broadcast use vstd::string::group_string_axioms;

// ---------------------------------------------------------------------------
// Dates
// ---------------------------------------------------------------------------

/// The two-digit number of an English month abbreviation.
pub open spec fn month_number(m: Seq<char>) -> Option<Seq<char>> {
    if m == "Jan"@ {
        Some("01"@)
    } else if m == "Feb"@ {
        Some("02"@)
    } else if m == "Mar"@ {
        Some("03"@)
    } else if m == "Apr"@ {
        Some("04"@)
    } else if m == "May"@ {
        Some("05"@)
    } else if m == "Jun"@ {
        Some("06"@)
    } else if m == "Jul"@ {
        Some("07"@)
    } else if m == "Aug"@ {
        Some("08"@)
    } else if m == "Sep"@ {
        Some("09"@)
    } else if m == "Oct"@ {
        Some("10"@)
    } else if m == "Nov"@ {
        Some("11"@)
    } else if m == "Dec"@ {
        Some("12"@)
    } else {
        None
    }
}

fn month_of(m: &[char]) -> (r: Option<&'static str>)
    ensures
        match r {
            Some(s) => month_number(m@) == Some(s@),
            None => month_number(m@) is None,
        },
{
    let s = string_of(m);
    let t = s.as_str();
    if str_eq(t, "Jan") {
        Some("01")
    } else if str_eq(t, "Feb") {
        Some("02")
    } else if str_eq(t, "Mar") {
        Some("03")
    } else if str_eq(t, "Apr") {
        Some("04")
    } else if str_eq(t, "May") {
        Some("05")
    } else if str_eq(t, "Jun") {
        Some("06")
    } else if str_eq(t, "Jul") {
        Some("07")
    } else if str_eq(t, "Aug") {
        Some("08")
    } else if str_eq(t, "Sep") {
        Some("09")
    } else if str_eq(t, "Oct") {
        Some("10")
    } else if str_eq(t, "Nov") {
        Some("11")
    } else if str_eq(t, "Dec") {
        Some("12")
    } else {
        None
    }
}

/// `{:02}`: at least two digits, zero-padded.
pub open spec fn two_digits(n: nat) -> Seq<char> {
    if n < 10 {
        seq!['0'] + decimal(n)
    } else {
        decimal(n)
    }
}

/// Whether a trimmed date looks like ISO 8601: ten bytes or more, the fifth
/// being `-`.
pub open spec fn iso_like(s: Seq<char>) -> bool {
    let b = vstd::utf8::encode_utf8(s);
    b.len() >= 10 && b[4] == 45u8
}

/// Whether the date can be cut after its tenth byte (what the ISO rule
/// needs: cutting inside a character would panic).
pub open spec fn date_cuttable(raw: Seq<char>) -> bool {
    let s = trim(raw);
    s.len() > 0 && iso_like(s) ==> vstd::utf8::is_char_boundary(vstd::utf8::encode_utf8(s), 10)
}

/// An RFC 2822 date ("Mon, 15 Mar 2026 00:00:00 GMT") as YYYY-MM-DD, or
/// the empty text when it does not read as one.
pub open spec fn rfc_date(s: Seq<char>) -> Seq<char> {
    let t = match find_char_from(s, ',', 0) {
        Some(p) => trim_start(s.subrange(p + 1, s.len() as int)),
        None => s,
    };
    let parts = words(t);
    if parts.len() < 3 {
        Seq::empty()
    } else {
        match spec_parse_u32(parts[0]) {
            Some(d) if d != 0 => match month_number(parts[1]) {
                Some(m) => parts[2] + "-"@ + m + "-"@ + two_digits(d as nat),
                None => Seq::empty(),
            },
            _ => Seq::empty(),
        }
    }
}

/// A feed date as YYYY-MM-DD: the first ten bytes of an ISO 8601 date,
/// the day, month and year of an RFC 2822 date, or the empty text.
pub open spec fn spec_normalise_date(raw: Seq<char>) -> Seq<char> {
    let s = trim(raw);
    if s.len() == 0 {
        Seq::empty()
    } else if iso_like(s) {
        vstd::utf8::decode_utf8(vstd::utf8::encode_utf8(s).subrange(0, 10))
    } else {
        rfc_date(s)
    }
}

/// Normalise an ISO 8601 or RFC 2822 date to YYYY-MM-DD.
pub fn normalise_date(raw: &str) -> (r: String)
    requires
        date_cuttable(raw@),
    ensures
        r@ == spec_normalise_date(raw@),
{
    broadcast use vstd::utf8::encode_utf8_decode_utf8;
    let s = str_trim(raw);
    if s.unicode_len() == 0 {
        return String::new();
    }
    let bytes = s.as_bytes();
    if bytes.len() >= 10 && bytes[4] == 45u8 {
        let (head, _) = s.split_at(10);
        assert(vstd::utf8::encode_utf8(head@) == vstd::utf8::encode_utf8(s@).subrange(0, 10));
        return to_owned_string(head);
    }
    let v = chars_of(s);
    proof { lemma_find_char_from_facts(v@, ',', 0); }
    let from = match find_char_at(&v, ',', 0) {
        Some(p) => skip_ws(&v, p + 1),
        None => 0,
    };
    let rest = sub_vec(&v, from, v.len());
    proof {
        match find_char_from(v@, ',', 0) {
            Some(p) => {},
            None => { assert(rest@ =~= v@); },
        }
    }
    let parts = split_words(&rest);
    if parts.len() < 3 {
        return String::new();
    }
    let day = match parse_u32(&parts[0]) {
        Some(d) => d,
        None => 0,
    };
    if day == 0 {
        return String::new();
    }
    let month = match month_of(&parts[1]) {
        Some(m) => m,
        None => {
            return String::new();
        },
    };
    let mut out: Vec<char> = Vec::new();
    let year = &parts[2];
    let mut i: usize = 0;
    while i < year.len()
        invariant
            0 <= i <= year@.len(),
            out@ == year@.take(i as int),
        decreases year.len() - i,
    {
        out.push(year[i]);
        i += 1;
        assert(out@ =~= year@.take(i as int));
    }
    assert(year@.take(year@.len() as int) =~= year@);
    out.push('-');
    push_str(&mut out, month);
    out.push('-');
    if day < 10 {
        out.push('0');
    }
    push_decimal(&mut out, day as u64);
    proof {
        reveal_strlit("-");
        assert(char_vecs(parts@)[0] == parts@[0]@);
        assert(char_vecs(parts@)[1] == parts@[1]@);
        assert(char_vecs(parts@)[2] == parts@[2]@);
        let pw = words(rest@);
        let d = spec_parse_u32(pw[0]);
        assert(d == Some(day));
        if day < 10 {
            assert(out@ =~= pw[2] + "-"@ + month@ + "-"@ + (seq!['0'] + decimal(day as nat)));
        } else {
            assert(out@ =~= pw[2] + "-"@ + month@ + "-"@ + decimal(day as nat));
        }
    }
    string_of(&out)
}

// ---------------------------------------------------------------------------
// The scanner
// ---------------------------------------------------------------------------

/// What the scanner has gathered so far.
pub ghost struct RssScan {
    /// Inside `<entry>` or `<item>`.
    pub in_entry: bool,
    /// Inside an Atom `<author>` container.
    pub in_author: bool,
    /// Local name of the last opened tag.
    pub tag: Seq<char>,
    pub title: Seq<char>,
    pub url: Seq<char>,
    pub published: Seq<char>,
    pub summary: Seq<char>,
    pub author: Seq<char>,
    pub encoded: Seq<char>,
}

/// The raw texts of one finished entry.
pub ghost struct FeedEntry {
    pub title: Seq<char>,
    pub url: Seq<char>,
    pub published: Seq<char>,
    pub summary: Seq<char>,
    pub author: Seq<char>,
    pub encoded: Seq<char>,
}

pub open spec fn rss_start_scan() -> RssScan {
    RssScan {
        in_entry: false,
        in_author: false,
        tag: Seq::empty(),
        title: Seq::empty(),
        url: Seq::empty(),
        published: Seq::empty(),
        summary: Seq::empty(),
        author: Seq::empty(),
        encoded: Seq::empty(),
    }
}

/// The same scan with every text field emptied.
pub open spec fn cleared(s: RssScan) -> RssScan {
    RssScan {
        title: Seq::empty(),
        url: Seq::empty(),
        published: Seq::empty(),
        summary: Seq::empty(),
        author: Seq::empty(),
        encoded: Seq::empty(),
        ..s
    }
}

/// The bytes of `href`.
pub open spec fn href_key() -> Seq<u8> {
    seq![104u8, 114u8, 101u8, 102u8]
}

/// The URL after reading the attributes of a `<link/>`: each `href`
/// whose value is UTF-8 replaces it, so the last one wins.
pub open spec fn href_value(attrs: Seq<(Vec<u8>, Vec<u8>)>, url: Seq<char>) -> Seq<char>
    decreases attrs.len(),
{
    if attrs.len() == 0 {
        url
    } else {
        let kv = attrs.last();
        let before = href_value(attrs.drop_last(), url);
        if kv.0@ == href_key() && vstd::utf8::valid_utf8(kv.1@) {
            vstd::utf8::decode_utf8(kv.1@)
        } else {
            before
        }
    }
}

/// Taking in a piece of (trimmed) text inside an entry.
pub open spec fn rss_text(s: RssScan, text: Seq<char>) -> RssScan {
    if !s.in_entry || text.len() == 0 {
        s
    } else if s.in_author && s.tag == "name"@ {
        RssScan { author: text, ..s }
    } else if s.tag == "title"@ {
        RssScan { title: s.title + text, ..s }
    } else if s.tag == "link"@ && s.url.len() == 0 {
        RssScan { url: s.url + text, ..s }
    } else if s.tag == "pubDate"@ || s.tag == "published"@ {
        if s.published.len() == 0 {
            RssScan { published: text, ..s }
        } else {
            s
        }
    } else if s.tag == "description"@ || s.tag == "summary"@ {
        RssScan { summary: s.summary + text, ..s }
    } else if s.tag == "author"@ || s.tag == "creator"@ {
        if s.author.len() == 0 {
            RssScan { author: text, ..s }
        } else {
            s
        }
    } else if s.tag == "encoded"@ {
        RssScan { encoded: s.encoded + text, ..s }
    } else {
        s
    }
}

/// Text inside an entry's `<content:encoded>` (local name `encoded`) is
/// added to the entry's encoded body; nothing else changes.
pub proof fn law_encoded_text_accumulates(s: RssScan, text: Seq<char>)
    requires
        s.in_entry,
        s.tag == "encoded"@,
        text.len() > 0,
    ensures
        rss_text(s, text).encoded == s.encoded + text,
        rss_text(s, text).title == s.title,
        rss_text(s, text).url == s.url,
        rss_text(s, text).summary == s.summary,
        rss_text(s, text).author == s.author,
        rss_text(s, text).published == s.published,
{
    reveal_strlit("encoded");
    reveal_strlit("name");
    reveal_strlit("title");
    reveal_strlit("link");
    reveal_strlit("pubDate");
    reveal_strlit("published");
    reveal_strlit("description");
    reveal_strlit("summary");
    reveal_strlit("author");
    reveal_strlit("creator");
    assert("encoded"@.len() == 7);
    assert("encoded"@ != "name"@);
    assert("encoded"@ != "title"@);
    assert("encoded"@ != "link"@);
    assert("encoded"@[0] != "pubDate"@[0]);
    assert("encoded"@ != "pubDate"@);
    assert("encoded"@ != "published"@);
    assert("encoded"@ != "description"@);
    assert("encoded"@[0] != "summary"@[0]);
    assert("encoded"@ != "summary"@);
    assert("encoded"@ != "author"@);
    assert("encoded"@ != "creator"@);
}

/// The tag names an entry's text goes by are told apart.
proof fn lemma_entry_tag_names()
    ensures
        "title"@ != "name"@,
        "link"@ != "name"@,
        "link"@ != "title"@,
        "pubDate"@ != "name"@,
        "pubDate"@ != "title"@,
        "pubDate"@ != "link"@,
        "published"@ != "name"@,
        "published"@ != "title"@,
        "published"@ != "link"@,
        "published"@ != "pubDate"@,
        "description"@ != "name"@,
        "description"@ != "title"@,
        "description"@ != "link"@,
        "description"@ != "pubDate"@,
        "description"@ != "published"@,
        "summary"@ != "name"@,
        "summary"@ != "title"@,
        "summary"@ != "link"@,
        "summary"@ != "pubDate"@,
        "summary"@ != "published"@,
        "summary"@ != "description"@,
        "author"@ != "name"@,
        "author"@ != "title"@,
        "author"@ != "link"@,
        "author"@ != "pubDate"@,
        "author"@ != "published"@,
        "author"@ != "description"@,
        "author"@ != "summary"@,
        "creator"@ != "name"@,
        "creator"@ != "title"@,
        "creator"@ != "link"@,
        "creator"@ != "pubDate"@,
        "creator"@ != "published"@,
        "creator"@ != "description"@,
        "creator"@ != "summary"@,
        "creator"@ != "author"@,
        "encoded"@ != "name"@,
        "encoded"@ != "title"@,
        "encoded"@ != "link"@,
        "encoded"@ != "pubDate"@,
        "encoded"@ != "published"@,
        "encoded"@ != "description"@,
        "encoded"@ != "summary"@,
        "encoded"@ != "author"@,
        "encoded"@ != "creator"@,
{
    reveal_strlit("name");
    reveal_strlit("title");
    reveal_strlit("link");
    reveal_strlit("pubDate");
    reveal_strlit("published");
    reveal_strlit("description");
    reveal_strlit("summary");
    reveal_strlit("author");
    reveal_strlit("creator");
    reveal_strlit("encoded");
    assert("name"@.len() == 4);
    assert("title"@.len() == 5);
    assert("link"@.len() == 4);
    assert("pubDate"@.len() == 7);
    assert("published"@.len() == 9);
    assert("description"@.len() == 11);
    assert("summary"@.len() == 7);
    assert("author"@.len() == 6);
    assert("creator"@.len() == 7);
    assert("encoded"@.len() == 7);
    assert("link"@[0] != "name"@[0]);
    assert("summary"@[0] != "pubDate"@[0]);
    assert("creator"@[0] != "pubDate"@[0]);
    assert("creator"@[0] != "summary"@[0]);
    assert("encoded"@[0] != "pubDate"@[0]);
    assert("encoded"@[0] != "summary"@[0]);
    assert("encoded"@[0] != "creator"@[0]);
}

/// Where the text inside an entry goes, by the tag it stands in: the title,
/// the description or summary and the encoded body grow by it; the first
/// link, date and author are kept; an author's `<name>` sets the author.
/// Text outside an entry, or empty text, changes nothing.
pub proof fn law_entry_text_fields(s: RssScan, text: Seq<char>)
    ensures
        !s.in_entry || text.len() == 0 ==> rss_text(s, text) == s,
        s.in_entry && text.len() > 0 && s.tag == "title"@ ==> rss_text(s, text) == (RssScan { title: s.title + text, ..s }),
        s.in_entry && text.len() > 0 && (s.tag == "description"@ || s.tag == "summary"@) ==> rss_text(s, text) == (RssScan {
            summary: s.summary + text,
            ..s
        }),
        s.in_entry && text.len() > 0 && s.tag == "encoded"@ ==> rss_text(s, text) == (RssScan { encoded: s.encoded + text, ..s }),
        s.in_entry && text.len() > 0 && s.tag == "link"@ ==> rss_text(s, text) == (if s.url.len() == 0 {
            RssScan { url: text, ..s }
        } else {
            s
        }),
        s.in_entry && text.len() > 0 && (s.tag == "pubDate"@ || s.tag == "published"@) ==> rss_text(s, text) == (if s.published.len() == 0 {
            RssScan { published: text, ..s }
        } else {
            s
        }),
        s.in_entry && text.len() > 0 && (s.tag == "author"@ || s.tag == "creator"@) ==> rss_text(s, text) == (if s.author.len() == 0 {
            RssScan { author: text, ..s }
        } else {
            s
        }),
        s.in_entry && text.len() > 0 && s.in_author && s.tag == "name"@ ==> rss_text(s, text) == (RssScan { author: text, ..s }),
{
    lemma_entry_tag_names();
    assert(Seq::<char>::empty() + text =~= text);
}

pub open spec fn entry_of(s: RssScan) -> FeedEntry {
    FeedEntry {
        title: s.title,
        url: s.url,
        published: s.published,
        summary: s.summary,
        author: s.author,
        encoded: s.encoded,
    }
}

/// An opening tag.
pub open spec fn rss_start(s: RssScan, tag: Seq<char>) -> RssScan {
    let s1 = if tag == "entry"@ || tag == "item"@ {
        cleared(RssScan { in_entry: true, in_author: false, ..s })
    } else if tag == "author"@ && s.in_entry {
        RssScan { in_author: true, ..s }
    } else {
        s
    };
    RssScan { tag: tag, ..s1 }
}

/// A self-closing tag: an Atom `<link href="..."/>` gives the URL.
pub open spec fn rss_empty(s: RssScan, tag: Seq<char>, attrs: Seq<(Vec<u8>, Vec<u8>)>) -> RssScan {
    if s.in_entry && tag == "link"@ && s.url.len() == 0 {
        RssScan { url: href_value(attrs, s.url), ..s }
    } else {
        s
    }
}

/// A closing tag, and the entry it finishes (an entry without a title or a
/// URL is dropped).
pub open spec fn rss_end(s: RssScan, tag: Seq<char>) -> (RssScan, Option<FeedEntry>) {
    let s1 = if s.in_entry && tag == "author"@ {
        RssScan { in_author: false, ..s }
    } else {
        s
    };
    if s1.in_entry && (tag == "entry"@ || tag == "item"@) {
        let s2 = RssScan { in_entry: false, tag: Seq::empty(), ..s1 };
        if s2.title.len() == 0 || s2.url.len() == 0 {
            (s2, None)
        } else {
            (cleared(s2), Some(entry_of(s2)))
        }
    } else {
        (s1, None)
    }
}

/// Opening `<content:encoded>` inside an entry makes it the current tag and
/// keeps the body gathered so far; closing the entry with a title and a URL
/// hands on that body.
pub proof fn law_encoded_body_reaches_entry(s: RssScan)
    requires
        s.in_entry,
    ensures
        rss_start(s, "encoded"@).tag == "encoded"@,
        rss_start(s, "encoded"@).in_entry,
        rss_start(s, "encoded"@).encoded == s.encoded,
        s.title.len() > 0 && s.url.len() > 0 ==> (rss_end(s, "item"@).1 matches Some(en) && en.encoded == s.encoded),
        s.title.len() > 0 && s.url.len() > 0 ==> (rss_end(s, "entry"@).1 matches Some(en) && en.encoded == s.encoded),
{
    reveal_strlit("encoded");
    reveal_strlit("entry");
    reveal_strlit("item");
    reveal_strlit("author");
    assert("encoded"@.len() == 7);
    assert("encoded"@ != "entry"@);
    assert("encoded"@ != "item"@);
    assert("encoded"@ != "author"@);
}

/// One event: the new scan, and the entry it finishes, if any.
pub open spec fn rss_step(s: RssScan, e: XmlEvent) -> (RssScan, Option<FeedEntry>) {
    match e {
        XmlEvent::Start(raw) => (rss_start(s, local_part(name_text(raw@))), None),
        XmlEvent::Empty(raw, attrs) => (rss_empty(s, local_part(name_text(raw@)), attrs@), None),
        XmlEvent::Text(t) => {
            let text = match t {
                Some(x) => x@,
                None => Seq::empty(),
            };
            (rss_text(s, trim(text)), None)
        },
        XmlEvent::CData(b) => (rss_text(s, trim(lossy_text(b@))), None),
        XmlEvent::End(raw) => rss_end(s, local_part(name_text(raw@))),
        _ => (s, None),
    }
}

/// The scan after the first `n` events, and the entries finished so far.
pub open spec fn rss_scan(events: Seq<XmlEvent>, n: int) -> (RssScan, Seq<FeedEntry>)
    decreases n,
{
    if n <= 0 {
        (rss_start_scan(), Seq::empty())
    } else {
        let (s, out) = rss_scan(events, n - 1);
        let (s2, o) = rss_step(s, events[n - 1]);
        (
            s2,
            match o {
                Some(en) => out.push(en),
                None => out,
            },
        )
    }
}

/// The entries of a feed, or the parse error that ends it.
pub open spec fn feed_entries(events: Seq<XmlEvent>) -> Result<Seq<FeedEntry>, Seq<char>> {
    let k = stop_index(events, 0);
    if k < events.len() && events[k] is Error {
        Err("XML parse error: "@ + events[k]->Error_0@)
    } else {
        Ok(rss_scan(events, k).1)
    }
}

/// `strip_html` as a function of the text.
pub open spec fn stripped(s: Seq<char>) -> Seq<char> {
    strip_html_scan(s).2
}

/// The plain summary of an entry: whitespace collapsed, tags removed.
pub open spec fn entry_summary(e: FeedEntry) -> Seq<char> {
    stripped(collapsed(e.summary))
}

/// The tags of an entry: the subtopics of its title and summary, or `ml`.
pub open spec fn entry_tags(e: FeedEntry) -> Seq<Seq<char>> {
    let st = spec_subtopics(collapsed(e.title), entry_summary(e));
    if st.len() == 0 {
        seq!["ml"@]
    } else {
        st
    }
}

/// The feed item an entry becomes.
pub open spec fn is_feed_item(
    item: FeedItem,
    e: FeedEntry,
    platform: SourcePlatform,
    content_type: ContentType,
    source_name: Seq<char>,
) -> bool {
    &&& item.id@ == e.url
    &&& item.url@ == e.url
    &&& item.title@ == collapsed(e.title)
    &&& item.source_platform == platform
    &&& item.content_type == content_type
    &&& views(item.domain_tags@) == entry_tags(e)
    &&& item.signal == spec_signal(platform, 0)
    &&& item.published_at@ == spec_normalise_date(e.published)
    &&& views(item.authors@) == (if trim(e.author).len() == 0 {
        Seq::<Seq<char>>::empty()
    } else {
        seq![trim(e.author)]
    })
    &&& item.summary_short@ == truncated(entry_summary(e), 300)
    &&& item.workflow_state == WorkflowState::Inbox
    &&& item.upvote_count == 0
    &&& item.github_repo is None
    &&& item.github_owner is None
    &&& item.github_repo_name is None
    &&& item.benchmark_results@.len() == 0
    &&& opt_view(item.full_content) == (if vstd::utf8::encode_utf8(e.encoded).len() > 500 {
        Some(stripped(e.encoded))
    } else {
        None
    })
    &&& item.source_name@ == source_name
    &&& item.title_lower@.len() == 0
    &&& item.authors_lower@.len() == 0
}

/// Every entry's date can be normalised without cutting inside a character.
pub open spec fn dates_cuttable(entries: Seq<FeedEntry>) -> bool {
    forall|i: int| 0 <= i < entries.len() ==> date_cuttable(#[trigger] entries[i].published)
}

/// What reading a feed's events gives: the parse error, an error for a date
/// that cannot be cut where the ISO rule would cut it, or one item per entry
/// that has a title and a URL, in order.
pub open spec fn feed_result_ok(
    r: Result<Vec<FeedItem>, String>,
    events: Seq<XmlEvent>,
    platform: SourcePlatform,
    content_type: ContentType,
    source_name: Seq<char>,
) -> bool {
    match feed_entries(events) {
        Err(msg) => r matches Err(m) && m@ == msg,
        Ok(entries) => if !dates_cuttable(entries) {
            r matches Err(m) && m@ == "feed date cannot be cut to YYYY-MM-DD"@
        } else {
            r matches Ok(items) && items@.len() == entries.len() && forall|i: int|
                0 <= i < entries.len() ==> is_feed_item(
                    #[trigger] items@[i],
                    entries[i],
                    platform,
                    content_type,
                    source_name,
                )
        },
    }
}

/// A feed item carries the article text of its entry's encoded body when
/// that body is longer than 500 bytes: `full_content` is the body with its
/// HTML stripped; a shorter body gives none.
pub proof fn law_full_content_from_encoded(
    item: FeedItem,
    e: FeedEntry,
    platform: SourcePlatform,
    content_type: ContentType,
    source_name: Seq<char>,
)
    requires
        is_feed_item(item, e, platform, content_type, source_name),
    ensures
        vstd::utf8::encode_utf8(e.encoded).len() > 500 ==> (item.full_content matches Some(t) && t@
            == strip_html_scan(e.encoded).2),
        vstd::utf8::encode_utf8(e.encoded).len() <= 500 ==> item.full_content is None,
{
}

/// The scanner's state.
struct RssState {
    in_entry: bool,
    in_author: bool,
    tag: String,
    title: String,
    url: String,
    published: String,
    summary: String,
    author: String,
    encoded: String,
}

impl RssState {
    spec fn scan(&self) -> RssScan {
        RssScan {
            in_entry: self.in_entry,
            in_author: self.in_author,
            tag: self.tag@,
            title: self.title@,
            url: self.url@,
            published: self.published@,
            summary: self.summary@,
            author: self.author@,
            encoded: self.encoded@,
        }
    }

    fn clear(&mut self)
        ensures
            final(self).scan() == cleared(old(self).scan()),
    {
        self.title = String::new();
        self.url = String::new();
        self.published = String::new();
        self.summary = String::new();
        self.author = String::new();
        self.encoded = String::new();
    }
}

/// The texts of one finished entry.
struct RawEntry {
    title: String,
    url: String,
    published: String,
    summary: String,
    author: String,
    encoded: String,
}

impl RawEntry {
    spec fn entry(&self) -> FeedEntry {
        FeedEntry {
            title: self.title@,
            url: self.url@,
            published: self.published@,
            summary: self.summary@,
            author: self.author@,
            encoded: self.encoded@,
        }
    }
}

spec fn raw_entries(v: Seq<RawEntry>) -> Seq<FeedEntry> {
    v.map_values(|e: RawEntry| e.entry())
}

fn take_href(attrs: &Vec<(Vec<u8>, Vec<u8>)>, url: String) -> (r: String)
    ensures
        r@ == href_value(attrs@, url@),
{
    let href: Vec<u8> = vec![104u8, 114u8, 101u8, 102u8];
    assert(href@ =~= href_key());
    let ghost start = url@;
    let mut cur = url;
    let mut i: usize = 0;
    while i < attrs.len()
        invariant
            0 <= i <= attrs@.len(),
            href@ == href_key(),
            cur@ == href_value(attrs@.take(i as int), start),
        decreases attrs.len() - i,
    {
        assert(attrs@.take(i + 1).drop_last() =~= attrs@.take(i as int));
        assert(attrs@.take(i + 1).last() == attrs@[i as int]);
        let kv = &attrs[i];
        if bytes_eq(&kv.0, &href) {
            match utf8_string(kv.1.clone()) {
                Some(v) => {
                    cur = v;
                },
                None => {},
            }
        }
        i += 1;
    }
    assert(attrs@.take(attrs@.len() as int) =~= attrs@);
    cur
}

fn rss_take_text(st: &mut RssState, text: &str)
    ensures
        final(st).scan() == rss_text(old(st).scan(), text@),
{
    if !st.in_entry || text.unicode_len() == 0 {
        return;
    }
    if st.in_author && str_eq(st.tag.as_str(), "name") {
        st.author = to_owned_string(text);
    } else if str_eq(st.tag.as_str(), "title") {
        st.title.append(text);
    } else if str_eq(st.tag.as_str(), "link") && st.url.as_str().unicode_len() == 0 {
        st.url.append(text);
    } else if str_eq(st.tag.as_str(), "pubDate") || str_eq(st.tag.as_str(), "published") {
        if st.published.as_str().unicode_len() == 0 {
            st.published = to_owned_string(text);
        }
    } else if str_eq(st.tag.as_str(), "description") || str_eq(st.tag.as_str(), "summary") {
        st.summary.append(text);
    } else if str_eq(st.tag.as_str(), "author") || str_eq(st.tag.as_str(), "creator") {
        if st.author.as_str().unicode_len() == 0 {
            st.author = to_owned_string(text);
        }
    } else if str_eq(st.tag.as_str(), "encoded") {
        st.encoded.append(text);
    }
}

fn rss_take_start(st: &mut RssState, tag: String)
    ensures
        final(st).scan() == rss_start(old(st).scan(), tag@),
{
    if str_eq(tag.as_str(), "entry") || str_eq(tag.as_str(), "item") {
        st.in_entry = true;
        st.in_author = false;
        st.clear();
    } else if str_eq(tag.as_str(), "author") && st.in_entry {
        st.in_author = true;
    }
    st.tag = tag;
}

fn rss_take_empty(st: &mut RssState, tag: String, attrs: &Vec<(Vec<u8>, Vec<u8>)>)
    ensures
        final(st).scan() == rss_empty(old(st).scan(), tag@, attrs@),
{
    if st.in_entry && str_eq(tag.as_str(), "link") && st.url.as_str().unicode_len() == 0 {
        let u = take_string(&mut st.url);
        st.url = take_href(attrs, u);
    }
}

fn rss_take_end(st: &mut RssState, tag: String) -> (o: Option<RawEntry>)
    ensures
        final(st).scan() == rss_end(old(st).scan(), tag@).0,
        match o {
            Some(r) => rss_end(old(st).scan(), tag@).1 == Some(r.entry()),
            None => rss_end(old(st).scan(), tag@).1 is None,
        },
{
    if st.in_entry && str_eq(tag.as_str(), "author") {
        st.in_author = false;
    }
    if st.in_entry && (str_eq(tag.as_str(), "entry") || str_eq(tag.as_str(), "item")) {
        st.in_entry = false;
        st.tag = String::new();
        if st.title.as_str().unicode_len() == 0 || st.url.as_str().unicode_len() == 0 {
            return None;
        }
        let entry = RawEntry {
            title: take_string(&mut st.title),
            url: take_string(&mut st.url),
            published: take_string(&mut st.published),
            summary: take_string(&mut st.summary),
            author: take_string(&mut st.author),
            encoded: take_string(&mut st.encoded),
        };
        return Some(entry);
    }
    None
}

fn rss_take_event(st: &mut RssState, e: &XmlEvent) -> (o: Option<RawEntry>)
    ensures
        final(st).scan() == rss_step(old(st).scan(), *e).0,
        match o {
            Some(r) => rss_step(old(st).scan(), *e).1 == Some(r.entry()),
            None => rss_step(old(st).scan(), *e).1 is None,
        },
{
    let ghost s0 = st.scan();
    match e {
        XmlEvent::Start(raw) => {
            rss_take_start(st, local_name(raw));
            assert(st.scan() == rss_step(s0, *e).0);
            None
        },
        XmlEvent::Empty(raw, attrs) => {
            rss_take_empty(st, local_name(raw), attrs);
            assert(st.scan() == rss_step(s0, *e).0);
            None
        },
        XmlEvent::Text(t) => {
            match t {
                Some(x) => rss_take_text(st, str_trim(x.as_str())),
                None => {
                    proof { reveal_strlit(""); }
                    rss_take_text(st, str_trim(""));
                },
            }
            assert(st.scan() == rss_step(s0, *e).0);
            None
        },
        XmlEvent::CData(b) => {
            let text = utf8_lossy(b);
            rss_take_text(st, str_trim(text.as_str()));
            assert(st.scan() == rss_step(s0, *e).0);
            None
        },
        XmlEvent::End(raw) => rss_take_end(st, local_name(raw)),
        _ => None,
    }
}

/// Scans events up to the first `Eof` or error.
fn scan_feed(events: &Vec<XmlEvent>) -> (r: Result<Vec<RawEntry>, String>)
    ensures
        match feed_entries(events@) {
            Err(msg) => r matches Err(m) && m@ == msg,
            Ok(entries) => r matches Ok(v) && raw_entries(v@) == entries,
        },
{
    let mut st = RssState {
        in_entry: false,
        in_author: false,
        tag: String::new(),
        title: String::new(),
        url: String::new(),
        published: String::new(),
        summary: String::new(),
        author: String::new(),
        encoded: String::new(),
    };
    let mut out: Vec<RawEntry> = Vec::new();
    let mut i: usize = 0;
    proof { lemma_stop_index(events@, 0); }
    assert(raw_entries(out@) =~= Seq::<FeedEntry>::empty());
    while i < events.len()
        invariant
            0 <= i <= events@.len(),
            i <= stop_index(events@, 0),
            forall|k: int| 0 <= k < stop_index(events@, 0) ==> !is_last_event(#[trigger] events@[k]),
            stop_index(events@, 0) < events@.len() ==> is_last_event(events@[stop_index(events@, 0)]),
            st.scan() == rss_scan(events@, i as int).0,
            raw_entries(out@) == rss_scan(events@, i as int).1,
        decreases events.len() - i,
    {
        match &events[i] {
            XmlEvent::Eof => {
                assert(stop_index(events@, 0) == i);
                return Ok(out);
            },
            XmlEvent::Error(msg) => {
                assert(stop_index(events@, 0) == i);
                let mut m = chars_of("XML parse error: ");
                push_str(&mut m, msg.as_str());
                return Err(string_of(&m));
            },
            _ => {},
        }
        let ghost before = raw_entries(out@);
        let o = rss_take_event(&mut st, &events[i]);
        match o {
            Some(en) => {
                out.push(en);
                assert(raw_entries(out@) =~= before.push(en.entry()));
            },
            None => {},
        }
        i += 1;
    }
    Ok(out)
}

/// The feed item of one entry.
fn feed_item(e: &RawEntry, platform: SourcePlatform, content_type: ContentType, source_name: &str) -> (item: FeedItem)
    requires
        date_cuttable(e.published@),
    ensures
        is_feed_item(item, e.entry(), platform, content_type, source_name@),
{
    let clean_title = collapse_whitespace(e.title.as_str());
    let collapsed_summary = collapse_whitespace(e.summary.as_str());
    let raw_summary = strip_html(collapsed_summary.as_str());
    let summary_short = truncate_chars(raw_summary.as_str(), 300);
    let date = normalise_date(e.published.as_str());
    let author = str_trim(e.author.as_str());
    let mut authors: Vec<String> = Vec::new();
    if author.unicode_len() > 0 {
        authors.push(to_owned_string(author));
    }
    let subtopics = detect_subtopics(clean_title.as_str(), raw_summary.as_str());
    let mut domain_tags = owned_strings(&subtopics);
    if domain_tags.len() == 0 {
        domain_tags.push(to_owned_string("ml"));
    }
    let full_content = if e.encoded.as_str().as_bytes().len() > 500 {
        Some(strip_html(e.encoded.as_str()))
    } else {
        None
    };
    let mut item = FeedItem {
        id: e.url.clone(),
        title: clean_title,
        source_platform: platform,
        content_type: content_type,
        domain_tags,
        signal: SignalLevel::Secondary,
        published_at: date,
        authors,
        summary_short,
        workflow_state: WorkflowState::Inbox,
        url: e.url.clone(),
        upvote_count: 0,
        github_repo: None,
        github_owner: None,
        github_repo_name: None,
        benchmark_results: Vec::new(),
        full_content,
        source_name: to_owned_string(source_name),
        title_lower: String::new(),
        authors_lower: Vec::new(),
    };
    item.signal = item.compute_signal();
    proof {
        if author@.len() == 0 {
            assert(views(item.authors@) =~= Seq::<Seq<char>>::empty());
        } else {
            assert(views(item.authors@) =~= seq![trim(e.author@)]);
        }
        if subtopics@.len() == 0 {
            assert(views(item.domain_tags@) =~= seq!["ml"@]);
        }
    }
    item
}

/// The feed items that a document's events give (see `feed_result_ok`).
pub fn feed_from_events(
    events: &Vec<XmlEvent>,
    platform: SourcePlatform,
    content_type: ContentType,
    source_name: &str,
) -> (r: Result<Vec<FeedItem>, String>)
    ensures
        feed_result_ok(r, events@, platform, content_type, source_name@),
{
    let entries = match scan_feed(events) {
        Ok(v) => v,
        Err(m) => {
            return Err(m);
        },
    };
    let ghost es = raw_entries(entries@);
    assert(feed_entries(events@) == Ok::<Seq<FeedEntry>, Seq<char>>(es));
    let mut i: usize = 0;
    while i < entries.len()
        invariant
            0 <= i <= entries@.len(),
            es == raw_entries(entries@),
            feed_entries(events@) == Ok::<Seq<FeedEntry>, Seq<char>>(es),
            forall|k: int| 0 <= k < i ==> date_cuttable(#[trigger] es[k].published),
        decreases entries.len() - i,
    {
        let p = str_trim(entries[i].published.as_str());
        let bytes = p.as_bytes();
        if p.unicode_len() > 0 && bytes.len() >= 10 && bytes[4] == 45u8 && !p.is_char_boundary(10) {
            assert(es[i as int] == entries@[i as int].entry());
            assert(!date_cuttable(es[i as int].published));
            assert(!dates_cuttable(es));
            return Err(to_owned_string("feed date cannot be cut to YYYY-MM-DD"));
        }
        assert(es[i as int] == entries@[i as int].entry());
        assert(date_cuttable(es[i as int].published));
        i += 1;
    }
    let mut items: Vec<FeedItem> = Vec::new();
    let mut j: usize = 0;
    while j < entries.len()
        invariant
            0 <= j <= entries@.len(),
            es == raw_entries(entries@),
            feed_entries(events@) == Ok::<Seq<FeedEntry>, Seq<char>>(es),
            dates_cuttable(es),
            items@.len() == j,
            forall|k: int| 0 <= k < j ==> is_feed_item(#[trigger] items@[k], es[k], platform, content_type, source_name@),
        decreases entries.len() - j,
    {
        assert(es[j as int] == entries@[j as int].entry());
        assert(date_cuttable(es[j as int].published));
        let item = feed_item(&entries[j], platform, content_type, source_name);
        items.push(item);
        j += 1;
    }
    Ok(items)
}

/// Parse an RSS 2.0 or Atom document into feed items.
pub fn parse_feed(
    xml: &str,
    platform: SourcePlatform,
    content_type: ContentType,
    source_name: &str,
) -> (r: Result<Vec<FeedItem>, String>)
    ensures
        feed_result_ok(r, xml_events(xml@, true), platform, content_type, source_name@),
{
    let events = read_all_events(xml);
    feed_from_events(&events, platform, content_type, source_name)
}

} // verus!
