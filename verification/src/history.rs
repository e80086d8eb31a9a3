//! The history of opened papers and discovery queries, newest first.
//!
//! Times are UTC instants held as seconds since the Unix epoch and a
//! sub-second part in nanoseconds.
use vstd::prelude::*;

use crate::models::{lower_all, views, ContentType, FeedItem, SignalLevel, SourcePlatform, WorkflowState};
use crate::strs::{
    clone_strings, decimal, lowercase, push_decimal, push_str, str_eq, string_of, to_lowercase, to_owned_string,
};

verus! {

broadcast use vstd::string::group_string_axioms;

/// A UTC instant.
#[derive(Debug, Clone, Copy, PartialEq, Eq, Structural)]
pub struct Timestamp {
    /// Whole seconds since 1970-01-01T00:00:00Z.
    pub secs: i64,
    /// Nanoseconds past `secs`.
    pub nanos: u32,
}

pub const NANOS_PER_SEC: i128 = 1_000_000_000;

/// Nanoseconds from `since` to `now` (negative when `since` is later).
pub open spec fn nanos_between(since: Timestamp, now: Timestamp) -> int {
    (now.secs - since.secs) * 1_000_000_000 + (now.nanos - since.nanos)
}

/// Whole seconds from `since` to `now`, rounded toward zero.
pub open spec fn whole_secs_between(since: Timestamp, now: Timestamp) -> int {
    let d = nanos_between(since, now);
    if d >= 0 {
        d / 1_000_000_000
    } else {
        -((-d) / 1_000_000_000)
    }
}

/// The UTC calendar day of an instant, counted in days since the epoch.
pub open spec fn utc_day(t: Timestamp) -> int {
    t.secs / 86400
}

fn nanos_since(since: Timestamp, now: Timestamp) -> (r: i128)
    ensures
        r == nanos_between(since, now),
        -0x1_0000_0000_0000_0000 * 1_000_000_000 - 0x1_0000_0000 <= r <= 0x1_0000_0000_0000_0000 * 1_000_000_000
            + 0x1_0000_0000,
{
    let ds: i128 = now.secs as i128 - since.secs as i128;
    assert(-0x1_0000_0000_0000_0000i128 <= ds <= 0x1_0000_0000_0000_0000i128);
    assert(-0x1_0000_0000_0000_0000 * 1_000_000_000 <= ds * 1_000_000_000 <= 0x1_0000_0000_0000_0000 * 1_000_000_000)
        by (nonlinear_arith)
        requires
            -0x1_0000_0000_0000_0000i128 <= ds <= 0x1_0000_0000_0000_0000i128,
    ;
    let dn: i128 = now.nanos as i128 - since.nanos as i128;
    ds * NANOS_PER_SEC + dn
}

fn day_number(secs: i64) -> (r: i64)
    ensures
        r == secs / 86400,
{
    if secs >= 0 {
        let u = secs as u64;
        (u / 86400) as i64
    } else {
        let m: u64 = (-(secs + 1)) as u64;
        let q: u64 = m / 86400;
        assert(secs / 86400 == -(q as int) - 1) by (nonlinear_arith)
            requires
                secs < 0,
                m == -(secs + 1),
                q == m / 86400,
        ;
        -(q as i64) - 1
    }
}

/// The kind of a history entry.
#[derive(Debug, Clone, Copy, PartialEq, Eq, Structural)]
pub enum HistoryKind {
    Paper,
    Query,
}

/// What is remembered of a paper besides its title.
#[derive(Debug, Clone)]
pub struct HistoryPaperMeta {
    pub authors: Vec<String>,
    pub source_platform: SourcePlatform,
    pub published_at: String,
    pub summary_short: String,
}

/// One opened paper (keyed by URL) or one discovery query (keyed by topic).
#[derive(Debug, Clone)]
pub struct HistoryEntry {
    pub kind: HistoryKind,
    pub key: String,
    pub title: String,
    pub source: String,
    pub paper_meta: Option<HistoryPaperMeta>,
    pub opened_at: Timestamp,
    pub visit_count: u32,
}

/// Time windows for the history view.
#[derive(Debug, Clone, Copy, PartialEq, Eq, Structural)]
pub enum HistoryFilter {
    All,
    Today,
    Last24h,
    Last48h,
    Week,
    Month,
}

impl Default for HistoryFilter {
    fn default() -> (r: Self)
        ensures
            r == HistoryFilter::All,
    {
        HistoryFilter::All
    }
}

impl HistoryFilter {
    pub open spec fn spec_label(self) -> Seq<char> {
        match self {
            HistoryFilter::All => "All"@,
            HistoryFilter::Today => "Today"@,
            HistoryFilter::Last24h => "24h"@,
            HistoryFilter::Last48h => "48h"@,
            HistoryFilter::Week => "Week"@,
            HistoryFilter::Month => "Month"@,
        }
    }

    pub fn label(self) -> (r: &'static str)
        ensures
            r@ == self.spec_label(),
    {
        match self {
            HistoryFilter::All => "All",
            HistoryFilter::Today => "Today",
            HistoryFilter::Last24h => "24h",
            HistoryFilter::Last48h => "48h",
            HistoryFilter::Week => "Week",
            HistoryFilter::Month => "Month",
        }
    }

    /// Position in the cycle All → Today → 24h → 48h → Week → Month.
    pub open spec fn index(self) -> int {
        match self {
            HistoryFilter::All => 0,
            HistoryFilter::Today => 1,
            HistoryFilter::Last24h => 2,
            HistoryFilter::Last48h => 3,
            HistoryFilter::Week => 4,
            HistoryFilter::Month => 5,
        }
    }

    pub open spec fn at(i: int) -> HistoryFilter {
        if i == 0 {
            HistoryFilter::All
        } else if i == 1 {
            HistoryFilter::Today
        } else if i == 2 {
            HistoryFilter::Last24h
        } else if i == 3 {
            HistoryFilter::Last48h
        } else if i == 4 {
            HistoryFilter::Week
        } else {
            HistoryFilter::Month
        }
    }

    /// The following filter, wrapping from the last to the first.
    pub fn next(self) -> (r: HistoryFilter)
        ensures
            r == HistoryFilter::at((self.index() + 1) % 6),
    {
        match self {
            HistoryFilter::All => HistoryFilter::Today,
            HistoryFilter::Today => HistoryFilter::Last24h,
            HistoryFilter::Last24h => HistoryFilter::Last48h,
            HistoryFilter::Last48h => HistoryFilter::Week,
            HistoryFilter::Week => HistoryFilter::Month,
            HistoryFilter::Month => HistoryFilter::All,
        }
    }

    /// The preceding filter, wrapping from the first to the last.
    pub fn prev(self) -> (r: HistoryFilter)
        ensures
            r == HistoryFilter::at((self.index() + 5) % 6),
    {
        match self {
            HistoryFilter::All => HistoryFilter::Month,
            HistoryFilter::Today => HistoryFilter::All,
            HistoryFilter::Last24h => HistoryFilter::Today,
            HistoryFilter::Last48h => HistoryFilter::Last24h,
            HistoryFilter::Week => HistoryFilter::Last48h,
            HistoryFilter::Month => HistoryFilter::Week,
        }
    }

    /// Whether something opened at `opened_at` falls in the window that ends
    /// at `now`: the same UTC day for `Today`, otherwise at most 24 hours,
    /// 48 hours, 7 days or 30 days before `now` (any time in the future
    /// counts as within).
    pub open spec fn spec_matches_time(self, opened_at: Timestamp, now: Timestamp) -> bool {
        match self {
            HistoryFilter::All => true,
            HistoryFilter::Today => utc_day(opened_at) == utc_day(now),
            HistoryFilter::Last24h => nanos_between(opened_at, now) <= 24 * 3600 * 1_000_000_000,
            HistoryFilter::Last48h => nanos_between(opened_at, now) <= 48 * 3600 * 1_000_000_000,
            HistoryFilter::Week => nanos_between(opened_at, now) <= 7 * 86400 * 1_000_000_000,
            HistoryFilter::Month => nanos_between(opened_at, now) <= 30 * 86400 * 1_000_000_000,
        }
    }

    pub fn matches_time(self, opened_at: Timestamp, now: Timestamp) -> (r: bool)
        ensures
            r == self.spec_matches_time(opened_at, now),
    {
        match self {
            HistoryFilter::All => true,
            HistoryFilter::Today => day_number(opened_at.secs) == day_number(now.secs),
            HistoryFilter::Last24h => nanos_since(opened_at, now) <= 24 * 3600 * NANOS_PER_SEC,
            HistoryFilter::Last48h => nanos_since(opened_at, now) <= 48 * 3600 * NANOS_PER_SEC,
            HistoryFilter::Week => nanos_since(opened_at, now) <= 7 * 86400 * NANOS_PER_SEC,
            HistoryFilter::Month => nanos_since(opened_at, now) <= 30 * 86400 * NANOS_PER_SEC,
        }
    }

    pub fn matches(self, entry: &HistoryEntry, now: Timestamp) -> (r: bool)
        ensures
            r == self.spec_matches_time(entry.opened_at, now),
    {
        self.matches_time(entry.opened_at, now)
    }
}

/// Stepping forward then back (or back then forward) returns to the same
/// filter, and six steps forward go round the whole cycle.
pub proof fn law_history_filter_cycle(f: HistoryFilter)
    ensures
        HistoryFilter::at((HistoryFilter::at((f.index() + 1) % 6).index() + 5) % 6) == f,
        HistoryFilter::at((HistoryFilter::at((f.index() + 5) % 6).index() + 1) % 6) == f,
        HistoryFilter::at(f.index()) == f,
        0 <= f.index() < 6,
{
}

/// Every time window contains the shorter ones, and everything opened at
/// `now` itself is within each of them.
pub proof fn law_history_windows_nest(opened_at: Timestamp, now: Timestamp)
    ensures
        HistoryFilter::Last24h.spec_matches_time(opened_at, now) ==> HistoryFilter::Last48h.spec_matches_time(
            opened_at,
            now,
        ),
        HistoryFilter::Last48h.spec_matches_time(opened_at, now) ==> HistoryFilter::Week.spec_matches_time(
            opened_at,
            now,
        ),
        HistoryFilter::Week.spec_matches_time(opened_at, now) ==> HistoryFilter::Month.spec_matches_time(
            opened_at,
            now,
        ),
        HistoryFilter::Month.spec_matches_time(opened_at, now) ==> HistoryFilter::All.spec_matches_time(
            opened_at,
            now,
        ),
        HistoryFilter::Today.spec_matches_time(now, now),
        HistoryFilter::Last24h.spec_matches_time(now, now),
{
}

/// The history keeps at most this many entries.
pub const HISTORY_CAP: usize = 500;

/// A query repeated within this many seconds refreshes the newest entry.
pub const REFINEMENT_DEDUP_WINDOW_SECS: i64 = 60;

/// `u32` addition of one that stops at the maximum.
pub open spec fn sat_inc(n: u32) -> u32 {
    if n == u32::MAX {
        n
    } else {
        (n + 1) as u32
    }
}

/// Whether entry `e` is of `kind` under `key`.
pub open spec fn entry_is(e: HistoryEntry, kind: HistoryKind, key: Seq<char>) -> bool {
    e.kind == kind && e.key@ == key
}

/// The first index from `i` on holding an entry of `kind` under `key`.
pub open spec fn first_from(h: Seq<HistoryEntry>, kind: HistoryKind, key: Seq<char>, i: int) -> Option<int>
    decreases h.len() - i,
{
    if i < 0 || i >= h.len() {
        None
    } else if entry_is(h[i], kind, key) {
        Some(i)
    } else {
        first_from(h, kind, key, i + 1)
    }
}

pub open spec fn first_entry(h: Seq<HistoryEntry>, kind: HistoryKind, key: Seq<char>) -> Option<int> {
    first_from(h, kind, key, 0)
}

/// The entries left once the one at `p` (if any) is taken out.
pub open spec fn without(h: Seq<HistoryEntry>, p: Option<int>) -> Seq<HistoryEntry> {
    match p {
        Some(i) => h.remove(i),
        None => h,
    }
}

/// No two entries share both kind and key.
pub open spec fn keys_unique(h: Seq<HistoryEntry>) -> bool {
    forall|i: int, j: int|
        0 <= i < h.len() && 0 <= j < h.len() && i != j ==> !(#[trigger] h[i].kind == #[trigger] h[j].kind && h[i].key@
            == h[j].key@)
}

/// `new` is `head` followed by `rest`, cut to `HISTORY_CAP` entries.
pub open spec fn pushed_front(new: Seq<HistoryEntry>, rest: Seq<HistoryEntry>) -> bool {
    &&& new.len() == if rest.len() + 1 > HISTORY_CAP { HISTORY_CAP as int } else { rest.len() + 1int }
    &&& forall|i: int| 1 <= i < new.len() ==> #[trigger] new[i] == rest[i - 1]
}

proof fn lemma_first_from(h: Seq<HistoryEntry>, kind: HistoryKind, key: Seq<char>, i: int)
    requires
        0 <= i <= h.len(),
    ensures
        match first_from(h, kind, key, i) {
            Some(p) => i <= p < h.len() && entry_is(h[p], kind, key) && forall|k: int|
                i <= k < p ==> !entry_is(#[trigger] h[k], kind, key),
            None => forall|k: int| i <= k < h.len() ==> !entry_is(#[trigger] h[k], kind, key),
        },
    decreases h.len() - i,
{
    if i < h.len() {
        lemma_first_from(h, kind, key, i + 1);
    }
}

fn find_entry(h: &Vec<HistoryEntry>, kind: HistoryKind, key: &str) -> (r: Option<usize>)
    ensures
        match r {
            Some(p) => first_entry(h@, kind, key@) == Some(p as int),
            None => first_entry(h@, kind, key@) is None,
        },
{
    let mut i: usize = 0;
    while i < h.len()
        invariant
            0 <= i <= h@.len(),
            first_entry(h@, kind, key@) == first_from(h@, kind, key@, i as int),
        decreases h.len() - i,
    {
        if h[i].kind == kind && str_eq(h[i].key.as_str(), key) {
            return Some(i);
        }
        i += 1;
    }
    None
}

/// Moves `entry` to the front and cuts the history to its cap.
fn push_front_capped(history: &mut Vec<HistoryEntry>, entry: HistoryEntry)
    ensures
        final(history)@.len() > 0,
        final(history)@[0] == entry,
        pushed_front(final(history)@, old(history)@),
{
    history.insert(0, entry);
    history.truncate(HISTORY_CAP);
}

proof fn lemma_unique_after_push(rest: Seq<HistoryEntry>, new: Seq<HistoryEntry>, kind: HistoryKind, key: Seq<char>)
    requires
        keys_unique(rest),
        forall|k: int| 0 <= k < rest.len() ==> !entry_is(#[trigger] rest[k], kind, key),
        new.len() > 0,
        entry_is(new[0], kind, key),
        pushed_front(new, rest),
    ensures
        keys_unique(new),
{
    assert forall|i: int, j: int| 0 <= i < new.len() && 0 <= j < new.len() && i != j implies !(#[trigger] new[i].kind
        == #[trigger] new[j].kind && new[i].key@ == new[j].key@) by {
        if i == 0 {
            assert(new[j] == rest[j - 1]);
            assert(!entry_is(rest[j - 1], kind, key));
        } else if j == 0 {
            assert(new[i] == rest[i - 1]);
            assert(!entry_is(rest[i - 1], kind, key));
        } else {
            assert(new[i] == rest[i - 1] && new[j] == rest[j - 1]);
        }
    }
}

proof fn lemma_unique_without(h: Seq<HistoryEntry>, kind: HistoryKind, key: Seq<char>)
    requires
        keys_unique(h),
    ensures
        keys_unique(without(h, first_entry(h, kind, key))),
        forall|k: int|
            0 <= k < without(h, first_entry(h, kind, key)).len() ==> !entry_is(
                #[trigger] without(h, first_entry(h, kind, key))[k],
                kind,
                key,
            ),
{
    lemma_first_from(h, kind, key, 0);
    let p = first_entry(h, kind, key);
    let r = without(h, p);
    match p {
        Some(q) => {
            assert forall|i: int, j: int| 0 <= i < r.len() && 0 <= j < r.len() && i != j implies !(
            #[trigger] r[i].kind == #[trigger] r[j].kind && r[i].key@ == r[j].key@) by {
                let i2 = if i < q { i } else { i + 1 };
                let j2 = if j < q { j } else { j + 1 };
                assert(r[i] == h[i2] && r[j] == h[j2]);
            }
            assert forall|k: int| 0 <= k < r.len() implies !entry_is(#[trigger] r[k], kind, key) by {
                let k2 = if k < q { k } else { k + 1 };
                assert(r[k] == h[k2]);
                assert(k2 != q);
                if entry_is(h[k2], kind, key) {
                    assert(h[k2].kind == h[q].kind && h[k2].key@ == h[q].key@);
                }
            }
        },
        None => {},
    }
}

/// Reads the system clock (`SystemTime::now`) against the Unix epoch
/// (`duration_since(UNIX_EPOCH)`): `Ok` with the whole seconds and the
/// sub-second nanoseconds since the epoch, or, for a clock set before it,
/// `Err` with the same parts of the time left until the epoch.  The clock
/// decides the value; std documents that the nanosecond part is under one
/// billion.
#[verifier::external_body]
fn system_clock() -> (r: Result<(u64, u32), (u64, u32)>)
    ensures
        match r {
            Ok((_, n)) => n < 1_000_000_000,
            Err((_, n)) => n < 1_000_000_000,
        },
{
    match std::time::SystemTime::now().duration_since(std::time::UNIX_EPOCH) {
        Ok(d) => Ok((d.as_secs(), d.subsec_nanos())),
        Err(e) => Err((e.duration().as_secs(), e.duration().subsec_nanos())),
    }
}

/// The current instant, without panicking on a clock set before 1970
/// (such an instant has negative seconds); a clock beyond what `i64`
/// seconds can hold reads as the latest such second.
fn utc_now() -> (r: Timestamp)
    ensures
        r.nanos < 1_000_000_000,
{
    match system_clock() {
        Ok((s, n)) => {
            let secs: i64 = if s <= i64::MAX as u64 { s as i64 } else { i64::MAX };
            Timestamp { secs, nanos: n }
        },
        Err((s, n)) => {
            let whole: i64 = if s < i64::MAX as u64 { s as i64 } else { i64::MAX - 1 };
            if n == 0 {
                Timestamp { secs: -whole, nanos: 0 }
            } else {
                Timestamp { secs: -whole - 1, nanos: 1_000_000_000 - n }
            }
        },
    }
}

/// The history after recording the paper at `url` opened at `now` (see
/// `record_paper_at`).
pub open spec fn paper_recorded(
    o: Seq<HistoryEntry>,
    h: Seq<HistoryEntry>,
    url: Seq<char>,
    title: String,
    source: String,
    meta: HistoryPaperMeta,
    now: Timestamp,
) -> bool {
    let p = first_entry(o, HistoryKind::Paper, url);
    &&& pushed_front(h, without(o, p))
    &&& h[0].kind == HistoryKind::Paper
    &&& h[0].key@ == url
    &&& h[0].title == title
    &&& h[0].source == source
    &&& h[0].paper_meta == Some(meta)
    &&& h[0].opened_at == now
    &&& h[0].visit_count == match p {
        Some(i) => sat_inc(o[i].visit_count),
        None => 1u32,
    }
}

/// Record opening the paper at `url` at time `now`.  An earlier entry for the
/// same URL moves to the front with its visit count raised by one; otherwise a
/// new entry with one visit goes first.  The history is then cut to
/// `HISTORY_CAP` entries.
pub fn record_paper_at(
    history: &mut Vec<HistoryEntry>,
    url: String,
    title: String,
    source: String,
    meta: HistoryPaperMeta,
    now: Timestamp,
)
    ensures
        paper_recorded(old(history)@, final(history)@, url@, title, source, meta, now),
        final(history)@.len() <= HISTORY_CAP,
        keys_unique(old(history)@) ==> keys_unique(final(history)@),
{
    let ghost old_h = history@;
    proof {
        lemma_first_from(old_h, HistoryKind::Paper, url@, 0);
        if keys_unique(old_h) {
            lemma_unique_without(old_h, HistoryKind::Paper, url@);
        }
    }
    match find_entry(history, HistoryKind::Paper, url.as_str()) {
        Some(pos) => {
            let mut entry = history.remove(pos);
            entry.opened_at = now;
            entry.visit_count = entry.visit_count.saturating_add(1);
            entry.title = title;
            entry.source = source;
            entry.paper_meta = Some(meta);
            push_front_capped(history, entry);
        },
        None => {
            let entry = HistoryEntry {
                kind: HistoryKind::Paper,
                key: url,
                title,
                source,
                paper_meta: Some(meta),
                opened_at: now,
                visit_count: 1,
            };
            push_front_capped(history, entry);
        },
    }
    proof {
        if keys_unique(old_h) {
            lemma_unique_after_push(without(old_h, first_entry(old_h, HistoryKind::Paper, url@)), history@, HistoryKind::Paper, url@);
        }
    }
}

/// Record opening the paper at `url` now (see `record_paper_at`).
pub fn record_paper(history: &mut Vec<HistoryEntry>, url: String, title: String, source: String, meta: HistoryPaperMeta)
    ensures
        exists|t: Timestamp| paper_recorded(old(history)@, final(history)@, url@, title, source, meta, t),
        final(history)@.len() <= HISTORY_CAP,
        final(history)@.len() > 0,
        keys_unique(old(history)@) ==> keys_unique(final(history)@),
{
    let now = utc_now();
    record_paper_at(history, url, title, source, meta, now);
}

/// Whether a query for `topic` at `now` only refreshes the newest entry: it is
/// a query for the same topic logged less than a minute before.
pub open spec fn refreshes_head(h: Seq<HistoryEntry>, topic: Seq<char>, now: Timestamp) -> bool {
    &&& h.len() > 0
    &&& entry_is(h[0], HistoryKind::Query, topic)
    &&& whole_secs_between(h[0].opened_at, now) < REFINEMENT_DEDUP_WINDOW_SECS
}

/// The history after recording a query for `topic` at `now` (see
/// `record_query_at`).
pub open spec fn query_recorded(o: Seq<HistoryEntry>, h: Seq<HistoryEntry>, topic: String, intent_label: Seq<char>, now: Timestamp) -> bool {
    &&& refreshes_head(o, topic@, now) ==> {
        &&& h.len() == o.len()
        &&& forall|i: int| 1 <= i < h.len() ==> #[trigger] h[i] == o[i]
        &&& h[0].kind == o[0].kind
        &&& h[0].key == o[0].key
        &&& h[0].title == o[0].title
        &&& h[0].paper_meta == o[0].paper_meta
        &&& h[0].source@ == intent_label
        &&& h[0].opened_at == now
        &&& h[0].visit_count == sat_inc(o[0].visit_count)
    }
    &&& !refreshes_head(o, topic@, now) ==> {
        let p = first_entry(o, HistoryKind::Query, topic@);
        &&& pushed_front(h, without(o, p))
        &&& h[0].kind == HistoryKind::Query
        &&& h[0].key@ == topic@
        &&& h[0].source@ == intent_label
        &&& h[0].opened_at == now
        &&& match p {
            Some(i) => {
                &&& h[0].title == o[i].title
                &&& h[0].paper_meta == o[i].paper_meta
                &&& h[0].visit_count == sat_inc(o[i].visit_count)
            },
            None => {
                &&& h[0].title == topic
                &&& h[0].paper_meta is None
                &&& h[0].visit_count == 1
            },
        }
    }
}

/// Record a discovery query for `topic` at time `now`.  A query for the same
/// topic logged less than a minute before as the newest entry is refreshed in
/// place.  Otherwise an earlier entry for the topic moves to the front with its
/// visit count raised by one, or a new entry with one visit goes first, and the
/// history is cut to `HISTORY_CAP` entries.
pub fn record_query_at(history: &mut Vec<HistoryEntry>, topic: String, intent_label: &str, now: Timestamp)
    ensures
        query_recorded(old(history)@, final(history)@, topic, intent_label@, now),
        old(history)@.len() <= HISTORY_CAP ==> final(history)@.len() <= HISTORY_CAP,
        keys_unique(old(history)@) ==> keys_unique(final(history)@),
{
    let ghost old_h = history@;
    if history.len() > 0 {
        let head_is = history[0].kind == HistoryKind::Query && str_eq(history[0].key.as_str(), topic.as_str());
        if head_is {
            let d = nanos_since(history[0].opened_at, now);
            let recent = d < REFINEMENT_DEDUP_WINDOW_SECS as i128 * NANOS_PER_SEC;
            proof {
                let w = whole_secs_between(old_h[0].opened_at, now);
                assert(recent == (w < 60)) by (nonlinear_arith)
                    requires
                        d == nanos_between(old_h[0].opened_at, now),
                        w == (if d >= 0 { d / 1_000_000_000 } else { -((-d) / 1_000_000_000) }),
                        recent == (d < 60 * 1_000_000_000),
                ;
            }
            if recent {
                let mut head = history.remove(0);
                head.opened_at = now;
                head.visit_count = head.visit_count.saturating_add(1);
                head.source = to_owned_string(intent_label);
                history.insert(0, head);
                proof {
                    assert forall|i: int| 1 <= i < history@.len() implies #[trigger] history@[i] == old_h[i] by {}
                    if keys_unique(old_h) {
                        assert forall|i: int, j: int| 0 <= i < history@.len() && 0 <= j < history@.len() && i != j implies !(
                        #[trigger] history@[i].kind == #[trigger] history@[j].kind && history@[i].key@ == history@[j].key@) by {
                            if i == 0 {
                                assert(history@[j] == old_h[j]);
                                assert(!(old_h[0].kind == old_h[j].kind && old_h[0].key@ == old_h[j].key@));
                            } else if j == 0 {
                                assert(history@[i] == old_h[i]);
                                assert(!(old_h[i].kind == old_h[0].kind && old_h[i].key@ == old_h[0].key@));
                            } else {
                                assert(history@[i] == old_h[i] && history@[j] == old_h[j]);
                            }
                        }
                    }
                }
                return;
            }
        }
    }
    proof {
        lemma_first_from(old_h, HistoryKind::Query, topic@, 0);
        if keys_unique(old_h) {
            lemma_unique_without(old_h, HistoryKind::Query, topic@);
        }
    }
    match find_entry(history, HistoryKind::Query, topic.as_str()) {
        Some(pos) => {
            let mut entry = history.remove(pos);
            entry.opened_at = now;
            entry.visit_count = entry.visit_count.saturating_add(1);
            entry.source = to_owned_string(intent_label);
            push_front_capped(history, entry);
        },
        None => {
            let key = topic.clone();
            let entry = HistoryEntry {
                kind: HistoryKind::Query,
                key,
                title: topic,
                source: to_owned_string(intent_label),
                paper_meta: None,
                opened_at: now,
                visit_count: 1,
            };
            push_front_capped(history, entry);
        },
    }
    proof {
        if keys_unique(old_h) {
            lemma_unique_after_push(without(old_h, first_entry(old_h, HistoryKind::Query, topic@)), history@, HistoryKind::Query, topic@);
        }
    }
}

/// Record a discovery query for `topic` now (see `record_query_at`).
pub fn record_query(history: &mut Vec<HistoryEntry>, topic: String, intent_label: &str)
    ensures
        exists|t: Timestamp| query_recorded(old(history)@, final(history)@, topic, intent_label@, t),
        old(history)@.len() <= HISTORY_CAP ==> final(history)@.len() <= HISTORY_CAP,
        keys_unique(old(history)@) ==> keys_unique(final(history)@),
{
    let now = utc_now();
    record_query_at(history, topic, intent_label, now);
}

// ---------------------------------------------------------------------------
// "3h ago"
// ---------------------------------------------------------------------------

/// How long ago, in words: "now" under a minute, then whole minutes, hours,
/// days, weeks (under 30 days) or 30-day months, with "m", "h", "d", "w" or
/// "mo" and " ago".  A time in the future reads "now".
pub open spec fn spec_format_ago(secs: int) -> Seq<char> {
    if secs < 60 {
        "now"@
    } else if secs < 3600 {
        decimal((secs / 60) as nat) + "m ago"@
    } else if secs < 86400 {
        decimal((secs / 3600) as nat) + "h ago"@
    } else if secs < 604800 {
        decimal((secs / 86400) as nat) + "d ago"@
    } else if secs < 2592000 {
        decimal((secs / 604800) as nat) + "w ago"@
    } else {
        decimal((secs / 2592000) as nat) + "mo ago"@
    }
}

/// Format the time since `opened_at` as "2h ago", "3d ago" and so on.
pub fn format_ago(opened_at: Timestamp, now: Timestamp) -> (r: String)
    ensures
        r@ == spec_format_ago(whole_secs_between(opened_at, now)),
{
    let d = nanos_since(opened_at, now);
    if d < 60 * NANOS_PER_SEC {
        proof {
            let w = whole_secs_between(opened_at, now);
            assert(w < 60) by (nonlinear_arith)
                requires
                    w == (if d >= 0 { d / 1_000_000_000 } else { -((-d) / 1_000_000_000) }),
                    d < 60 * 1_000_000_000,
            ;
        }
        proof { reveal_strlit("now"); }
        return string_of(&['n', 'o', 'w']);
    }
    let secs128: i128 = d / NANOS_PER_SEC;
    assert(0 <= secs128 <= 0x2_0000_0000_0000_0000i128) by (nonlinear_arith)
        requires
            secs128 == d / 1_000_000_000,
            d >= 60 * 1_000_000_000,
            d <= 0x1_0000_0000_0000_0000 * 1_000_000_000 + 0x1_0000_0000,
    ;
    let secs: u128 = secs128 as u128;
    let mut v: Vec<char> = Vec::new();
    if secs < 3600 {
        push_decimal(&mut v, (secs / 60) as u64);
        push_str(&mut v, "m ago");
    } else if secs < 86400 {
        push_decimal(&mut v, (secs / 3600) as u64);
        push_str(&mut v, "h ago");
    } else if secs < 86400 * 7 {
        push_decimal(&mut v, (secs / 86400) as u64);
        push_str(&mut v, "d ago");
    } else if secs < 86400 * 30 {
        push_decimal(&mut v, (secs / 604800) as u64);
        push_str(&mut v, "w ago");
    } else {
        push_decimal(&mut v, (secs / 2592000) as u64);
        push_str(&mut v, "mo ago");
    }
    string_of(&v)
}

/// A feed item rebuilt from a history entry, for reopening a paper that is
/// no longer in the feed: the entry's URL is both id and URL, the remembered
/// metadata fills the rest, and the search caches are filled in.
pub fn reconstruct_feed_item(entry: &HistoryEntry, meta: &HistoryPaperMeta) -> (r: FeedItem)
    ensures
        r.id@ == entry.key@,
        r.title@ == entry.title@,
        r.source_platform == meta.source_platform,
        r.content_type == ContentType::Paper,
        r.domain_tags@.len() == 0,
        r.signal == SignalLevel::Tertiary,
        r.published_at@ == meta.published_at@,
        views(r.authors@) == views(meta.authors@),
        r.summary_short@ == meta.summary_short@,
        r.workflow_state == WorkflowState::Inbox,
        r.url@ == entry.key@,
        r.upvote_count == 0,
        r.github_repo is None,
        r.github_owner is None,
        r.github_repo_name is None,
        r.benchmark_results@.len() == 0,
        r.full_content is None,
        r.source_name@ == entry.source@,
        r.title_lower@ == lowercase(entry.title@),
        views(r.authors_lower@) == views(meta.authors@).map_values(|t: Seq<char>| lowercase(t)),
{
    FeedItem {
        id: entry.key.clone(),
        title: entry.title.clone(),
        source_platform: meta.source_platform,
        content_type: ContentType::Paper,
        domain_tags: Vec::new(),
        signal: SignalLevel::Tertiary,
        published_at: meta.published_at.clone(),
        authors: clone_strings(&meta.authors),
        summary_short: meta.summary_short.clone(),
        workflow_state: WorkflowState::Inbox,
        url: entry.key.clone(),
        upvote_count: 0,
        github_repo: None,
        github_owner: None,
        github_repo_name: None,
        benchmark_results: Vec::new(),
        full_content: None,
        source_name: entry.source.clone(),
        title_lower: to_lowercase(entry.title.as_str()),
        authors_lower: lower_all(&meta.authors),
    }
}

} // verus!
