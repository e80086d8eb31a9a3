//! The sources popup: a field for adding a source by URL, then one row per
//! arXiv category (toggled on and off), one per built-in source (switched
//! on and off) and one per custom feed (deleted with `d`).
use vstd::prelude::*;

use crate::app::{DiscoverResult, SourcesDetectState};
use crate::config::{
    known_arxiv_cats, predefined_sources, spec_known_arxiv_cats, spec_predefined_sources, CustomFeed, SourcesConfig,
};
use crate::input::Key;
use crate::library::is_char;
use crate::models::{contains_string, views};
use crate::strs::{chars_of, str_eq, string_of, to_owned_string};

verus! {

broadcast use vstd::string::group_string_axioms;

/// `c` is one of the categories the popup always offers.
pub open spec fn known_code(c: Seq<char>) -> bool {
    exists|i: int| 0 <= i < spec_known_arxiv_cats().len() && #[trigger] spec_known_arxiv_cats()[i].0 == c
}

/// The user's categories that are not among the offered ones, in order,
/// each with an empty label.
pub open spec fn extra_cats(user: Seq<Seq<char>>) -> Seq<(Seq<char>, Seq<char>)>
    decreases user.len(),
{
    if user.len() == 0 {
        Seq::empty()
    } else if known_code(user.last()) {
        extra_cats(user.drop_last())
    } else {
        extra_cats(user.drop_last()).push((user.last(), Seq::empty()))
    }
}

/// The category rows: the offered categories, then the user's others.
pub open spec fn popup_cats(user: Seq<Seq<char>>) -> Seq<(Seq<char>, Seq<char>)> {
    spec_known_arxiv_cats() + extra_cats(user)
}

/// The number of rows: the input field, the categories, the built-in
/// sources and the custom feeds.
pub open spec fn popup_rows(s: SourcesConfig) -> int {
    (1 + popup_cats(views(s.arxiv_categories@)).len() + spec_predefined_sources().len() + s.custom_feeds@.len()) as int
}

fn is_known_code(code: &str) -> (r: bool)
    ensures
        r == known_code(code@),
{
    let known = known_arxiv_cats();
    let mut i: usize = 0;
    while i < known.len()
        invariant
            0 <= i <= known@.len(),
            known@.len() == spec_known_arxiv_cats().len(),
            forall|k: int| 0 <= k < known@.len() ==> (#[trigger] known@[k]).0@ == spec_known_arxiv_cats()[k].0
                && known@[k].1@ == spec_known_arxiv_cats()[k].1,
            forall|k: int| 0 <= k < i ==> spec_known_arxiv_cats()[k].0 != code@,
        decreases known.len() - i,
    {
        if str_eq(known[i].0, code) {
            assert(spec_known_arxiv_cats()[i as int].0 == code@);
            return true;
        }
        i += 1;
    }
    false
}

/// The category rows of the popup for the configured sources.
pub fn sources_popup_arxiv_cats(sources: &SourcesConfig) -> (r: Vec<(String, String)>)
    ensures
        r@.len() == popup_cats(views(sources.arxiv_categories@)).len(),
        forall|i: int| 0 <= i < r@.len() ==> (#[trigger] r@[i]).0@ == popup_cats(views(sources.arxiv_categories@))[i].0
            && r@[i].1@ == popup_cats(views(sources.arxiv_categories@))[i].1,
{
    let known = known_arxiv_cats();
    let mut r: Vec<(String, String)> = Vec::new();
    let mut i: usize = 0;
    while i < known.len()
        invariant
            0 <= i <= known@.len(),
            known@.len() == spec_known_arxiv_cats().len(),
            forall|k: int| 0 <= k < known@.len() ==> (#[trigger] known@[k]).0@ == spec_known_arxiv_cats()[k].0
                && known@[k].1@ == spec_known_arxiv_cats()[k].1,
            r@.len() == i,
            forall|k: int| 0 <= k < i ==> (#[trigger] r@[k]).0@ == spec_known_arxiv_cats()[k].0 && r@[k].1@
                == spec_known_arxiv_cats()[k].1,
        decreases known.len() - i,
    {
        r.push((to_owned_string(known[i].0), to_owned_string(known[i].1)));
        i += 1;
    }
    let ghost user = views(sources.arxiv_categories@);
    let n0 = r.len();
    let mut j: usize = 0;
    assert(user.take(0) =~= Seq::<Seq<char>>::empty());
    while j < sources.arxiv_categories.len()
        invariant
            0 <= j <= sources.arxiv_categories@.len(),
            user == views(sources.arxiv_categories@),
            n0 == spec_known_arxiv_cats().len(),
            r@.len() == n0 + extra_cats(user.take(j as int)).len(),
            forall|k: int| 0 <= k < n0 ==> (#[trigger] r@[k]).0@ == spec_known_arxiv_cats()[k].0 && r@[k].1@
                == spec_known_arxiv_cats()[k].1,
            forall|k: int| 0 <= k < extra_cats(user.take(j as int)).len() ==> (#[trigger] r@[n0 + k]).0@ == extra_cats(
                user.take(j as int),
            )[k].0 && r@[n0 + k].1@ == extra_cats(user.take(j as int))[k].1,
        decreases sources.arxiv_categories.len() - j,
    {
        let cat = &sources.arxiv_categories[j];
        assert(user.take(j + 1).drop_last() =~= user.take(j as int));
        assert(user.take(j + 1).last() == cat@);
        if !is_known_code(cat.as_str()) {
            r.push((cat.clone(), string_of(&Vec::new())));
            proof {
                let e = extra_cats(user.take(j + 1));
                assert(e == extra_cats(user.take(j as int)).push((cat@, Seq::empty())));
                assert forall|k: int| 0 <= k < e.len() implies (#[trigger] r@[n0 + k]).0@ == e[k].0 && r@[n0 + k].1@ == e[k].1 by {
                    if k < e.len() - 1 {
                        assert(e[k] == extra_cats(user.take(j as int))[k]);
                    }
                }
            }
        }
        j += 1;
    }
    assert(user.take(user.len() as int) =~= user);
    proof {
        let pc = popup_cats(user);
        assert forall|i: int| 0 <= i < r@.len() implies (#[trigger] r@[i]).0@ == pc[i].0 && r@[i].1@ == pc[i].1 by {
            if i < n0 {
                assert(pc[i] == spec_known_arxiv_cats()[i]);
            } else {
                assert(pc[i] == extra_cats(user)[i - n0]);
                assert(r@[n0 + (i - n0)] == r@[i]);
            }
        }
    }
    r
}

/// The popup's own state: the row under the cursor, the add-source field
/// (its text, whether it has focus) and the URL detection for it.
pub struct SourcesPopup {
    pub cursor: usize,
    pub input: String,
    pub input_active: bool,
    pub detect: SourcesDetectState,
}

/// What the caller does after a key reached the popup.
#[derive(Debug)]
pub enum PopupAction {
    /// Nothing more to do.
    Nothing,
    /// Detect what kind of source this URL is (the answer comes back as a
    /// detection result).
    Detect(String),
    /// The sources changed: save them, and fetch again when `refresh`.
    Changed { refresh: bool },
    /// Close the popup and go back to the settings view.
    Close,
}

/// Some custom feed has URL `url`.
pub open spec fn has_feed(feeds: Seq<CustomFeed>, url: Seq<char>) -> bool {
    exists|i: int| 0 <= i < feeds.len() && #[trigger] feeds[i].url@ == url
}

fn feed_listed(feeds: &Vec<CustomFeed>, url: &str) -> (r: bool)
    ensures
        r == has_feed(feeds@, url@),
{
    let mut i: usize = 0;
    while i < feeds.len()
        invariant
            0 <= i <= feeds@.len(),
            forall|k: int| 0 <= k < i ==> (#[trigger] feeds@[k]).url@ != url@,
        decreases feeds.len() - i,
    {
        if str_eq(feeds[i].url.as_str(), url) {
            return true;
        }
        i += 1;
    }
    false
}

/// Remove every copy of `s`.
fn remove_all(v: &mut Vec<String>, s: &str)
    ensures
        views(final(v)@) == views(old(v)@).filter(|x: Seq<char>| x != s@),
{
    let ghost orig = views(v@);
    let ghost p = |x: Seq<char>| x != s@;
    let mut rest: Vec<String> = Vec::new();
    std::mem::swap(&mut rest, v);
    let mut kept: Vec<String> = Vec::new();
    let total = rest.len();
    let mut i: usize = 0;
    assert(orig.take(0) =~= Seq::<Seq<char>>::empty());
    proof { reveal(Seq::filter); }
    while rest.len() > 0
        invariant
            i + rest@.len() == total,
            total == orig.len(),
            views(rest@) == orig.skip(i as int),
            views(kept@) == orig.take(i as int).filter(p),
            p == (|x: Seq<char>| x != s@),
        decreases rest.len(),
    {
        let ghost before = views(rest@);
        let e = rest.remove(0);
        proof {
            reveal(Seq::filter);
            assert(before[0] == e@);
            assert(orig[i as int] == e@);
            assert(orig.take(i + 1).drop_last() =~= orig.take(i as int));
            assert(views(rest@) =~= before.skip(1));
            assert(before.skip(1) =~= orig.skip(i + 1));
            assert(orig.take(i + 1).filter(p) == if p(e@) {
                orig.take(i as int).filter(p).push(e@)
            } else {
                orig.take(i as int).filter(p)
            });
        }
        if !str_eq(e.as_str(), s) {
            let ghost kb = views(kept@);
            kept.push(e);
            assert(views(kept@) =~= kb.push(e@));
        }
        i += 1;
    }
    assert(orig.take(orig.len() as int) =~= orig);
    *v = kept;
}

/// The input text after typing `key` into it.
pub open spec fn typed(q: Seq<char>, key: Key) -> Seq<char> {
    match key {
        Key::Backspace => if q.len() > 0 { q.drop_last() } else { q },
        Key::Char { c, ctrl: _ } => q.push(c),
        _ => q,
    }
}

/// The sources are as they were.
pub open spec fn same_sources(a: SourcesConfig, b: SourcesConfig) -> bool {
    &&& views(a.arxiv_categories@) == views(b.arxiv_categories@)
    &&& forall|n: Seq<char>| #[trigger] a.spec_enabled(n) == b.spec_enabled(n)
    &&& a.custom_feeds@ == b.custom_feeds@
}

impl SourcesPopup {
    /// Cursor on the input field, nothing typed.
    pub fn new() -> (r: Self)
        ensures
            r.cursor == 0,
            r.input@ == Seq::<char>::empty(),
            !r.input_active,
            r.detect is Idle,
    {
        SourcesPopup { cursor: 0, input: string_of(&Vec::new()), input_active: false, detect: SourcesDetectState::Idle }
    }

    /// Handle one key in the popup.
    ///
    /// While the add-source field has focus: Esc leaves it (dropping the
    /// text), typing and Backspace edit it (forgetting any detection),
    /// Enter starts detecting the typed URL, or, once a detection result is
    /// in, adds the detected arXiv category or RSS feed unless it is
    /// already configured and leaves the field.
    ///
    /// Otherwise: Esc or `q` closes the popup; j/k (or the arrows) move the
    /// cursor over the rows; Enter or `/` on the first row focuses the
    /// field; space focuses the field on the first row, toggles a category
    /// on its row and switches a built-in source on its row; `d` on a
    /// custom feed's row deletes that feed.
    pub fn handle_key(&mut self, key: Key, sources: &mut SourcesConfig) -> (r: PopupAction)
        requires
            popup_rows(*old(sources)) <= usize::MAX,
        ensures
            ({
                let o = *old(self);
                let s0 = *old(sources);
                let s1 = *final(sources);
                let cats = popup_cats(views(s0.arxiv_categories@));
                let ncat = cats.len() as int;
                let nsrc = spec_predefined_sources().len() as int;
                let c = o.cursor as int;
                &&& !(r is Changed) ==> same_sources(s0, s1)
                &&& o.input_active ==> {
                    &&& final(self).cursor == o.cursor
                    &&& key == Key::Esc ==> !final(self).input_active && final(self).detect is Idle
                        && final(self).input@ == Seq::<char>::empty() && r is Nothing
                    &&& (key == Key::Backspace || key is Char) ==> final(self).input_active && final(self).detect is Idle
                        && final(self).input@ == typed(o.input@, key) && r is Nothing
                    &&& key == Key::Enter ==> match o.detect {
                        SourcesDetectState::Idle => if o.input@.len() > 0 {
                            final(self).detect is Detecting && final(self).input_active
                                && final(self).input@ == o.input@
                                && (r matches PopupAction::Detect(u) && u@ == o.input@)
                        } else {
                            r is Nothing && final(self).input_active
                        },
                        SourcesDetectState::Detecting => r is Nothing && final(self).detect is Detecting
                            && final(self).input_active,
                        SourcesDetectState::Result(res) => {
                            &&& !final(self).input_active
                            &&& final(self).detect is Idle
                            &&& final(self).input@ == Seq::<char>::empty()
                            &&& match res {
                                DiscoverResult::ArxivCategory(code) => if views(s0.arxiv_categories@).contains(code@) {
                                    r is Nothing
                                } else {
                                    (r matches PopupAction::Changed { refresh } && refresh)
                                        && views(s1.arxiv_categories@) == views(s0.arxiv_categories@).push(code@)
                                        && s1.custom_feeds@ == s0.custom_feeds@
                                        && forall|n: Seq<char>| #[trigger] s1.spec_enabled(n) == s0.spec_enabled(n)
                                },
                                DiscoverResult::RssFeed { url, name } => if has_feed(s0.custom_feeds@, url@) {
                                    r is Nothing
                                } else {
                                    &&& r matches PopupAction::Changed { refresh } && refresh
                                    &&& s1.custom_feeds@.len() == s0.custom_feeds@.len() + 1
                                    &&& s1.custom_feeds@.take(s0.custom_feeds@.len() as int) == s0.custom_feeds@
                                    &&& s1.custom_feeds@.last().url@ == url@
                                    &&& s1.custom_feeds@.last().name@ == name@
                                    &&& s1.custom_feeds@.last().feed_type@ == "rss"@
                                    &&& views(s1.arxiv_categories@) == views(s0.arxiv_categories@)
                                    &&& forall|n: Seq<char>| #[trigger] s1.spec_enabled(n) == s0.spec_enabled(n)
                                },
                                _ => r is Nothing,
                            }
                        },
                    }
                    &&& !(key == Key::Esc || key == Key::Backspace || key is Char || key == Key::Enter) ==> r is Nothing
                        && final(self).input_active && final(self).input@ == o.input@
                }
                &&& !o.input_active ==> {
                    &&& (key == Key::Esc || is_char(key, 'q')) ==> r is Close && final(self).cursor == 0
                        && final(self).input@ == Seq::<char>::empty() && final(self).detect is Idle
                    &&& (key == Key::Down || is_char(key, 'j')) ==> r is Nothing && final(self).cursor == (if c + 1
                        < popup_rows(s0) {
                        c + 1
                    } else {
                        popup_rows(s0) - 1
                    })
                    &&& (key == Key::Up || is_char(key, 'k')) ==> r is Nothing && final(self).cursor == (if c > 0 {
                        c - 1
                    } else {
                        0
                    })
                    &&& (key == Key::Enter || is_char(key, '/')) ==> r is Nothing && final(self).cursor == o.cursor
                        && final(self).input_active == (c == 0)
                    &&& is_char(key, ' ') ==> final(self).cursor == o.cursor && {
                        if c == 0 {
                            r is Nothing && final(self).input_active
                        } else if c <= ncat {
                            let code = cats[c - 1].0;
                            &&& r matches PopupAction::Changed { refresh } && refresh
                            &&& views(s1.arxiv_categories@) == if views(s0.arxiv_categories@).contains(code) {
                                views(s0.arxiv_categories@).filter(|x: Seq<char>| x != code)
                            } else {
                                views(s0.arxiv_categories@).push(code)
                            }
                            &&& s1.custom_feeds@ == s0.custom_feeds@
                            &&& forall|n: Seq<char>| #[trigger] s1.spec_enabled(n) == s0.spec_enabled(n)
                        } else if c <= ncat + nsrc {
                            let name = spec_predefined_sources()[c - ncat - 1];
                            &&& r matches PopupAction::Changed { refresh } && refresh
                            &&& s1.spec_enabled(name) == !s0.spec_enabled(name)
                            &&& forall|n: Seq<char>| n != name ==> #[trigger] s1.spec_enabled(n) == s0.spec_enabled(n)
                            &&& views(s1.arxiv_categories@) == views(s0.arxiv_categories@)
                            &&& s1.custom_feeds@ == s0.custom_feeds@
                        } else {
                            r is Nothing
                        }
                    }
                    &&& is_char(key, 'd') ==> if 1 + ncat + nsrc <= c < 1 + ncat + nsrc + s0.custom_feeds@.len() {
                        &&& r matches PopupAction::Changed { refresh } && !refresh
                        &&& s1.custom_feeds@ == s0.custom_feeds@.remove(c - 1 - ncat - nsrc)
                        &&& views(s1.arxiv_categories@) == views(s0.arxiv_categories@)
                        &&& forall|n: Seq<char>| #[trigger] s1.spec_enabled(n) == s0.spec_enabled(n)
                        &&& final(self).cursor == c - 1
                    } else {
                        r is Nothing && final(self).cursor == o.cursor
                    }
                    &&& !(key == Key::Esc || is_char(key, 'q') || key == Key::Down || is_char(key, 'j') || key == Key::Up
                        || is_char(key, 'k') || key == Key::Enter || is_char(key, '/') || is_char(key, ' ') || is_char(key, 'd'))
                        ==> r is Nothing && final(self).cursor == o.cursor && !final(self).input_active
                }
            }),
    {
        if self.input_active {
            match key {
                Key::Esc => {
                    self.input_active = false;
                    self.detect = SourcesDetectState::Idle;
                    self.input = string_of(&Vec::new());
                },
                Key::Backspace => {
                    let mut v = chars_of(self.input.as_str());
                    if v.len() > 0 {
                        v.pop();
                    }
                    self.input = string_of(&v);
                    self.detect = SourcesDetectState::Idle;
                },
                Key::Char { c, ctrl: _ } => {
                    let mut v = chars_of(self.input.as_str());
                    v.push(c);
                    self.input = string_of(&v);
                    self.detect = SourcesDetectState::Idle;
                },
                Key::Enter => {
                    let mut action = PopupAction::Nothing;
                    let mut start_detect = false;
                    let done = match &self.detect {
                        SourcesDetectState::Idle => {
                            if self.input.as_str().unicode_len() > 0 {
                                action = PopupAction::Detect(self.input.clone());
                                start_detect = true;
                            }
                            false
                        },
                        SourcesDetectState::Detecting => false,
                        SourcesDetectState::Result(res) => {
                            match res {
                                DiscoverResult::ArxivCategory(code) => {
                                    if !contains_string(&sources.arxiv_categories, code.as_str()) {
                                        let ghost before = views(sources.arxiv_categories@);
                                        sources.arxiv_categories.push(code.clone());
                                        assert(views(sources.arxiv_categories@) =~= before.push(code@));
                                        action = PopupAction::Changed { refresh: true };
                                    }
                                },
                                DiscoverResult::RssFeed { url, name } => {
                                    if !feed_listed(&sources.custom_feeds, url.as_str()) {
                                        let feed_type = to_owned_string("rss");
                                        proof { reveal_strlit("rss"); }
                                        let ghost before = sources.custom_feeds@;
                                        sources.custom_feeds.push(
                                            CustomFeed { url: url.clone(), name: name.clone(), feed_type },
                                        );
                                        assert(sources.custom_feeds@.take(before.len() as int) =~= before);
                                        action = PopupAction::Changed { refresh: true };
                                    }
                                },
                                _ => {},
                            }
                            true
                        },
                    };
                    if done {
                        self.input = string_of(&Vec::new());
                        self.detect = SourcesDetectState::Idle;
                        self.input_active = false;
                    } else if start_detect {
                        self.detect = SourcesDetectState::Detecting;
                    }
                    return action;
                },
                _ => {},
            }
            return PopupAction::Nothing;
        }
        let cats = sources_popup_arxiv_cats(sources);
        let ncat = cats.len();
        let nsrc = predefined_sources().len();
        let nfeeds = sources.custom_feeds.len();
        let c = self.cursor;
        match key {
            Key::Esc => {
                self.cursor = 0;
                self.input = string_of(&Vec::new());
                self.detect = SourcesDetectState::Idle;
                PopupAction::Close
            },
            Key::Down => {
                self.cursor = Self::cursor_down(c, ncat, nsrc, nfeeds);
                PopupAction::Nothing
            },
            Key::Up => {
                self.cursor = if c > 0 { c - 1 } else { 0 };
                PopupAction::Nothing
            },
            Key::Enter => {
                if c == 0 {
                    self.input_active = true;
                }
                PopupAction::Nothing
            },
            Key::Char { c: ch, ctrl: _ } => {
                if ch == 'q' {
                    self.cursor = 0;
                    self.input = string_of(&Vec::new());
                    self.detect = SourcesDetectState::Idle;
                    PopupAction::Close
                } else if ch == 'j' {
                    self.cursor = Self::cursor_down(c, ncat, nsrc, nfeeds);
                    PopupAction::Nothing
                } else if ch == 'k' {
                    self.cursor = if c > 0 { c - 1 } else { 0 };
                    PopupAction::Nothing
                } else if ch == '/' {
                    if c == 0 {
                        self.input_active = true;
                    }
                    PopupAction::Nothing
                } else if ch == ' ' {
                    if c == 0 {
                        self.input_active = true;
                        PopupAction::Nothing
                    } else if c <= ncat {
                        let code = &cats[c - 1].0;
                        if contains_string(&sources.arxiv_categories, code.as_str()) {
                            let ghost before = views(sources.arxiv_categories@);
                            let ghost k = code@;
                            let cs = code.as_str();
                            remove_all(&mut sources.arxiv_categories, cs);
                            proof {
                                assert((|x: Seq<char>| x != cs@) =~= (|x: Seq<char>| x != k));
                                assert(views(sources.arxiv_categories@) == before.filter(|x: Seq<char>| x != k));
                            }
                        } else {
                            let ghost before = views(sources.arxiv_categories@);
                            sources.arxiv_categories.push(code.clone());
                            assert(views(sources.arxiv_categories@) =~= before.push(code@));
                        }
                        PopupAction::Changed { refresh: true }
                    } else if c - ncat <= nsrc {
                        let names = predefined_sources();
                        let name = names[c - ncat - 1];
                        let cur = sources.is_enabled(name);
                        sources.set_enabled(name, !cur);
                        PopupAction::Changed { refresh: true }
                    } else {
                        PopupAction::Nothing
                    }
                } else if ch == 'd' {
                    if c > ncat + nsrc && c - (ncat + nsrc) <= nfeeds {
                        let idx = c - 1 - ncat - nsrc;
                        sources.custom_feeds.remove(idx);
                        self.cursor = c - 1;
                        PopupAction::Changed { refresh: false }
                    } else {
                        PopupAction::Nothing
                    }
                } else {
                    PopupAction::Nothing
                }
            },
            _ => PopupAction::Nothing,
        }
    }

    /// One row down, staying on the last row.
    fn cursor_down(c: usize, ncat: usize, nsrc: usize, nfeeds: usize) -> (r: usize)
        requires
            1 + ncat + nsrc + nfeeds <= usize::MAX,
        ensures
            r == (if c + 1 < 1 + ncat + nsrc + nfeeds { c + 1 } else { ncat + nsrc + nfeeds }),
    {
        let last = ncat + nsrc + nfeeds;
        if c < last {
            c + 1
        } else {
            last
        }
    }
}

/// The row of the popup's list that the cursor's entry stands on: the URL
/// input, then the arXiv categories, the built-in sources and the custom
/// feeds, each group under a two-row heading.
pub open spec fn spec_selected_line(cursor: usize, cats: usize, sources: usize) -> int {
    if cursor == 0 {
        2
    } else if cursor <= cats {
        5 + cursor
    } else if cursor <= cats + sources {
        8 + cursor
    } else {
        11 + cursor
    }
}

/// How far the popup's list scrolls so that the cursor's row stays visible:
/// not at all while the row is above the last two rows of the viewport.
pub open spec fn spec_popup_scroll(cursor: usize, cats: usize, sources: usize, viewport_rows: usize) -> int {
    let line = spec_selected_line(cursor, cats, sources);
    let near_bottom: int = if viewport_rows >= 2 { viewport_rows - 2 } else { 0 };
    let keep: int = if viewport_rows >= 3 { viewport_rows - 3 } else { 0 };
    if line >= near_bottom {
        if line >= keep { line - keep } else { 0 }
    } else {
        0
    }
}

/// The scroll of the sources popup's list for the cursor at `cursor`, with
/// `cats_count` categories and `sources_count` built-in sources listed.
pub fn sources_popup_scroll(cursor: usize, cats_count: usize, sources_count: usize, viewport_rows: usize) -> (r: usize)
    requires
        1 <= cursor <= cats_count ==> cursor + 5 <= usize::MAX,
        cursor > cats_count ==> cats_count + sources_count <= usize::MAX,
        cats_count < cursor <= cats_count + sources_count ==> cursor + 8 <= usize::MAX,
        cursor > cats_count + sources_count ==> cats_count + sources_count + 12 <= usize::MAX && cursor + 11 <= usize::MAX,
    ensures
        r == spec_popup_scroll(cursor, cats_count, sources_count, viewport_rows),
{
    let selected_line = if cursor == 0 {
        2
    } else if cursor <= cats_count {
        6 + cursor.saturating_sub(1)
    } else if cursor <= cats_count + sources_count {
        9 + cats_count + cursor.saturating_sub(1 + cats_count)
    } else {
        12 + cats_count + sources_count + cursor.saturating_sub(1 + cats_count + sources_count)
    };
    if selected_line >= viewport_rows.saturating_sub(2) {
        selected_line.saturating_sub(viewport_rows.saturating_sub(3))
    } else {
        0
    }
}

/// The checkbox rows of the popup below the input field, in cursor order
/// (row `k` at cursor position `k + 1`): each category with whether it is
/// followed, each built-in source with whether it is on, and each custom
/// feed (always on), by name.
pub open spec fn spec_popup_checks(s: SourcesConfig) -> Seq<(Seq<char>, bool)> {
    let user = views(s.arxiv_categories@);
    popup_cats(user).map_values(|c: (Seq<char>, Seq<char>)| (c.0, user.contains(c.0))) + spec_predefined_sources().map_values(
        |n: Seq<char>| (n, s.spec_enabled(n)),
    ) + s.custom_feeds@.map_values(|f: CustomFeed| (f.name@, true))
}

pub open spec fn checks_view(r: Seq<(String, bool)>) -> Seq<(Seq<char>, bool)> {
    r.map_values(|p: (String, bool)| (p.0@, p.1))
}

/// Lists the popup's checkbox rows: name and whether it is checked.
pub fn sources_popup_rows(s: &SourcesConfig) -> (r: Vec<(String, bool)>)
    ensures
        checks_view(r@) == spec_popup_checks(*s),
{
    let ghost target = spec_popup_checks(*s);
    let ghost user = views(s.arxiv_categories@);
    let cats = sources_popup_arxiv_cats(s);
    let ghost pc = popup_cats(user);
    let mut r: Vec<(String, bool)> = Vec::new();
    let mut i: usize = 0;
    while i < cats.len()
        invariant
            0 <= i <= cats@.len(),
            user == views(s.arxiv_categories@),
            pc == popup_cats(user),
            target == spec_popup_checks(*s),
            cats@.len() == pc.len(),
            forall|k: int| 0 <= k < cats@.len() ==> (#[trigger] cats@[k]).0@ == pc[k].0,
            r@.len() == i,
            forall|k: int| 0 <= k < i ==> (#[trigger] checks_view(r@)[k]) == target[k],
        decreases cats.len() - i,
    {
        let on = contains_string(&s.arxiv_categories, cats[i].0.as_str());
        let ghost before = r@;
        r.push((cats[i].0.clone(), on));
        assert(checks_view(r@)[i as int] == target[i as int]);
        assert forall|k: int| 0 <= k < i + 1 implies (#[trigger] checks_view(r@)[k]) == target[k] by {
            if k < i {
                assert(r@[k] == before[k]);
                assert(checks_view(before)[k] == target[k]);
            }
        }
        i += 1;
    }
    let names = predefined_sources();
    let n0 = r.len();
    let mut j: usize = 0;
    while j < names.len()
        invariant
            0 <= j <= names@.len(),
            n0 == pc.len(),
            pc == popup_cats(views(s.arxiv_categories@)),
            target == spec_popup_checks(*s),
            names@.len() == spec_predefined_sources().len(),
            forall|k: int| 0 <= k < names@.len() ==> (#[trigger] names@[k])@ == spec_predefined_sources()[k],
            r@.len() == n0 + j,
            forall|k: int| 0 <= k < n0 + j ==> (#[trigger] checks_view(r@)[k]) == target[k],
        decreases names.len() - j,
    {
        let on = s.is_enabled(names[j]);
        let ghost before = r@;
        r.push((to_owned_string(names[j]), on));
        assert(checks_view(r@)[n0 + j] == target[n0 + j]);
        assert forall|k: int| 0 <= k < n0 + j + 1 implies (#[trigger] checks_view(r@)[k]) == target[k] by {
            if k < n0 + j {
                assert(r@[k] == before[k]);
                assert(checks_view(before)[k] == target[k]);
            }
        }
        j += 1;
    }
    let n1 = r.len();
    let mut k2: usize = 0;
    while k2 < s.custom_feeds.len()
        invariant
            0 <= k2 <= s.custom_feeds@.len(),
            n1 == pc.len() + spec_predefined_sources().len(),
            pc == popup_cats(views(s.arxiv_categories@)),
            target == spec_popup_checks(*s),
            r@.len() == n1 + k2,
            forall|k: int| 0 <= k < n1 + k2 ==> (#[trigger] checks_view(r@)[k]) == target[k],
        decreases s.custom_feeds.len() - k2,
    {
        let ghost before = r@;
        r.push((s.custom_feeds[k2].name.clone(), true));
        assert(checks_view(r@)[n1 + k2] == target[n1 + k2]);
        assert forall|k: int| 0 <= k < n1 + k2 + 1 implies (#[trigger] checks_view(r@)[k]) == target[k] by {
            if k < n1 + k2 {
                assert(r@[k] == before[k]);
                assert(checks_view(before)[k] == target[k]);
            }
        }
        k2 += 1;
    }
    assert(checks_view(r@) =~= target);
    r
}

} // verus!
