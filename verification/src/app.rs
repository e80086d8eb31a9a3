//! Application state types and the decisions made on them.
use vstd::prelude::*;

use crate::github::TreeNode;
use crate::models::{ContentType, FeedItem, SignalLevel, SourcePlatform, WorkflowState};
use crate::sets::{KeySet, SetKey, StrSet};
use crate::strs::{
    chars_of, ends_with, find_char_at, find_char_from, has_prefix, has_suffix, lemma_find_char_from_facts,
    lemma_rfind_char_facts, push_all, push_str, rfind_char, rfind_char_in, starts_with, str_eq, string_of, sub_vec,
    to_ascii_lower, ascii_lower,
};

verus! {

broadcast use vstd::string::group_string_axioms;

impl SetKey for SignalLevel {
    fn same(&self, other: &Self) -> (r: bool) {
        *self == *other
    }
}

impl SetKey for ContentType {
    fn same(&self, other: &Self) -> (r: bool) {
        *self == *other
    }
}

impl SetKey for WorkflowState {
    fn same(&self, other: &Self) -> (r: bool) {
        *self == *other
    }
}

// ---------------------------------------------------------------------------
// Filter state
// ---------------------------------------------------------------------------

/// The feed filters: an empty set lets everything through.
pub struct FilterState {
    pub sources: StrSet,
    pub signals: KeySet<SignalLevel>,
    pub content_types: KeySet<ContentType>,
    pub workflow_states: KeySet<WorkflowState>,
    pub tags: StrSet,
}

/// The source name a filter matches an item by: its `source_name`, or the
/// platform's short label when that is empty.
pub open spec fn filter_source_name(item: FeedItem) -> Seq<char> {
    if item.source_name@.len() == 0 {
        item.source_platform.spec_short_label()
    } else {
        item.source_name@
    }
}

impl FilterState {
    pub open spec fn spec_is_empty(&self) -> bool {
        &&& self.sources.spec_set().is_empty()
        &&& self.signals.spec_set().is_empty()
        &&& self.content_types.spec_set().is_empty()
        &&& self.workflow_states.spec_set().is_empty()
        &&& self.tags.spec_set().is_empty()
    }

    /// Whether the source, signal, content type and workflow filters all let
    /// `item` through (tags are filtered elsewhere).
    pub open spec fn spec_matches(&self, item: FeedItem) -> bool {
        &&& (self.sources.spec_set().is_empty() || self.sources.spec_set().contains(filter_source_name(item)))
        &&& (self.signals.spec_set().is_empty() || self.signals.spec_set().contains(item.signal))
        &&& (self.content_types.spec_set().is_empty() || self.content_types.spec_set().contains(item.content_type))
        &&& (self.workflow_states.spec_set().is_empty() || self.workflow_states.spec_set().contains(item.workflow_state))
    }

    pub open spec fn spec_active_count(&self) -> nat {
        self.sources.spec_set().len() + self.signals.spec_set().len() + self.content_types.spec_set().len()
            + self.workflow_states.spec_set().len() + self.tags.spec_set().len()
    }

    pub fn new() -> (r: Self)
        ensures
            r.spec_is_empty(),
            r.spec_active_count() == 0,
    {
        FilterState {
            sources: StrSet::new(),
            signals: KeySet::new(),
            content_types: KeySet::new(),
            workflow_states: KeySet::new(),
            tags: StrSet::new(),
        }
    }

    pub fn is_empty(&self) -> (r: bool)
        ensures
            r == self.spec_is_empty(),
    {
        self.sources.is_empty() && self.signals.is_empty() && self.content_types.is_empty()
            && self.workflow_states.is_empty() && self.tags.is_empty()
    }

    pub fn matches(&self, item: &FeedItem) -> (r: bool)
        ensures
            r == self.spec_matches(*item),
    {
        let sources_ok = self.sources.is_empty() || {
            if item.source_name.as_str().is_empty() {
                self.sources.contains(item.source_platform.short_label())
            } else {
                self.sources.contains(item.source_name.as_str())
            }
        };
        sources_ok && (self.signals.is_empty() || self.signals.contains(&item.signal))
            && (self.content_types.is_empty() || self.content_types.contains(&item.content_type))
            && (self.workflow_states.is_empty() || self.workflow_states.contains(&item.workflow_state))
    }

    /// Total number of active filter values.
    pub fn active_count(&self) -> (n: usize)
        requires
            self.spec_active_count() <= usize::MAX,
        ensures
            n == self.spec_active_count(),
    {
        self.sources.len() + self.signals.len() + self.content_types.len() + self.workflow_states.len()
            + self.tags.len()
    }
}

/// An item passes an empty filter.
pub proof fn law_empty_filter_matches_all(f: FilterState, item: FeedItem)
    requires
        f.spec_is_empty(),
    ensures
        f.spec_matches(item),
{
}

/// Each of the four filters, when it names anything, keeps out the items
/// whose value it does not name; and an item whose values are all named by
/// the non-empty filters passes.
pub proof fn law_filter_excludes_unlisted(f: FilterState, item: FeedItem)
    ensures
        !f.content_types.spec_set().is_empty() && !f.content_types.spec_set().contains(item.content_type)
            ==> !f.spec_matches(item),
        !f.sources.spec_set().is_empty() && !f.sources.spec_set().contains(filter_source_name(item))
            ==> !f.spec_matches(item),
        !f.signals.spec_set().is_empty() && !f.signals.spec_set().contains(item.signal) ==> !f.spec_matches(item),
        !f.workflow_states.spec_set().is_empty() && !f.workflow_states.spec_set().contains(item.workflow_state)
            ==> !f.spec_matches(item),
        (f.content_types.spec_set().is_empty() || f.content_types.spec_set().contains(item.content_type))
            && (f.sources.spec_set().is_empty() || f.sources.spec_set().contains(filter_source_name(item)))
            && (f.signals.spec_set().is_empty() || f.signals.spec_set().contains(item.signal))
            && (f.workflow_states.spec_set().is_empty() || f.workflow_states.spec_set().contains(item.workflow_state))
            ==> f.spec_matches(item),
{
}

/// Removes `value` if present, inserts it otherwise.
pub fn toggle_set<T: SetKey>(set: &mut KeySet<T>, value: T)
    ensures
        final(set).spec_set() == (if old(set).spec_set().contains(value) {
            old(set).spec_set().remove(value)
        } else {
            old(set).spec_set().insert(value)
        }),
{
    set.toggle(value);
}

// ---------------------------------------------------------------------------
// Enumerations of UI state
// ---------------------------------------------------------------------------

#[derive(Debug, Clone, Copy, PartialEq, Eq, Default, Structural)]
pub enum QuitPopupKind {
    #[default]
    QuitApp,
    QuitWithProgress,
    QuitWithChat,
    LeaveReader,
}

#[derive(Debug, Clone, Copy, PartialEq, Eq, Structural)]
pub enum RepoPane {
    Tree,
    File,
}

#[derive(Clone, Copy, Debug, PartialEq, Eq, Structural)]
pub enum RepoFileKind {
    Markdown,
    Code,
    PlainText,
}

/// Result from a background repo fetch operation.
pub enum RepoFetchResult {
    /// Initial repo open: default branch + root tree.
    RepoOpened { branch: String, tree: Result<Vec<TreeNode>, String> },
    /// Dir navigation (forward or back): path + tree.
    DirLoaded { path: String, result: Result<Vec<TreeNode>, String> },
    /// File view: path, filename, raw content.
    FileLoaded { path: String, name: String, result: Result<String, String> },
}

/// Result from the URL discovery pipeline.
#[derive(Clone, Debug)]
pub enum DiscoverResult {
    ArxivCategory(String),
    HuggingFaceAlreadyEnabled,
    RssFeed { url: String, name: String },
    Failed(String),
}

/// State machine for the "Add source" input in the sources popup.
pub enum SourcesDetectState {
    Idle,
    Detecting,
    Result(DiscoverResult),
}

/// Identifies a pane in the pane registry.
#[derive(PartialEq, Eq, Clone, Copy, Debug, Structural)]
pub enum PaneId {
    Feed,
    Reader,
    Notes,
    Details,
    Chat,
    SecondaryReader,
    SecondaryNotes,
}

pub const PANE_COUNT: usize = 7;

impl PaneId {
    pub open spec fn spec_index(self) -> int {
        match self {
            PaneId::Feed => 0,
            PaneId::Reader => 1,
            PaneId::Notes => 2,
            PaneId::Details => 3,
            PaneId::Chat => 4,
            PaneId::SecondaryReader => 5,
            PaneId::SecondaryNotes => 6,
        }
    }

    /// Slot of this pane in the pane registry (0..PANE_COUNT).
    pub fn index(self) -> (i: usize)
        ensures
            i == self.spec_index(),
            i < PANE_COUNT,
    {
        match self {
            PaneId::Feed => 0,
            PaneId::Reader => 1,
            PaneId::Notes => 2,
            PaneId::Details => 3,
            PaneId::Chat => 4,
            PaneId::SecondaryReader => 5,
            PaneId::SecondaryNotes => 6,
        }
    }

    /// Every pane but the details pane can take focus.
    pub fn is_focusable(self) -> (r: bool)
        ensures
            r == (self != PaneId::Details),
    {
        !matches!(self, PaneId::Details)
    }
}

/// Distinct panes have distinct registry slots.
pub proof fn law_pane_index_injective(a: PaneId, b: PaneId)
    ensures
        a.spec_index() == b.spec_index() ==> a == b,
        0 <= a.spec_index() < PANE_COUNT,
{
}

/// Which reader pane has focus in dual-reader mode.
#[derive(Clone, Copy, PartialEq, Eq, Debug, Structural)]
pub enum FocusedReader {
    Primary,
    Secondary,
}

/// One note document open in the notes pane.
#[derive(Clone, Debug)]
pub struct NotesTab {
    pub note_id: String,
    pub title: String,
}

#[derive(Clone, Copy, PartialEq, Eq, Debug, Structural)]
pub enum CustomThemeEditorMode {
    Palette,
    Name,
    Hex,
    DeleteConfirm,
}

/// Direction for spatial pane navigation.
#[derive(Clone, Copy, Debug, PartialEq, Eq, Structural)]
pub enum NavDirection {
    Left,
    Right,
    Up,
    Down,
}

#[derive(PartialEq, Eq, Clone, Copy, Debug, Structural)]
pub enum AppView {
    Feed,
    Settings,
    Sources,
    RepoViewer,
}

#[derive(PartialEq, Eq, Clone, Copy, Debug, Structural)]
pub enum FeedTab {
    Inbox,
    Library,
    Discoveries,
    History,
}

/// What action should be taken when Enter is pressed in the repo tree pane.
#[derive(Clone, Debug)]
pub enum RepoEnterTarget {
    Dir(String),
    /// path, filename
    File(String, String),
}

// ---------------------------------------------------------------------------
// Downloads
// ---------------------------------------------------------------------------

/// The `Debug` rendering of a string (quoted, with escapes).
pub uninterp spec fn debug_str(s: Seq<char>) -> Seq<char>;

/// Calls `<str as Debug>::fmt` through `format!("{:?}")`; the escaping rules
/// are std's and are not spelled out here.
#[verifier::external_body]
pub(crate) fn debug_quoted(s: &str) -> (r: String)
    ensures
        r@ == debug_str(s@),
{
    format!("{:?}", s)
}

/// What `validate_download_name` decides for a file name, as a Unix path:
/// an absolute path is refused; otherwise the name must be one plain path
/// component (no `/`, and not empty, `.` or `..`).
pub open spec fn spec_download_name_check(name: Seq<char>) -> Result<(), Seq<char>> {
    if name.len() > 0 && name[0] == '/' {
        Err("absolute path not allowed: "@ + debug_str(name))
    } else if name.contains('/') || name.len() == 0 || name == "."@ || name == ".."@ {
        Err("path separator or traversal segment: "@ + debug_str(name))
    } else {
        Ok(())
    }
}

/// Reject a filename that would write outside the download directory:
/// absolute paths and anything that is not a single plain path component.
pub fn validate_download_name(name: &str) -> (r: Result<(), String>)
    ensures
        match (r, spec_download_name_check(name@)) {
            (Ok(()), Ok(())) => true,
            (Err(e), Err(m)) => e@ == m,
            _ => false,
        },
{
    let v = chars_of(name);
    if v.len() > 0 && v[0] == '/' {
        let mut m = chars_of("absolute path not allowed: ");
        let q = debug_quoted(name);
        push_str(&mut m, q.as_str());
        return Err(string_of(&m));
    }
    let slash = find_char_at(&v, '/', 0);
    proof {
        lemma_find_char_from_facts(v@, '/', 0);
        if v@.contains('/') {
            let k = choose|k: int| 0 <= k < v@.len() && v@[k] == '/';
            assert(find_char_from(v@, '/', 0) is Some);
        }
    }
    if slash.is_some() || v.len() == 0 || str_eq(name, ".") || str_eq(name, "..") {
        let mut m = chars_of("path separator or traversal segment: ");
        let q = debug_quoted(name);
        push_str(&mut m, q.as_str());
        return Err(string_of(&m));
    }
    Ok(())
}

// ---------------------------------------------------------------------------
// Repository file kinds
// ---------------------------------------------------------------------------

/// The last component of a Unix path, as `Path::file_name` gives it:
/// trailing `/` and `.` components are passed over, and a path that ends in
/// `..`, or has no component at all, has none.
pub open spec fn file_name(s: Seq<char>) -> Option<Seq<char>>
    decreases s.len(),
{
    if s.len() == 0 {
        None
    } else if s.last() == '/' {
        file_name(s.drop_last())
    } else {
        let start: int = match rfind_char(s, '/') {
            Some(k) => k + 1,
            None => 0,
        };
        let seg = s.subrange(start, s.len() as int);
        if seg == seq!['.'] {
            if 0 <= start < s.len() {
                file_name(s.subrange(0, start))
            } else {
                None
            }
        } else if seg == seq!['.', '.'] {
            None
        } else {
            Some(seg)
        }
    }
}

/// The extension of a file name: what follows its last `.`, empty when
/// there is no `.` or the only one starts the name.
pub open spec fn name_extension(n: Seq<char>) -> Seq<char> {
    match rfind_char(n, '.') {
        Some(k) => if k == 0 {
            Seq::empty()
        } else {
            n.subrange(k + 1, n.len() as int)
        },
        None => Seq::empty(),
    }
}

/// What `Path::extension` gives for a Unix path, as text (empty when there
/// is none).
pub open spec fn path_extension(name: Seq<char>) -> Seq<char> {
    match file_name(name) {
        Some(n) => name_extension(n),
        None => Seq::empty(),
    }
}

/// The extension of a path's file name, as `Path::extension` finds it on
/// Unix (empty when there is none).
pub fn extension_of(name: &str) -> (r: String)
    ensures
        r@ == path_extension(name@),
{
    let v = chars_of(name);
    let none: Vec<char> = Vec::new();
    let mut end: usize = v.len();
    assert(v@.take(end as int) =~= name@);
    loop
        invariant
            end <= v@.len(),
            v@ == name@,
            file_name(v@.take(end as int)) == file_name(name@),
            none@.len() == 0,
        decreases end,
    {
        let ghost s = v@.take(end as int);
        if end == 0 {
            assert(none@ =~= path_extension(name@));
            return string_of(&none);
        }
        if v[end - 1] == '/' {
            assert(s.drop_last() =~= v@.take(end - 1));
            end -= 1;
        } else {
            let head = sub_vec(&v, 0, end);
            assert(head@ =~= s);
            proof {
                lemma_rfind_char_facts(s, '/');
            }
            let start: usize = match rfind_char_in(&head, '/') {
                Some(k) => k + 1,
                None => 0,
            };
            let seg = sub_vec(&v, start, end);
            assert(seg@ =~= s.subrange(start as int, s.len() as int));
            if seg.len() == 1 && seg[0] == '.' {
                assert(seg@ =~= seq!['.']);
                assert(s.subrange(0, start as int) =~= v@.take(start as int));
                end = start;
            } else if seg.len() == 2 && seg[0] == '.' && seg[1] == '.' {
                assert(seg@ =~= seq!['.', '.']);
                assert(none@ =~= path_extension(name@));
                return string_of(&none);
            } else {
                assert(seg@ != seq!['.']);
                assert(seg@ != seq!['.', '.']);
                assert(file_name(name@) == Some(seg@));
                proof {
                    lemma_rfind_char_facts(seg@, '.');
                }
                return match rfind_char_in(&seg, '.') {
                    Some(k) => if k == 0 {
                        string_of(&none)
                    } else {
                        let e = sub_vec(&seg, k + 1, seg.len());
                        string_of(&e)
                    },
                    None => string_of(&none),
                };
            }
        }
    }
}

/// The name of the syntax that syntect's default syntax set associates with
/// a file extension, if any.
pub uninterp spec fn syntax_for_extension(ext: Seq<char>) -> Option<Seq<char>>;

/// Calls `syntect::parsing::SyntaxSet::find_syntax_by_extension` on the
/// default syntax set and returns the syntax's name.  Which extensions are
/// known is syntect's data and is not spelled out here.
#[verifier::external_body]
pub(crate) fn syntax_name_for_extension(ext: &str) -> (r: Option<String>)
    ensures
        match r {
            Some(n) => syntax_for_extension(ext@) == Some(n@),
            None => syntax_for_extension(ext@) is None,
        },
{
    syntect::parsing::SyntaxSet::load_defaults_newlines().find_syntax_by_extension(ext).map(|s| s.name.clone())
}

/// Whether the repo viewer highlights a file: syntect knows a syntax for its
/// extension other than plain text.
pub open spec fn highlighted(name: Seq<char>) -> bool {
    match syntax_for_extension(path_extension(name)) {
        Some(n) => n != "Plain Text"@,
        None => false,
    }
}

pub open spec fn spec_repo_file_kind(name: Seq<char>) -> RepoFileKind {
    let lower = name.map_values(|c: char| ascii_lower(c));
    if ends_with(lower, ".md"@) || ends_with(lower, ".markdown"@) || lower == "readme"@ || starts_with(lower, "readme."@) {
        RepoFileKind::Markdown
    } else if highlighted(name) {
        RepoFileKind::Code
    } else {
        RepoFileKind::PlainText
    }
}

/// How the repo viewer shows a file: Markdown by name, code when a syntax
/// highlighter exists for it, plain text otherwise.
pub fn classify_repo_file_kind(name: &str, content: &str) -> (r: RepoFileKind)
    ensures
        r == spec_repo_file_kind(name@),
{
    let v = chars_of(name);
    let mut lower: Vec<char> = Vec::new();
    let mut i: usize = 0;
    while i < v.len()
        invariant
            0 <= i <= v@.len(),
            lower@ == v@.take(i as int).map_values(|c: char| ascii_lower(c)),
        decreases v.len() - i,
    {
        let c = to_ascii_lower(v[i]);
        lower.push(c);
        assert(v@.take(i + 1).map_values(|c: char| ascii_lower(c)) =~= v@.take(i as int).map_values(|c: char| ascii_lower(c)).push(c));
        i += 1;
    }
    assert(v@.take(v@.len() as int) =~= v@);
    let md = chars_of(".md");
    let markdown = chars_of(".markdown");
    let readme = chars_of("readme");
    let readme_dot = chars_of("readme.");
    let is_readme = lower.len() == readme.len() && has_prefix(&lower, &readme);
    proof {
        if lower@.len() == readme@.len() {
            assert(lower@.subrange(0, readme@.len() as int) =~= lower@);
        }
    }
    if has_suffix(&lower, &md) || has_suffix(&lower, &markdown) || is_readme || has_prefix(&lower, &readme_dot) {
        return RepoFileKind::Markdown;
    }
    if crate::syntax::highlight_file(content, name).is_some() {
        RepoFileKind::Code
    } else {
        RepoFileKind::PlainText
    }
}

} // verus!
