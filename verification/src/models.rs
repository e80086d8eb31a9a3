//! Feed items and their classification.
use vstd::prelude::*;

use crate::sanitize::{sanitize_terminal_text, sanitized};
use crate::strs::{
    chars_of, contains_chars, contains_seq, find, find_at, is_alnum, is_ascii_alnum, lemma_find_from_facts,
    lowercase, push_str, str_eq, string_of, to_lowercase, to_owned_string,
};

verus! {

broadcast use vstd::string::group_string_axioms;

/// The character sequences of a list of strings.
pub open spec fn views(v: Seq<String>) -> Seq<Seq<char>> {
    v.map_values(|s: String| s@)
}

/// Whether one of the strings equals `s`.
pub(crate) fn contains_string(v: &Vec<String>, s: &str) -> (r: bool)
    ensures
        r == views(v@).contains(s@),
{
    let mut j: usize = 0;
    while j < v.len()
        invariant
            0 <= j <= v@.len(),
            forall|k: int| 0 <= k < j ==> v@[k]@ != s@,
        decreases v.len() - j,
    {
        if str_eq(v[j].as_str(), s) {
            assert(views(v@)[j as int] == s@);
            return true;
        }
        j += 1;
    }
    proof {
        if views(v@).contains(s@) {
            let k = choose|k: int| 0 <= k < views(v@).len() && views(v@)[k] == s@;
            assert(v@[k]@ == s@);
        }
    }
    false
}

/// Where an item was found.
#[derive(Debug, Clone, Copy, PartialEq, Eq, Hash, Structural)]
pub enum SourcePlatform {
    ArXiv,
    Twitter,
    Blog,
    Newsletter,
    HuggingFace,
    Rss,
    OpenReview,
    Core,
}

impl SourcePlatform {
    pub open spec fn spec_short_label(self) -> Seq<char> {
        match self {
            SourcePlatform::ArXiv => "arXiv"@,
            SourcePlatform::Twitter => "twit"@,
            SourcePlatform::Blog => "blog"@,
            SourcePlatform::Newsletter => "news"@,
            SourcePlatform::HuggingFace => "hf"@,
            SourcePlatform::Rss => "rss"@,
            SourcePlatform::OpenReview => "OR"@,
            SourcePlatform::Core => "CORE"@,
        }
    }

    pub fn short_label(&self) -> (r: &'static str)
        ensures
            r@ == self.spec_short_label(),
    {
        match self {
            SourcePlatform::ArXiv => "arXiv",
            SourcePlatform::Twitter => "twit",
            SourcePlatform::Blog => "blog",
            SourcePlatform::Newsletter => "news",
            SourcePlatform::HuggingFace => "hf",
            SourcePlatform::Rss => "rss",
            SourcePlatform::OpenReview => "OR",
            SourcePlatform::Core => "CORE",
        }
    }
}

/// What kind of document an item is.
#[derive(Debug, Clone, Copy, PartialEq, Eq, Hash, Structural)]
pub enum ContentType {
    Paper,
    Thread,
    Article,
    Repo,
    Digest,
}

impl ContentType {
    pub open spec fn spec_short_label(self) -> Seq<char> {
        match self {
            ContentType::Paper => "paper"@,
            ContentType::Thread => "thread"@,
            ContentType::Article => "article"@,
            ContentType::Repo => "repo"@,
            ContentType::Digest => "digest"@,
        }
    }

    pub fn short_label(&self) -> (r: &'static str)
        ensures
            r@ == self.spec_short_label(),
    {
        match self {
            ContentType::Paper => "paper",
            ContentType::Thread => "thread",
            ContentType::Article => "article",
            ContentType::Repo => "repo",
            ContentType::Digest => "digest",
        }
    }
}

/// How strong a source's signal is.
#[derive(Debug, Clone, Copy, PartialEq, Eq, Hash, Structural)]
pub enum SignalLevel {
    Primary,
    Secondary,
    Tertiary,
}

impl SignalLevel {
    pub open spec fn spec_indicator(self) -> Seq<char> {
        match self {
            SignalLevel::Primary => "*"@,
            SignalLevel::Secondary => "·"@,
            SignalLevel::Tertiary => " "@,
        }
    }

    pub fn indicator(&self) -> (r: &'static str)
        ensures
            r@ == self.spec_indicator(),
    {
        match self {
            SignalLevel::Primary => "*",
            SignalLevel::Secondary => "·",
            SignalLevel::Tertiary => " ",
        }
    }
}

/// Where an item stands in the reading workflow.
#[derive(Debug, Clone, Copy, PartialEq, Eq, Hash, Structural)]
pub enum WorkflowState {
    Inbox,
    Queued,
    DeepRead,
    Archived,
}

impl WorkflowState {
    pub open spec fn spec_short_label(self) -> Seq<char> {
        match self {
            WorkflowState::Inbox => "inbox"@,
            WorkflowState::Queued => "queued"@,
            WorkflowState::DeepRead => "read"@,
            WorkflowState::Archived => "archived"@,
        }
    }

    pub fn short_label(&self) -> (r: &'static str)
        ensures
            r@ == self.spec_short_label(),
    {
        match self {
            WorkflowState::Inbox => "inbox",
            WorkflowState::Queued => "queued",
            WorkflowState::DeepRead => "read",
            WorkflowState::Archived => "archived",
        }
    }

    /// The name under which a state is stored.
    pub open spec fn spec_stored_name(self) -> Seq<char> {
        match self {
            WorkflowState::Inbox => "inbox"@,
            WorkflowState::Queued => "queued"@,
            WorkflowState::DeepRead => "deepread"@,
            WorkflowState::Archived => "archived"@,
        }
    }

    /// The state read back from a stored name; unknown names (legacy
    /// variants such as `"skimmed"`, or anything else) become `Inbox`.
    pub open spec fn spec_from_stored_name(s: Seq<char>) -> WorkflowState {
        if s == "queued"@ {
            WorkflowState::Queued
        } else if s == "deepread"@ {
            WorkflowState::DeepRead
        } else if s == "archived"@ {
            WorkflowState::Archived
        } else {
            WorkflowState::Inbox
        }
    }

    pub fn stored_name(&self) -> (r: &'static str)
        ensures
            r@ == self.spec_stored_name(),
    {
        match self {
            WorkflowState::Inbox => "inbox",
            WorkflowState::Queued => "queued",
            WorkflowState::DeepRead => "deepread",
            WorkflowState::Archived => "archived",
        }
    }

    pub fn from_stored_name(s: &str) -> (r: WorkflowState)
        ensures
            r == WorkflowState::spec_from_stored_name(s@),
    {
        if str_eq(s, "queued") {
            WorkflowState::Queued
        } else if str_eq(s, "deepread") {
            WorkflowState::DeepRead
        } else if str_eq(s, "archived") {
            WorkflowState::Archived
        } else {
            WorkflowState::Inbox
        }
    }
}

/// Reading a stored state back gives the state that was stored.
pub proof fn law_workflow_name_round_trip(w: WorkflowState)
    ensures
        WorkflowState::spec_from_stored_name(w.spec_stored_name()) == w,
{
    reveal_strlit("inbox");
    reveal_strlit("queued");
    reveal_strlit("deepread");
    reveal_strlit("archived");
    assert("inbox"@.len() == 5);
    assert("queued"@.len() == 6);
    assert("deepread"@.len() == 8);
    assert("archived"@.len() == 8);
    assert("archived"@[0] != "deepread"@[0]);
}

/// One leaderboard entry attached to a paper.
#[derive(Debug, Clone)]
pub struct BenchmarkResult {
    pub task: String,
    pub dataset: String,
    pub metric: String,
    pub score: String,
}

/// One paper, post or article shown in the feed.
#[derive(Debug, Clone)]
pub struct FeedItem {
    pub id: String,
    pub title: String,
    pub source_platform: SourcePlatform,
    pub content_type: ContentType,
    pub domain_tags: Vec<String>,
    pub signal: SignalLevel,
    pub published_at: String,
    pub authors: Vec<String>,
    pub summary_short: String,
    pub workflow_state: WorkflowState,
    pub url: String,
    pub upvote_count: u32,
    pub github_repo: Option<String>,
    pub github_owner: Option<String>,
    pub github_repo_name: Option<String>,
    pub benchmark_results: Vec<BenchmarkResult>,
    pub full_content: Option<String>,
    pub source_name: String,
    /// Lower-cased title, kept for the search filter.
    pub title_lower: String,
    /// Lower-cased author names, parallel to `authors`.
    pub authors_lower: Vec<String>,
}

/// The signal level that a platform and an upvote count give.
pub open spec fn spec_signal(p: SourcePlatform, upvotes: u32) -> SignalLevel {
    match p {
        SourcePlatform::ArXiv => SignalLevel::Primary,
        SourcePlatform::HuggingFace => {
            if upvotes >= 10 {
                SignalLevel::Primary
            } else if upvotes >= 1 {
                SignalLevel::Secondary
            } else {
                SignalLevel::Tertiary
            }
        },
        SourcePlatform::Blog | SourcePlatform::Twitter | SourcePlatform::OpenReview => {
            SignalLevel::Secondary
        },
        SourcePlatform::Newsletter | SourcePlatform::Rss | SourcePlatform::Core => {
            SignalLevel::Tertiary
        },
    }
}

pub open spec fn opt_view(o: Option<String>) -> Option<Seq<char>> {
    match o {
        Some(s) => Some(s@),
        None => None,
    }
}

fn sanitize_all(v: &Vec<String>) -> (r: Vec<String>)
    ensures
        views(r@) == views(v@).map_values(|t: Seq<char>| sanitized(t)),
{
    let mut r: Vec<String> = Vec::new();
    let mut i: usize = 0;
    while i < v.len()
        invariant
            0 <= i <= v@.len(),
            r@.len() == i,
            forall|j: int| 0 <= j < i ==> #[trigger] r@[j]@ == sanitized(v@[j]@),
        decreases v.len() - i,
    {
        let s = sanitize_terminal_text(v[i].as_str());
        r.push(s);
        i += 1;
    }
    assert(views(r@) =~= views(v@).map_values(|t: Seq<char>| sanitized(t)));
    r
}

pub(crate) fn lower_all(v: &Vec<String>) -> (r: Vec<String>)
    ensures
        views(r@) == views(v@).map_values(|t: Seq<char>| lowercase(t)),
{
    let mut r: Vec<String> = Vec::new();
    let mut i: usize = 0;
    while i < v.len()
        invariant
            0 <= i <= v@.len(),
            r@.len() == i,
            forall|j: int| 0 <= j < i ==> #[trigger] r@[j]@ == lowercase(v@[j]@),
        decreases v.len() - i,
    {
        let s = to_lowercase(v[i].as_str());
        r.push(s);
        i += 1;
    }
    assert(views(r@) =~= views(v@).map_values(|t: Seq<char>| lowercase(t)));
    r
}

/// The signal table: arXiv papers are primary; Hugging Face papers are
/// primary from ten upvotes, secondary from one, tertiary without any;
/// blogs, Twitter and OpenReview are secondary and newsletters, RSS feeds
/// and CORE tertiary, whatever the upvotes.
pub proof fn law_signal_table(upvotes: u32)
    ensures
        spec_signal(SourcePlatform::ArXiv, upvotes) == SignalLevel::Primary,
        upvotes >= 10 ==> spec_signal(SourcePlatform::HuggingFace, upvotes) == SignalLevel::Primary,
        1 <= upvotes < 10 ==> spec_signal(SourcePlatform::HuggingFace, upvotes) == SignalLevel::Secondary,
        upvotes == 0 ==> spec_signal(SourcePlatform::HuggingFace, upvotes) == SignalLevel::Tertiary,
        spec_signal(SourcePlatform::Blog, upvotes) == SignalLevel::Secondary,
        spec_signal(SourcePlatform::Twitter, upvotes) == SignalLevel::Secondary,
        spec_signal(SourcePlatform::OpenReview, upvotes) == SignalLevel::Secondary,
        spec_signal(SourcePlatform::Newsletter, upvotes) == SignalLevel::Tertiary,
        spec_signal(SourcePlatform::Rss, upvotes) == SignalLevel::Tertiary,
        spec_signal(SourcePlatform::Core, upvotes) == SignalLevel::Tertiary,
{
}

/// More upvotes never lower the signal of an item from the same platform.
pub proof fn law_signal_monotone_in_upvotes(p: SourcePlatform, a: u32, b: u32)
    requires
        a <= b,
    ensures
        spec_signal(p, b) == SignalLevel::Primary || spec_signal(p, a) != SignalLevel::Primary,
        spec_signal(p, a) == SignalLevel::Tertiary || spec_signal(p, b) != SignalLevel::Tertiary,
{
}

impl FeedItem {
    /// Derive the signal level from the source and the upvotes.
    pub fn compute_signal(&self) -> (r: SignalLevel)
        ensures
            r == spec_signal(self.source_platform, self.upvote_count),
    {
        match self.source_platform {
            SourcePlatform::ArXiv => SignalLevel::Primary,
            SourcePlatform::HuggingFace => {
                if self.upvote_count >= 10 {
                    SignalLevel::Primary
                } else if self.upvote_count >= 1 {
                    SignalLevel::Secondary
                } else {
                    SignalLevel::Tertiary
                }
            },
            SourcePlatform::Blog | SourcePlatform::Twitter | SourcePlatform::OpenReview => {
                SignalLevel::Secondary
            },
            SourcePlatform::Newsletter | SourcePlatform::Rss | SourcePlatform::Core => {
                SignalLevel::Tertiary
            },
        }
    }

    /// Strip terminal escape sequences and control characters from every
    /// text field that comes from a network source, then rebuild the
    /// lower-cased search fields.  `id` and `url` are built by the
    /// application and are left as they are.
    pub fn sanitize_in_place(&mut self)
        ensures
            final(self).title@ == sanitized(old(self).title@),
            final(self).summary_short@ == sanitized(old(self).summary_short@),
            final(self).source_name@ == sanitized(old(self).source_name@),
            views(final(self).authors@) == views(old(self).authors@).map_values(
                |t: Seq<char>| sanitized(t),
            ),
            views(final(self).domain_tags@) == views(old(self).domain_tags@).map_values(
                |t: Seq<char>| sanitized(t),
            ),
            opt_view(final(self).full_content) == (match old(self).full_content {
                Some(c) => Some(sanitized(c@)),
                None => None,
            }),
            final(self).title_lower@ == lowercase(final(self).title@),
            views(final(self).authors_lower@) == views(final(self).authors@).map_values(
                |t: Seq<char>| lowercase(t),
            ),
            final(self).id == old(self).id,
            final(self).url == old(self).url,
            final(self).source_platform == old(self).source_platform,
            final(self).content_type == old(self).content_type,
            final(self).signal == old(self).signal,
            final(self).published_at == old(self).published_at,
            final(self).workflow_state == old(self).workflow_state,
            final(self).upvote_count == old(self).upvote_count,
            final(self).github_repo == old(self).github_repo,
            final(self).github_owner == old(self).github_owner,
            final(self).github_repo_name == old(self).github_repo_name,
            final(self).benchmark_results == old(self).benchmark_results,
    {
        self.title = sanitize_terminal_text(self.title.as_str());
        self.summary_short = sanitize_terminal_text(self.summary_short.as_str());
        self.source_name = sanitize_terminal_text(self.source_name.as_str());
        self.authors = sanitize_all(&self.authors);
        self.domain_tags = sanitize_all(&self.domain_tags);
        let content = match &self.full_content {
            Some(c) => Some(sanitize_terminal_text(c.as_str())),
            None => None,
        };
        self.full_content = content;
        self.title_lower = to_lowercase(self.title.as_str());
        self.authors_lower = lower_all(&self.authors);
    }
}

// ---------------------------------------------------------------------------
// arXiv identifiers in URLs
// ---------------------------------------------------------------------------

/// A character that can appear in an arXiv identifier as found in a URL.
pub open spec fn is_id_char(c: char) -> bool {
    is_alnum(c) || c == '.' || c == '-'
}

/// The longest prefix of `s` made of identifier characters.
pub open spec fn id_run(s: Seq<char>) -> Seq<char>
    decreases s.len(),
{
    if s.len() > 0 && is_id_char(s[0]) {
        seq![s[0]] + id_run(s.drop_first())
    } else {
        Seq::empty()
    }
}

/// The identifier that follows the first occurrence of `prefix` in `url`, if
/// that occurrence is followed by at least one identifier character.
pub open spec fn id_after(url: Seq<char>, prefix: Seq<char>) -> Option<Seq<char>> {
    match find(url, prefix) {
        Some(pos) => {
            let id = id_run(url.subrange(pos + prefix.len(), url.len() as int));
            if id.len() > 0 {
                Some(id)
            } else {
                None
            }
        },
        None => None,
    }
}

/// The arXiv identifier in a URL of one of the known shapes
/// (`arxiv.org/abs/`, `arxiv.org/pdf/`, `huggingface.co/papers/`), tried in
/// that order.
pub open spec fn spec_arxiv_id_from_url(url: Seq<char>) -> Option<Seq<char>> {
    match id_after(url, "arxiv.org/abs/"@) {
        Some(id) => Some(id),
        None => match id_after(url, "arxiv.org/pdf/"@) {
            Some(id) => Some(id),
            None => id_after(url, "huggingface.co/papers/"@),
        },
    }
}

proof fn lemma_id_run_step(s: Seq<char>, j: int)
    requires
        0 <= j < s.len(),
        is_id_char(s[j]),
    ensures
        id_run(s.subrange(j, s.len() as int)) == seq![s[j]] + id_run(
            s.subrange(j + 1, s.len() as int),
        ),
{
    assert(s.subrange(j, s.len() as int).drop_first() =~= s.subrange(j + 1, s.len() as int));
}

/// Length of the identifier run starting at `start`.
fn id_run_len(s: &[char], start: usize) -> (n: usize)
    requires
        start <= s@.len(),
    ensures
        start + n <= s@.len(),
        id_run(s@.subrange(start as int, s@.len() as int)) == s@.subrange(
            start as int,
            start + n,
        ),
{
    let mut j = start;
    while j < s.len() && (is_ascii_alnum(s[j]) || s[j] == '.' || s[j] == '-')
        invariant
            start <= j <= s@.len(),
            id_run(s@.subrange(start as int, s@.len() as int)) == s@.subrange(start as int, j as int)
                + id_run(s@.subrange(j as int, s@.len() as int)),
        decreases s.len() - j,
    {
        proof {
            lemma_id_run_step(s@, j as int);
            assert(s@.subrange(start as int, j as int) + seq![s@[j as int]] =~= s@.subrange(
                start as int,
                j + 1,
            ));
        }
        j += 1;
    }
    proof {
        let rest = s@.subrange(j as int, s@.len() as int);
        assert(id_run(rest) =~= Seq::<char>::empty());
    }
    j - start
}

/// Extract a bare arXiv ID from known URL patterns, or return `None`.
///
/// Handles `arxiv.org/abs/`, `arxiv.org/pdf/`, and `huggingface.co/papers/`.
/// The result borrows from `url`.
pub fn arxiv_id_from_url(url: &str) -> (r: Option<&str>)
    ensures
        match spec_arxiv_id_from_url(url@) {
            Some(id) => r is Some && r.unwrap()@ == id,
            None => r is None,
        },
{
    let v = chars_of(url);
    let prefixes: [&str; 3] = ["arxiv.org/abs/", "arxiv.org/pdf/", "huggingface.co/papers/"];
    let mut k: usize = 0;
    while k < 3
        invariant
            0 <= k <= 3,
            v@ == url@,
            prefixes@[0]@ == "arxiv.org/abs/"@,
            prefixes@[1]@ == "arxiv.org/pdf/"@,
            prefixes@[2]@ == "huggingface.co/papers/"@,
            k >= 1 ==> id_after(url@, "arxiv.org/abs/"@) is None,
            k >= 2 ==> id_after(url@, "arxiv.org/pdf/"@) is None,
            k >= 3 ==> id_after(url@, "huggingface.co/papers/"@) is None,
        decreases 3 - k,
    {
        let p = chars_of(prefixes[k]);
        assert(p@ == prefixes@[k as int]@);
        match find_at(&v, &p, 0) {
            Some(pos) => {
                proof { lemma_find_from_facts(v@, p@, 0); }
                assert(pos + p.len() <= v.len());
                let start = pos + p.len();
                let n = id_run_len(&v, start);
                assert(start + n <= v.len());
                if n > 0 {
                    let id = url.substring_char(start, start + n);
                    assert(id_after(url@, p@) == Some(id@));
                    return Some(id);
                }
                assert(id_after(url@, p@) is None);
            },
            None => {
                assert(id_after(url@, p@) is None);
            },
        }
        k += 1;
    }
    None
}

// ---------------------------------------------------------------------------
// Categories and subtopics
// ---------------------------------------------------------------------------

/// Human-readable label of an arXiv category code.
pub open spec fn spec_arxiv_category_label(code: Seq<char>) -> Option<Seq<char>> {
    if code == "cs.LG"@ {
        Some("machine learning"@)
    } else if code == "cs.AI"@ {
        Some("artificial intelligence"@)
    } else if code == "cs.CL"@ {
        Some("natural language processing"@)
    } else if code == "cs.CV"@ {
        Some("computer vision"@)
    } else if code == "cs.NE"@ {
        Some("neural networks"@)
    } else if code == "cs.RO"@ {
        Some("robotics"@)
    } else if code == "cs.IR"@ {
        Some("information retrieval"@)
    } else if code == "cs.HC"@ {
        Some("human-computer interaction"@)
    } else if code == "stat.ML"@ {
        Some("machine learning"@)
    } else if code == "stat.TH"@ {
        Some("statistics theory"@)
    } else if code == "math.OC"@ {
        Some("optimisation"@)
    } else if code == "math.ST"@ {
        Some("statistics"@)
    } else if code == "eess.AS"@ {
        Some("audio and speech"@)
    } else if code == "eess.IV"@ {
        Some("image and video"@)
    } else if code == "eess.SP"@ {
        Some("signal processing"@)
    } else if code == "q-bio.NC"@ {
        Some("neuroscience"@)
    } else if code == "physics.comp-ph"@ {
        Some("computational physics"@)
    } else {
        None
    }
}

/// The arXiv category labels: each code the reader knows and its label.
pub proof fn law_arxiv_category_table()
    ensures
        spec_arxiv_category_label("cs.LG"@) == Some("machine learning"@),
        spec_arxiv_category_label("cs.AI"@) == Some("artificial intelligence"@),
        spec_arxiv_category_label("cs.CL"@) == Some("natural language processing"@),
        spec_arxiv_category_label("cs.CV"@) == Some("computer vision"@),
        spec_arxiv_category_label("cs.NE"@) == Some("neural networks"@),
        spec_arxiv_category_label("cs.RO"@) == Some("robotics"@),
        spec_arxiv_category_label("cs.IR"@) == Some("information retrieval"@),
        spec_arxiv_category_label("cs.HC"@) == Some("human-computer interaction"@),
        spec_arxiv_category_label("stat.ML"@) == Some("machine learning"@),
        spec_arxiv_category_label("stat.TH"@) == Some("statistics theory"@),
        spec_arxiv_category_label("math.OC"@) == Some("optimisation"@),
        spec_arxiv_category_label("math.ST"@) == Some("statistics"@),
        spec_arxiv_category_label("eess.AS"@) == Some("audio and speech"@),
        spec_arxiv_category_label("eess.IV"@) == Some("image and video"@),
        spec_arxiv_category_label("eess.SP"@) == Some("signal processing"@),
        spec_arxiv_category_label("q-bio.NC"@) == Some("neuroscience"@),
        spec_arxiv_category_label("physics.comp-ph"@) == Some("computational physics"@),
        spec_arxiv_category_label("cs.CR"@) is None,
        spec_arxiv_category_label(Seq::empty()) is None,
{
    reveal_strlit("cs.LG");
    reveal_strlit("cs.AI");
    reveal_strlit("cs.CL");
    reveal_strlit("cs.CV");
    reveal_strlit("cs.NE");
    reveal_strlit("cs.RO");
    reveal_strlit("cs.IR");
    reveal_strlit("cs.HC");
    reveal_strlit("stat.ML");
    reveal_strlit("stat.TH");
    reveal_strlit("math.OC");
    reveal_strlit("math.ST");
    reveal_strlit("eess.AS");
    reveal_strlit("eess.IV");
    reveal_strlit("eess.SP");
    reveal_strlit("q-bio.NC");
    reveal_strlit("physics.comp-ph");
    reveal_strlit("cs.CR");
    assert("cs.LG"@.len() == 5);
    assert("cs.AI"@.len() == 5);
    assert("cs.CL"@.len() == 5);
    assert("cs.CV"@.len() == 5);
    assert("cs.NE"@.len() == 5);
    assert("cs.RO"@.len() == 5);
    assert("cs.IR"@.len() == 5);
    assert("cs.HC"@.len() == 5);
    assert("stat.ML"@.len() == 7);
    assert("stat.TH"@.len() == 7);
    assert("math.OC"@.len() == 7);
    assert("math.ST"@.len() == 7);
    assert("eess.AS"@.len() == 7);
    assert("eess.IV"@.len() == 7);
    assert("eess.SP"@.len() == 7);
    assert("q-bio.NC"@.len() == 8);
    assert("physics.comp-ph"@.len() == 15);
    assert("cs.CR"@.len() == 5);
    assert("cs.AI"@[3] != "cs.LG"@[3]);
    assert("cs.CL"@[3] != "cs.LG"@[3]);
    assert("cs.CL"@[3] != "cs.AI"@[3]);
    assert("cs.CV"@[3] != "cs.LG"@[3]);
    assert("cs.CV"@[3] != "cs.AI"@[3]);
    assert("cs.CV"@[4] != "cs.CL"@[4]);
    assert("cs.NE"@[3] != "cs.LG"@[3]);
    assert("cs.NE"@[3] != "cs.AI"@[3]);
    assert("cs.NE"@[3] != "cs.CL"@[3]);
    assert("cs.NE"@[3] != "cs.CV"@[3]);
    assert("cs.RO"@[3] != "cs.LG"@[3]);
    assert("cs.RO"@[3] != "cs.AI"@[3]);
    assert("cs.RO"@[3] != "cs.CL"@[3]);
    assert("cs.RO"@[3] != "cs.CV"@[3]);
    assert("cs.RO"@[3] != "cs.NE"@[3]);
    assert("cs.IR"@[3] != "cs.LG"@[3]);
    assert("cs.IR"@[3] != "cs.AI"@[3]);
    assert("cs.IR"@[3] != "cs.CL"@[3]);
    assert("cs.IR"@[3] != "cs.CV"@[3]);
    assert("cs.IR"@[3] != "cs.NE"@[3]);
    assert("cs.IR"@[3] != "cs.RO"@[3]);
    assert("cs.HC"@[3] != "cs.LG"@[3]);
    assert("cs.HC"@[3] != "cs.AI"@[3]);
    assert("cs.HC"@[3] != "cs.CL"@[3]);
    assert("cs.HC"@[3] != "cs.CV"@[3]);
    assert("cs.HC"@[3] != "cs.NE"@[3]);
    assert("cs.HC"@[3] != "cs.RO"@[3]);
    assert("cs.HC"@[3] != "cs.IR"@[3]);
    assert("stat.TH"@[5] != "stat.ML"@[5]);
    assert("math.OC"@[0] != "stat.ML"@[0]);
    assert("math.OC"@[0] != "stat.TH"@[0]);
    assert("math.ST"@[0] != "stat.ML"@[0]);
    assert("math.ST"@[0] != "stat.TH"@[0]);
    assert("math.ST"@[5] != "math.OC"@[5]);
    assert("eess.AS"@[0] != "stat.ML"@[0]);
    assert("eess.AS"@[0] != "stat.TH"@[0]);
    assert("eess.AS"@[0] != "math.OC"@[0]);
    assert("eess.AS"@[0] != "math.ST"@[0]);
    assert("eess.IV"@[0] != "stat.ML"@[0]);
    assert("eess.IV"@[0] != "stat.TH"@[0]);
    assert("eess.IV"@[0] != "math.OC"@[0]);
    assert("eess.IV"@[0] != "math.ST"@[0]);
    assert("eess.IV"@[5] != "eess.AS"@[5]);
    assert("eess.SP"@[0] != "stat.ML"@[0]);
    assert("eess.SP"@[0] != "stat.TH"@[0]);
    assert("eess.SP"@[0] != "math.OC"@[0]);
    assert("eess.SP"@[0] != "math.ST"@[0]);
    assert("eess.SP"@[5] != "eess.AS"@[5]);
    assert("eess.SP"@[5] != "eess.IV"@[5]);
    assert("cs.CR"@[3] != "cs.LG"@[3]);
    assert("cs.CR"@[3] != "cs.AI"@[3]);
    assert("cs.CR"@[4] != "cs.CL"@[4]);
    assert("cs.CR"@[4] != "cs.CV"@[4]);
    assert("cs.CR"@[3] != "cs.NE"@[3]);
    assert("cs.CR"@[3] != "cs.RO"@[3]);
    assert("cs.CR"@[3] != "cs.IR"@[3]);
    assert("cs.CR"@[3] != "cs.HC"@[3]);
}

pub open spec fn opt_str_view(o: Option<&str>) -> Option<Seq<char>> {
    match o {
        Some(s) => Some(s@),
        None => None,
    }
}

/// Map an arXiv category code to a human-readable label.
/// Returns `None` for unmapped codes.
pub fn map_arxiv_category(code: &str) -> (r: Option<&'static str>)
    ensures
        opt_str_view(r) == spec_arxiv_category_label(code@),
{
    if str_eq(code, "cs.LG") {
        Some("machine learning")
    } else if str_eq(code, "cs.AI") {
        Some("artificial intelligence")
    } else if str_eq(code, "cs.CL") {
        Some("natural language processing")
    } else if str_eq(code, "cs.CV") {
        Some("computer vision")
    } else if str_eq(code, "cs.NE") {
        Some("neural networks")
    } else if str_eq(code, "cs.RO") {
        Some("robotics")
    } else if str_eq(code, "cs.IR") {
        Some("information retrieval")
    } else if str_eq(code, "cs.HC") {
        Some("human-computer interaction")
    } else if str_eq(code, "stat.ML") {
        Some("machine learning")
    } else if str_eq(code, "stat.TH") {
        Some("statistics theory")
    } else if str_eq(code, "math.OC") {
        Some("optimisation")
    } else if str_eq(code, "math.ST") {
        Some("statistics")
    } else if str_eq(code, "eess.AS") {
        Some("audio and speech")
    } else if str_eq(code, "eess.IV") {
        Some("image and video")
    } else if str_eq(code, "eess.SP") {
        Some("signal processing")
    } else if str_eq(code, "q-bio.NC") {
        Some("neuroscience")
    } else if str_eq(code, "physics.comp-ph") {
        Some("computational physics")
    } else {
        None
    }
}

pub const SUBTOPIC_COUNT: usize = 31;

/// The subtopic table: keyword searched for, label reported.
pub open spec fn spec_subtopic(i: int) -> (Seq<char>, Seq<char>) {
    if i == 0 { ("sparse autoencoder"@, "sparse autoencoders"@) }
    else if i == 1 { ("mechanistic interp"@, "mechanistic interpretability"@) }
    else if i == 2 { ("circuit"@, "circuit analysis"@) }
    else if i == 3 { ("steering vector"@, "steering"@) }
    else if i == 4 { ("activation patch"@, "activation patching"@) }
    else if i == 5 { ("rlhf"@, "RLHF"@) }
    else if i == 6 { ("reinforcement learning from human"@, "RLHF"@) }
    else if i == 7 { ("rlaif"@, "RLAIF"@) }
    else if i == 8 { ("chain of thought"@, "chain of thought"@) }
    else if i == 9 { ("test-time compute"@, "test-time compute"@) }
    else if i == 10 { ("mixture of experts"@, "mixture of experts"@) }
    else if i == 11 { ("moe"@, "mixture of experts"@) }
    else if i == 12 { ("long context"@, "long context"@) }
    else if i == 13 { ("diffusion"@, "diffusion models"@) }
    else if i == 14 { ("world model"@, "world models"@) }
    else if i == 15 { ("vision language"@, "vision-language"@) }
    else if i == 16 { ("multimodal"@, "multimodal"@) }
    else if i == 17 { ("agent"@, "agents"@) }
    else if i == 18 { ("reasoning"@, "reasoning"@) }
    else if i == 19 { ("alignment"@, "alignment"@) }
    else if i == 20 { ("safety"@, "safety"@) }
    else if i == 21 { ("interpretability"@, "interpretability"@) }
    else if i == 22 { ("transformer"@, "transformers"@) }
    else if i == 23 { ("attention"@, "attention"@) }
    else if i == 24 { ("fine-tun"@, "fine-tuning"@) }
    else if i == 25 { ("distillation"@, "knowledge distillation"@) }
    else if i == 26 { ("quantization"@, "quantization"@) }
    else if i == 27 { ("pruning"@, "pruning"@) }
    else if i == 28 { ("scaling"@, "scaling"@) }
    else if i == 29 { ("benchmark"@, "benchmarks"@) }
    else { ("evaluation"@, "evaluation"@) }
}

fn subtopic(i: usize) -> (r: (&'static str, &'static str))
    requires
        i < SUBTOPIC_COUNT,
    ensures
        r.0@ == spec_subtopic(i as int).0,
        r.1@ == spec_subtopic(i as int).1,
{
    if i == 0 { ("sparse autoencoder", "sparse autoencoders") }
    else if i == 1 { ("mechanistic interp", "mechanistic interpretability") }
    else if i == 2 { ("circuit", "circuit analysis") }
    else if i == 3 { ("steering vector", "steering") }
    else if i == 4 { ("activation patch", "activation patching") }
    else if i == 5 { ("rlhf", "RLHF") }
    else if i == 6 { ("reinforcement learning from human", "RLHF") }
    else if i == 7 { ("rlaif", "RLAIF") }
    else if i == 8 { ("chain of thought", "chain of thought") }
    else if i == 9 { ("test-time compute", "test-time compute") }
    else if i == 10 { ("mixture of experts", "mixture of experts") }
    else if i == 11 { ("moe", "mixture of experts") }
    else if i == 12 { ("long context", "long context") }
    else if i == 13 { ("diffusion", "diffusion models") }
    else if i == 14 { ("world model", "world models") }
    else if i == 15 { ("vision language", "vision-language") }
    else if i == 16 { ("multimodal", "multimodal") }
    else if i == 17 { ("agent", "agents") }
    else if i == 18 { ("reasoning", "reasoning") }
    else if i == 19 { ("alignment", "alignment") }
    else if i == 20 { ("safety", "safety") }
    else if i == 21 { ("interpretability", "interpretability") }
    else if i == 22 { ("transformer", "transformers") }
    else if i == 23 { ("attention", "attention") }
    else if i == 24 { ("fine-tun", "fine-tuning") }
    else if i == 25 { ("distillation", "knowledge distillation") }
    else if i == 26 { ("quantization", "quantization") }
    else if i == 27 { ("pruning", "pruning") }
    else if i == 28 { ("scaling", "scaling") }
    else if i == 29 { ("benchmark", "benchmarks") }
    else { ("evaluation", "evaluation") }
}

/// Labels of the first `n` table rows whose keyword occurs in `text`, in
/// table order, each label once.
pub open spec fn subtopics_upto(text: Seq<char>, n: int) -> Seq<Seq<char>>
    decreases n,
{
    if n <= 0 {
        Seq::empty()
    } else {
        let prev = subtopics_upto(text, n - 1);
        let (kw, label) = spec_subtopic(n - 1);
        if contains_seq(text, kw) && !prev.contains(label) {
            prev.push(label)
        } else {
            prev
        }
    }
}

/// Subtopics of a title and summary: the table rows whose keyword occurs in
/// the lower-cased `"{title} {summary}"`.
pub open spec fn spec_subtopics(title: Seq<char>, summary: Seq<char>) -> Seq<Seq<char>> {
    subtopics_upto(lowercase(title + " "@ + summary), SUBTOPIC_COUNT as int)
}

pub open spec fn static_views(v: Seq<&'static str>) -> Seq<Seq<char>> {
    v.map_values(|s: &'static str| s@)
}

/// Owned copies of static texts.
pub fn owned_strings(v: &Vec<&'static str>) -> (r: Vec<String>)
    ensures
        views(r@) == static_views(v@),
{
    let mut r: Vec<String> = Vec::new();
    let mut i: usize = 0;
    while i < v.len()
        invariant
            0 <= i <= v@.len(),
            views(r@) == static_views(v@).take(i as int),
        decreases v.len() - i,
    {
        let s = to_owned_string(v[i]);
        let ghost before = views(r@);
        r.push(s);
        assert(views(r@) =~= before.push(v@[i as int]@));
        assert(static_views(v@).take(i + 1) =~= static_views(v@).take(i as int).push(v@[i as int]@));
        i += 1;
    }
    assert(static_views(v@).take(v@.len() as int) =~= static_views(v@));
    r
}

fn label_in(topics: &Vec<&'static str>, label: &str) -> (r: bool)
    ensures
        r == static_views(topics@).contains(label@),
{
    let mut i: usize = 0;
    while i < topics.len()
        invariant
            0 <= i <= topics@.len(),
            forall|j: int| 0 <= j < i ==> topics@[j]@ != label@,
        decreases topics.len() - i,
    {
        if str_eq(topics[i], label) {
            assert(static_views(topics@)[i as int] == label@);
            return true;
        }
        i += 1;
    }
    proof {
        if static_views(topics@).contains(label@) {
            let j = choose|j: int| 0 <= j < static_views(topics@).len() && static_views(topics@)[j] == label@;
            assert(topics@[j]@ == label@);
        }
    }
    false
}

/// Detect ML subtopics from title and summary text.
/// Matching is case-insensitive. Deduplicates by label.
pub fn detect_subtopics(title: &str, summary: &str) -> (r: Vec<&'static str>)
    ensures
        static_views(r@) == spec_subtopics(title@, summary@),
{
    let mut combined_v = chars_of(title);
    combined_v.push(' ');
    push_str(&mut combined_v, summary);
    let combined_s = string_of(&combined_v);
    proof {
        reveal_strlit(" ");
        assert(combined_s@ =~= title@ + " "@ + summary@);
    }
    let lower = to_lowercase(combined_s.as_str());
    let text = chars_of(lower.as_str());
    let mut topics: Vec<&'static str> = Vec::new();
    let mut i: usize = 0;
    while i < SUBTOPIC_COUNT
        invariant
            0 <= i <= SUBTOPIC_COUNT,
            text@ == lowercase(title@ + " "@ + summary@),
            static_views(topics@) == subtopics_upto(text@, i as int),
        decreases SUBTOPIC_COUNT - i,
    {
        let (kw, label) = subtopic(i);
        let kv = chars_of(kw);
        if contains_chars(&text, &kv) && !label_in(&topics, label) {
            topics.push(label);
            assert(static_views(topics@) =~= subtopics_upto(text@, i + 1));
        }
        i += 1;
    }
    topics
}

/// A feed item built from the given texts and then cleaned by
/// `sanitize_in_place`: no upvotes, no repository, no benchmarks, no full
/// text, in the inbox, with the signal its platform gives.
pub open spec fn is_clean_item(
    item: FeedItem,
    id: Seq<char>,
    url: Seq<char>,
    title: Seq<char>,
    platform: SourcePlatform,
    content_type: ContentType,
    tags: Seq<Seq<char>>,
    published: Seq<char>,
    authors: Seq<Seq<char>>,
    summary: Seq<char>,
    source_name: Seq<char>,
) -> bool {
    &&& item.id@ == id
    &&& item.url@ == url
    &&& item.title@ == sanitized(title)
    &&& item.source_platform == platform
    &&& item.content_type == content_type
    &&& views(item.domain_tags@) == tags.map_values(|t: Seq<char>| sanitized(t))
    &&& item.signal == spec_signal(platform, 0)
    &&& item.published_at@ == published
    &&& views(item.authors@) == authors.map_values(|t: Seq<char>| sanitized(t))
    &&& item.summary_short@ == sanitized(summary)
    &&& item.workflow_state == WorkflowState::Inbox
    &&& item.upvote_count == 0
    &&& item.github_repo is None
    &&& item.github_owner is None
    &&& item.github_repo_name is None
    &&& item.benchmark_results@.len() == 0
    &&& item.full_content is None
    &&& item.source_name@ == sanitized(source_name)
    &&& item.title_lower@ == lowercase(item.title@)
    &&& views(item.authors_lower@) == views(item.authors@).map_values(|t: Seq<char>| lowercase(t))
}

/// Build a feed item from the given texts and clean it (see
/// `is_clean_item`).
pub fn make_clean_item(
    id: String,
    url: String,
    title: String,
    platform: SourcePlatform,
    content_type: ContentType,
    tags: Vec<String>,
    published: String,
    authors: Vec<String>,
    summary: String,
    source_name: String,
) -> (item: FeedItem)
    ensures
        is_clean_item(
            item,
            id@,
            url@,
            title@,
            platform,
            content_type,
            views(tags@),
            published@,
            views(authors@),
            summary@,
            source_name@,
        ),
{
    let mut item = FeedItem {
        id,
        title,
        source_platform: platform,
        content_type,
        domain_tags: tags,
        signal: SignalLevel::Secondary,
        published_at: published,
        authors,
        summary_short: summary,
        workflow_state: WorkflowState::Inbox,
        url,
        upvote_count: 0,
        github_repo: None,
        github_owner: None,
        github_repo_name: None,
        benchmark_results: Vec::new(),
        full_content: None,
        source_name,
        title_lower: String::new(),
        authors_lower: Vec::new(),
    };
    item.signal = item.compute_signal();
    item.sanitize_in_place();
    item
}

} // verus!
