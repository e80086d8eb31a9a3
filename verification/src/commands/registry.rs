//! The table of slash commands.
use vstd::prelude::*;

use crate::strs::{chars_of, has_prefix, lowercase, starts_with, to_lowercase};

verus! {

broadcast use vstd::string::group_string_axioms;

#[derive(Debug, Clone, Copy, PartialEq, Eq, Structural)]
pub enum CommandCategory {
    Discovery,
    Sources,
    Planned,
}

#[derive(Debug, Clone, Copy, PartialEq, Eq, Structural)]
pub enum CommandKind {
    BuiltIn,
    Workflow,
    Stub,
}

#[derive(Debug, Clone, Copy, PartialEq, Eq, Structural)]
pub enum CommandId {
    ClearChat,
    Discover,
    ClearDiscoveries,
    ClearHistory,
    AddArxivCategory,
    AddFeed,
    Sota,
    ReadingList,
    Code,
    Compare,
    Digest,
    Author,
    Trending,
    Watch,
    ExportHistory,
    ExportLibrary,
}

/// One slash command as shown in palettes and matched by the parser.
#[derive(Debug, Clone, Copy, PartialEq, Eq)]
pub struct CommandSpec {
    pub id: CommandId,
    pub command: &'static str,
    pub completion: &'static str,
    pub description: &'static str,
    pub category: CommandCategory,
    pub kind: CommandKind,
    /// Show this command in the discovery search bar palette.
    pub show_in_discovery: bool,
}

/// Number of rows in the command table.
pub const COMMAND_COUNT: usize = 16;

/// Row `i` of the command table: id, command text, completion, description,
/// category, kind, shown in the discovery palette.
pub open spec fn spec_row(i: int) -> (CommandId, Seq<char>, Seq<char>, Seq<char>, CommandCategory, CommandKind, bool) {
    if i == 0 {
        (CommandId::ClearChat, "/clear"@, "/clear"@, "Clear the current chat session view"@, CommandCategory::Discovery, CommandKind::BuiltIn, false)
    } else if i == 1 {
        (CommandId::Discover, "/discover"@, "/discover "@, "Find papers and sources for a topic"@, CommandCategory::Discovery, CommandKind::Workflow, true)
    } else if i == 2 {
        (CommandId::ClearDiscoveries, "/clear discoveries"@, "/clear discoveries"@, "Clear the discovery feed"@, CommandCategory::Discovery, CommandKind::BuiltIn, false)
    } else if i == 3 {
        (CommandId::ClearHistory, "/clear history"@, "/clear history"@, "Wipe the activity history"@, CommandCategory::Discovery, CommandKind::BuiltIn, false)
    } else if i == 4 {
        (CommandId::AddArxivCategory, "/add"@, "/add "@, "Add an arXiv category permanently"@, CommandCategory::Sources, CommandKind::BuiltIn, false)
    } else if i == 5 {
        (CommandId::AddFeed, "/add-feed"@, "/add-feed "@, "Add an RSS feed permanently"@, CommandCategory::Sources, CommandKind::BuiltIn, false)
    } else if i == 6 {
        (CommandId::Sota, "/sota"@, "/sota "@, "State-of-the-art results and benchmark comparison"@, CommandCategory::Discovery, CommandKind::Workflow, true)
    } else if i == 7 {
        (CommandId::ReadingList, "/reading-list"@, "/reading-list "@, "Ordered learning path for a topic"@, CommandCategory::Discovery, CommandKind::Workflow, true)
    } else if i == 8 {
        (CommandId::Code, "/code"@, "/code "@, "Find implementations and code for a topic"@, CommandCategory::Discovery, CommandKind::Workflow, true)
    } else if i == 9 {
        (CommandId::Compare, "/compare"@, "/compare "@, "Side-by-side comparison of two approaches or models"@, CommandCategory::Discovery, CommandKind::Workflow, true)
    } else if i == 10 {
        (CommandId::Digest, "/digest"@, "/digest"@, "What happened in AI/ML this week"@, CommandCategory::Discovery, CommandKind::Workflow, true)
    } else if i == 11 {
        (CommandId::Author, "/author"@, "/author "@, "Find all papers by a specific researcher"@, CommandCategory::Discovery, CommandKind::Workflow, true)
    } else if i == 12 {
        (CommandId::Trending, "/trending"@, "/trending "@, "Find trending papers on a topic"@, CommandCategory::Discovery, CommandKind::Workflow, true)
    } else if i == 13 {
        (CommandId::Watch, "/watch"@, "/watch "@, "Coming soon: monitor a topic over time"@, CommandCategory::Planned, CommandKind::Stub, true)
    } else if i == 14 {
        (CommandId::ExportHistory, "/export-history"@, "/export-history "@, "Export current history view to ~/.config/trench/exports (md/jsonl)"@, CommandCategory::Discovery, CommandKind::BuiltIn, false)
    } else {
        (CommandId::ExportLibrary, "/export-library"@, "/export-library "@, "Export current library view to ~/.config/trench/exports (md/jsonl)"@, CommandCategory::Discovery, CommandKind::BuiltIn, false)
    }
}

impl CommandSpec {
    /// This spec is row `i` of the table.
    pub open spec fn is_row(self, i: int) -> bool {
        let (id, command, completion, description, category, kind, show) = spec_row(i);
        &&& self.id == id
        &&& self.command@ == command
        &&& self.completion@ == completion
        &&& self.description@ == description
        &&& self.category == category
        &&& self.kind == kind
        &&& self.show_in_discovery == show
    }
}

fn spec_of(id: CommandId, command: &'static str, completion: &'static str, description: &'static str, category: CommandCategory, kind: CommandKind, show: bool) -> (r: CommandSpec)
    ensures
        r.id == id,
        r.command == command,
        r.completion == completion,
        r.description == description,
        r.category == category,
        r.kind == kind,
        r.show_in_discovery == show,
{
    CommandSpec { id, command, completion, description, category, kind, show_in_discovery: show }
}

/// Row `i` of the command table.
pub fn command_spec_at(i: usize) -> (r: CommandSpec)
    requires
        i < COMMAND_COUNT,
    ensures
        r.is_row(i as int),
{
    if i == 0 {
        spec_of(CommandId::ClearChat, "/clear", "/clear", "Clear the current chat session view", CommandCategory::Discovery, CommandKind::BuiltIn, false)
    } else if i == 1 {
        spec_of(CommandId::Discover, "/discover", "/discover ", "Find papers and sources for a topic", CommandCategory::Discovery, CommandKind::Workflow, true)
    } else if i == 2 {
        spec_of(CommandId::ClearDiscoveries, "/clear discoveries", "/clear discoveries", "Clear the discovery feed", CommandCategory::Discovery, CommandKind::BuiltIn, false)
    } else if i == 3 {
        spec_of(CommandId::ClearHistory, "/clear history", "/clear history", "Wipe the activity history", CommandCategory::Discovery, CommandKind::BuiltIn, false)
    } else if i == 4 {
        spec_of(CommandId::AddArxivCategory, "/add", "/add ", "Add an arXiv category permanently", CommandCategory::Sources, CommandKind::BuiltIn, false)
    } else if i == 5 {
        spec_of(CommandId::AddFeed, "/add-feed", "/add-feed ", "Add an RSS feed permanently", CommandCategory::Sources, CommandKind::BuiltIn, false)
    } else if i == 6 {
        spec_of(CommandId::Sota, "/sota", "/sota ", "State-of-the-art results and benchmark comparison", CommandCategory::Discovery, CommandKind::Workflow, true)
    } else if i == 7 {
        spec_of(CommandId::ReadingList, "/reading-list", "/reading-list ", "Ordered learning path for a topic", CommandCategory::Discovery, CommandKind::Workflow, true)
    } else if i == 8 {
        spec_of(CommandId::Code, "/code", "/code ", "Find implementations and code for a topic", CommandCategory::Discovery, CommandKind::Workflow, true)
    } else if i == 9 {
        spec_of(CommandId::Compare, "/compare", "/compare ", "Side-by-side comparison of two approaches or models", CommandCategory::Discovery, CommandKind::Workflow, true)
    } else if i == 10 {
        spec_of(CommandId::Digest, "/digest", "/digest", "What happened in AI/ML this week", CommandCategory::Discovery, CommandKind::Workflow, true)
    } else if i == 11 {
        spec_of(CommandId::Author, "/author", "/author ", "Find all papers by a specific researcher", CommandCategory::Discovery, CommandKind::Workflow, true)
    } else if i == 12 {
        spec_of(CommandId::Trending, "/trending", "/trending ", "Find trending papers on a topic", CommandCategory::Discovery, CommandKind::Workflow, true)
    } else if i == 13 {
        spec_of(CommandId::Watch, "/watch", "/watch ", "Coming soon: monitor a topic over time", CommandCategory::Planned, CommandKind::Stub, true)
    } else if i == 14 {
        spec_of(CommandId::ExportHistory, "/export-history", "/export-history ", "Export current history view to ~/.config/trench/exports (md/jsonl)", CommandCategory::Discovery, CommandKind::BuiltIn, false)
    } else {
        spec_of(CommandId::ExportLibrary, "/export-library", "/export-library ", "Export current library view to ~/.config/trench/exports (md/jsonl)", CommandCategory::Discovery, CommandKind::BuiltIn, false)
    }
}

/// The whole command table, in order.
pub fn command_specs() -> (r: Vec<CommandSpec>)
    ensures
        r@.len() == COMMAND_COUNT,
        forall|i: int| 0 <= i < COMMAND_COUNT ==> #[trigger] r@[i].is_row(i),
{
    let mut r: Vec<CommandSpec> = Vec::new();
    let mut i: usize = 0;
    while i < COMMAND_COUNT
        invariant
            0 <= i <= COMMAND_COUNT,
            r@.len() == i,
            forall|j: int| 0 <= j < i ==> #[trigger] r@[j].is_row(j),
        decreases COMMAND_COUNT - i,
    {
        r.push(command_spec_at(i));
        i += 1;
    }
    r
}

// ---------------------------------------------------------------------------
// Discovery palette
// ---------------------------------------------------------------------------

/// The palette shows a row when it is marked for discovery and the
/// lower-cased query is `/` or a prefix of its command.
pub open spec fn palette_shows(i: int, q: Seq<char>) -> bool {
    spec_row(i).6 && (q == "/"@ || starts_with(spec_row(i).1, q))
}

/// Table rows `< n` shown by the palette for the lower-cased query `q`, in
/// table order.
pub open spec fn palette_rows(q: Seq<char>, n: int) -> Seq<int>
    decreases n,
{
    if n <= 0 {
        Seq::empty()
    } else if palette_shows(n - 1, q) {
        palette_rows(q, n - 1).push(n - 1)
    } else {
        palette_rows(q, n - 1)
    }
}

fn palette_filtered(query: &str) -> (r: Vec<CommandSpec>)
    ensures
        r@.len() == palette_rows(lowercase(query@), COMMAND_COUNT as int).len(),
        forall|k: int| 0 <= k < r@.len() ==> #[trigger] r@[k].is_row(
            palette_rows(lowercase(query@), COMMAND_COUNT as int)[k],
        ),
{
    let q = to_lowercase(query);
    let qv = chars_of(q.as_str());
    let slash = chars_of("/");
    let mut r: Vec<CommandSpec> = Vec::new();
    let mut i: usize = 0;
    while i < COMMAND_COUNT
        invariant
            0 <= i <= COMMAND_COUNT,
            qv@ == lowercase(query@),
            slash@ == "/"@,
            r@.len() == palette_rows(qv@, i as int).len(),
            forall|k: int| 0 <= k < r@.len() ==> #[trigger] r@[k].is_row(palette_rows(qv@, i as int)[k]),
        decreases COMMAND_COUNT - i,
    {
        let spec = command_spec_at(i);
        let cv = chars_of(spec.command);
        let is_slash = qv.len() == slash.len() && has_prefix(&qv, &slash);
        proof {
            assert(is_slash == (qv@ == "/"@)) by {
                if qv@.len() == slash@.len() {
                    assert(qv@.subrange(0, slash@.len() as int) =~= qv@);
                }
            }
        }
        if spec.show_in_discovery && (is_slash || has_prefix(&cv, &qv)) {
            r.push(spec);
        }
        i += 1;
    }
    r
}

/// Number of commands the discovery palette lists for `query`.
pub fn discovery_palette_count(query: &str) -> (n: usize)
    ensures
        n == palette_rows(lowercase(query@), COMMAND_COUNT as int).len(),
{
    palette_filtered(query).len()
}

/// Completion text of the `selected`-th command the palette lists for
/// `query`, if there is one.
pub fn discovery_palette_completion(query: &str, selected: usize) -> (r: Option<String>)
    ensures
        ({
            let rows = palette_rows(lowercase(query@), COMMAND_COUNT as int);
            match r {
                Some(c) => selected < rows.len() && c@ == spec_row(rows[selected as int]).2,
                None => selected >= rows.len(),
            }
        }),
{
    let f = palette_filtered(query);
    if selected < f.len() {
        assert(f@[selected as int].is_row(palette_rows(lowercase(query@), COMMAND_COUNT as int)[selected as int]));
        let c = crate::strs::to_owned_string(f[selected].completion);
        Some(c)
    } else {
        None
    }
}

} // verus!
