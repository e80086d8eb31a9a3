//! Parsing of slash commands typed into the chat and discovery bars.
use vstd::prelude::*;

use crate::commands::registry::{command_spec_at, spec_row, CommandId, CommandSpec, COMMAND_COUNT};
use crate::strs::{chars_of, has_prefix, starts_with, string_of, trim, trim_range, trim_vec};

verus! {

broadcast use vstd::string::group_string_axioms;

#[derive(Debug, Clone, PartialEq, Eq)]
pub enum SlashCommandInvocation {
    ClearChat,
    Discover { topic: String },
    ClearDiscoveries,
    ClearHistory,
    AddArxivCategory { category: String },
    AddFeed { url: String },
    Sota { topic: String },
    ReadingList { topic: String },
    Code { topic: String },
    Compare { topic: String },
    Digest,
    Author { name: String },
    Trending { topic: String },
    Watch { topic: String },
    ExportHistory { format: String },
    ExportLibrary { format: String },
    Unknown { raw: String },
}

/// `raw` invokes the command `cmd`: it is the command itself, or the command
/// followed by a space.
pub open spec fn invokes(raw: Seq<char>, cmd: Seq<char>) -> bool {
    starts_with(raw, cmd) && (raw.len() == cmd.len() || raw[cmd.len() as int] == ' ')
}

/// Among table rows `< n` that `raw` invokes, the one with the longest
/// command (the last of equally long ones).
pub open spec fn best_command(raw: Seq<char>, n: int) -> Option<int>
    decreases n,
{
    if n <= 0 {
        None
    } else {
        let b = best_command(raw, n - 1);
        if invokes(raw, spec_row(n - 1).1) && (match b {
            Some(j) => spec_row(n - 1).1.len() >= spec_row(j).1.len(),
            None => true,
        }) {
            Some(n - 1)
        } else {
            b
        }
    }
}

/// The command a trimmed input invokes: the longest matching one, so that
/// "/clear history" is not read as "/clear".
pub open spec fn spec_find_command(raw: Seq<char>) -> Option<int> {
    best_command(raw, COMMAND_COUNT as int)
}

/// What parsing `raw` must give.
pub open spec fn spec_parsed(r: SlashCommandInvocation, raw: Seq<char>) -> bool {
    let t = trim(raw);
    match spec_find_command(t) {
        None => r matches SlashCommandInvocation::Unknown { raw: x } && x@ == t,
        Some(i) => {
            let arg = trim(t.subrange(spec_row(i).1.len() as int, t.len() as int));
            match spec_row(i).0 {
                CommandId::ClearChat => r is ClearChat,
                CommandId::Discover => r matches SlashCommandInvocation::Discover { topic } && topic@ == arg,
                CommandId::ClearDiscoveries => r is ClearDiscoveries,
                CommandId::ClearHistory => r is ClearHistory,
                CommandId::AddArxivCategory => r matches SlashCommandInvocation::AddArxivCategory { category } && category@ == arg,
                CommandId::AddFeed => r matches SlashCommandInvocation::AddFeed { url } && url@ == arg,
                CommandId::Sota => r matches SlashCommandInvocation::Sota { topic } && topic@ == arg,
                CommandId::ReadingList => r matches SlashCommandInvocation::ReadingList { topic } && topic@ == arg,
                CommandId::Code => r matches SlashCommandInvocation::Code { topic } && topic@ == arg,
                CommandId::Compare => r matches SlashCommandInvocation::Compare { topic } && topic@ == arg,
                CommandId::Digest => r is Digest,
                CommandId::Author => r matches SlashCommandInvocation::Author { name } && name@ == arg,
                CommandId::Trending => r matches SlashCommandInvocation::Trending { topic } && topic@ == arg,
                CommandId::Watch => r matches SlashCommandInvocation::Watch { topic } && topic@ == arg,
                CommandId::ExportHistory => r matches SlashCommandInvocation::ExportHistory { format } && format@ == arg,
                CommandId::ExportLibrary => r matches SlashCommandInvocation::ExportLibrary { format } && format@ == arg,
            }
        },
    }
}

fn invokes_exec(raw: &Vec<char>, cmd: &Vec<char>) -> (r: bool)
    ensures
        r == invokes(raw@, cmd@),
{
    has_prefix(raw, cmd) && (raw.len() == cmd.len() || raw[cmd.len()] == ' ')
}

/// The table row `raw` invokes, preferring the longest command.
fn find_command(raw: &Vec<char>) -> (r: Option<(usize, CommandSpec)>)
    ensures
        match spec_find_command(raw@) {
            Some(i) => r is Some && r.unwrap().0 == i && r.unwrap().1.is_row(i),
            None => r is None,
        },
{
    let mut best: Option<(usize, CommandSpec)> = None;
    let mut best_len: usize = 0;
    let mut i: usize = 0;
    while i < COMMAND_COUNT
        invariant
            0 <= i <= COMMAND_COUNT,
            match best_command(raw@, i as int) {
                Some(j) => best is Some && best.unwrap().0 == j && best.unwrap().1.is_row(j)
                    && best_len == spec_row(j).1.len(),
                None => best is None,
            },
        decreases COMMAND_COUNT - i,
    {
        let spec = command_spec_at(i);
        let cv = chars_of(spec.command);
        if invokes_exec(raw, &cv) && (best.is_none() || cv.len() >= best_len) {
            best = Some((i, spec));
            best_len = cv.len();
        }
        i += 1;
    }
    best
}

/// Parse a line typed into a command bar.
pub fn parse_slash_command(raw: &str) -> (r: SlashCommandInvocation)
    ensures
        spec_parsed(r, raw@),
{
    let v = chars_of(raw);
    let t = trim_vec(&v);
    proof { law_find_command_longest(t@, COMMAND_COUNT as int); }
    match find_command(&t) {
        None => SlashCommandInvocation::Unknown { raw: string_of(&t) },
        Some((i, spec)) => {
            let n = chars_of(spec.command).len();
            let (a, b) = trim_range(&t, n);
            let arg = string_of(&crate::strs::sub_vec(&t, a, b));
            match spec.id {
                CommandId::ClearChat => SlashCommandInvocation::ClearChat,
                CommandId::Discover => SlashCommandInvocation::Discover { topic: arg },
                CommandId::ClearDiscoveries => SlashCommandInvocation::ClearDiscoveries,
                CommandId::ClearHistory => SlashCommandInvocation::ClearHistory,
                CommandId::AddArxivCategory => SlashCommandInvocation::AddArxivCategory { category: arg },
                CommandId::AddFeed => SlashCommandInvocation::AddFeed { url: arg },
                CommandId::Sota => SlashCommandInvocation::Sota { topic: arg },
                CommandId::ReadingList => SlashCommandInvocation::ReadingList { topic: arg },
                CommandId::Code => SlashCommandInvocation::Code { topic: arg },
                CommandId::Compare => SlashCommandInvocation::Compare { topic: arg },
                CommandId::Digest => SlashCommandInvocation::Digest,
                CommandId::Author => SlashCommandInvocation::Author { name: arg },
                CommandId::Trending => SlashCommandInvocation::Trending { topic: arg },
                CommandId::Watch => SlashCommandInvocation::Watch { topic: arg },
                CommandId::ExportHistory => SlashCommandInvocation::ExportHistory { format: arg },
                CommandId::ExportLibrary => SlashCommandInvocation::ExportLibrary { format: arg },
            }
        },
    }
}

/// When a command is found, the input invokes it and no command it invokes
/// is longer: the parser always takes the most specific command.
pub proof fn law_find_command_longest(raw: Seq<char>, n: int)
    requires
        0 <= n <= COMMAND_COUNT,
    ensures
        match best_command(raw, n) {
            Some(i) => 0 <= i < n && invokes(raw, spec_row(i).1) && forall|j: int|
                0 <= j < n && invokes(raw, spec_row(j).1) ==> spec_row(j).1.len() <= spec_row(i).1.len(),
            None => forall|j: int| 0 <= j < n ==> !invokes(raw, spec_row(j).1),
        },
    decreases n,
{
    if n > 0 {
        law_find_command_longest(raw, n - 1);
    }
}

} // verus!
