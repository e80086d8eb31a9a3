//! What the discovery tools hand back to the assistant: the items found and
//! a short text about them.
use vstd::prelude::*;

use crate::models::FeedItem;
use crate::strs::{chars_of, decimal, push_all, push_decimal, push_str, string_of};
use crate::text::join_with;

verus! {

broadcast use vstd::string::group_string_axioms;

/// The outcome of one tool call.
pub struct ToolResult {
    pub items: Vec<FeedItem>,
    pub text: String,
}

/// The preview lines of a result: `- title` for each of the first five items.
pub open spec fn preview_lines(items: Seq<FeedItem>) -> Seq<Seq<char>> {
    let k = if items.len() < 5 { items.len() as int } else { 5 };
    Seq::new(k as nat, |i: int| "- "@ + items[i].title@)
}

/// `Found N papers from SOURCE (showing first 5 of N):` and the preview, one
/// line per paper; the note in brackets only when there are more than five.
pub open spec fn spec_items_summary(items: Seq<FeedItem>, source: Seq<char>) -> Seq<char> {
    let n = decimal(items.len());
    let note = if items.len() > 5 { " (showing first 5 of "@ + n + ")"@ } else { Seq::empty() };
    "Found "@ + n + " papers from "@ + source + note + ":\n"@ + join_with(preview_lines(items), "\n"@)
}

/// The summary the assistant reads of the papers a tool found.
pub fn items_summary(items: &Vec<FeedItem>, source: &str) -> (r: String)
    ensures
        r@ == spec_items_summary(items@, source@),
{
    let n = items.len();
    let k = if n < 5 { n } else { 5 };
    let mut lines: Vec<String> = Vec::new();
    let mut i: usize = 0;
    while i < k
        invariant
            k <= items@.len(),
            k == (if items@.len() < 5 { items@.len() as int } else { 5 }),
            0 <= i <= k,
            lines@.len() == i,
            forall|j: int| 0 <= j < i ==> #[trigger] lines@[j]@ == "- "@ + items@[j].title@,
        decreases k - i,
    {
        let mut v = chars_of("- ");
        push_str(&mut v, items[i].title.as_str());
        lines.push(string_of(&v));
        i += 1;
    }
    assert(crate::models::views(lines@) =~= preview_lines(items@));
    let preview = crate::text::join_strings(&lines, "\n");
    let mut out = chars_of("Found ");
    push_decimal(&mut out, n as u64);
    push_str(&mut out, " papers from ");
    push_str(&mut out, source);
    if n > 5 {
        push_str(&mut out, " (showing first 5 of ");
        push_decimal(&mut out, n as u64);
        push_str(&mut out, ")");
    }
    push_str(&mut out, ":\n");
    push_str(&mut out, preview.as_str());
    string_of(&out)
}

/// A result with no items and the given message.
pub fn err_result(msg: &str) -> (r: ToolResult)
    ensures
        r.items@.len() == 0,
        r.text@ == msg@,
{
    ToolResult { items: Vec::new(), text: crate::strs::to_owned_string(msg) }
}

/// The answer to a call of a tool that does not exist.
pub fn unknown_tool(name: &str) -> (r: ToolResult)
    ensures
        r.items@.len() == 0,
        r.text@ == "Unknown tool: "@ + name@,
{
    let mut v = chars_of("Unknown tool: ");
    push_str(&mut v, name);
    ToolResult { items: Vec::new(), text: string_of(&v) }
}

/// How many results a search asks for: the requested number (20 when none
/// is given), at most 50.
pub fn max_results(requested: Option<u64>) -> (r: usize)
    ensures
        r == match requested {
            Some(m) => if m < 50 { m as int } else { 50 },
            None => 20,
        },
{
    let m = match requested {
        Some(m) => m,
        None => 20,
    };
    if m < 50 {
        m as usize
    } else {
        50
    }
}

/// The result of a paper search or lookup that returned `outcome`: the
/// papers and their summary; `empty_text` when none came back; `failure`
/// and the error when it failed.
pub fn paper_result(outcome: Result<Vec<FeedItem>, String>, empty_text: String, failure: &str) -> (r: ToolResult)
    ensures
        match outcome {
            Ok(items) => if items@.len() == 0 {
                r.items@.len() == 0 && r.text@ == empty_text@
            } else {
                r.items@ == items@ && r.text@ == spec_items_summary(items@, "arXiv"@)
            },
            Err(e) => r.items@.len() == 0 && r.text@ == failure@ + ": "@ + e@,
        },
{
    match outcome {
        Ok(items) => {
            if items.len() == 0 {
                ToolResult { items: Vec::new(), text: empty_text }
            } else {
                let text = items_summary(&items, "arXiv");
                proof { reveal_strlit("arXiv"); }
                ToolResult { items, text }
            }
        },
        Err(e) => {
            let mut v = chars_of(failure);
            push_str(&mut v, ": ");
            push_str(&mut v, e.as_str());
            ToolResult { items: Vec::new(), text: string_of(&v) }
        },
    }
}

/// `No arXiv papers found for 'QUERY'`.
pub fn no_search_results(query: &str) -> (r: String)
    ensures
        r@ == "No arXiv papers found for '"@ + query@ + "'"@,
{
    let mut v = chars_of("No arXiv papers found for '");
    push_str(&mut v, query);
    push_str(&mut v, "'");
    string_of(&v)
}

/// `No paper found with arXiv ID 'ID'`.
pub fn no_paper_with_id(id: &str) -> (r: String)
    ensures
        r@ == "No paper found with arXiv ID '"@ + id@ + "'"@,
{
    let mut v = chars_of("No paper found with arXiv ID '");
    push_str(&mut v, id);
    push_str(&mut v, "'");
    string_of(&v)
}

} // verus!
