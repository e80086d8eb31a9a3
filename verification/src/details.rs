//! Text and room of the details panel for the selected item.
use vstd::prelude::*;

use crate::strs::{chars_of, has_prefix, push_str, starts_with, string_of, sub_vec};

verus! {

broadcast use vstd::string::group_string_axioms;

/// A user tag as the panel shows it: in square brackets.
pub open spec fn bracketed(t: Seq<char>) -> Seq<char> {
    seq!['['] + t + seq![']']
}

/// The user tags, each bracketed, separated by two spaces.
pub open spec fn tags_line(tags: Seq<Seq<char>>) -> Seq<char>
    decreases tags.len(),
{
    if tags.len() == 0 {
        Seq::empty()
    } else if tags.len() == 1 {
        bracketed(tags[0])
    } else {
        tags_line(tags.drop_last()) + seq![' ', ' '] + bracketed(tags.last())
    }
}

/// The "Tags" field of the details panel: `[a]  [b]  [c]`.
pub fn user_tags_line(tags: &Vec<String>) -> (r: String)
    ensures
        r@ == tags_line(tags@.map_values(|s: String| s@)),
{
    let ghost views = tags@.map_values(|s: String| s@);
    let mut v: Vec<char> = Vec::new();
    let mut i: usize = 0;
    while i < tags.len()
        invariant
            0 <= i <= tags@.len(),
            views == tags@.map_values(|s: String| s@),
            v@ == tags_line(views.take(i as int)),
        decreases tags.len() - i,
    {
        assert(views.take(i + 1).drop_last() =~= views.take(i as int));
        assert(views.take(i + 1).last() == tags@[i as int]@);
        if i > 0 {
            push_str(&mut v, "  ");
        }
        v.push('[');
        push_str(&mut v, tags[i].as_str());
        v.push(']');
        proof {
            reveal_strlit("  ");
            if i == 0 {
                assert(v@ =~= bracketed(views.take(1)[0]));
            } else {
                assert(v@ =~= tags_line(views.take(i as int)) + seq![' ', ' '] + bracketed(views.take(i + 1).last()));
            }
        }
        i += 1;
    }
    assert(views.take(tags@.len() as int) =~= views);
    string_of(v.as_slice())
}

/// A repository URL as the panel shows it: without a leading `https://`.
pub open spec fn repo_shown(repo: Seq<char>) -> Seq<char> {
    if starts_with(repo, "https://"@) {
        repo.skip(8)
    } else {
        repo
    }
}

/// The repository URL without its `https://` scheme.
pub fn repo_display(repo: &str) -> (r: String)
    ensures
        r@ == repo_shown(repo@),
{
    let v = chars_of(repo);
    let scheme = chars_of("https://");
    proof {
        reveal_strlit("https://");
    }
    if has_prefix(&v, &scheme) {
        let rest = sub_vec(&v, 8, v.len());
        assert(rest@ =~= repo@.skip(8));
        string_of(rest.as_slice())
    } else {
        string_of(v.as_slice())
    }
}

/// How many lines the summary may take: what the panel's height leaves
/// after the lines above it, its own heading and the footer, at most seven.
pub open spec fn spec_summary_room(visible_height: usize, lines_above: usize, footer_lines: usize) -> int {
    let used: int = if lines_above + footer_lines + 2 <= usize::MAX {
        lines_above + footer_lines + 2
    } else {
        usize::MAX as int
    };
    let left: int = if visible_height >= used {
        visible_height - used
    } else {
        0
    };
    if left < 7 {
        left
    } else {
        7
    }
}

/// The number of summary lines the details panel shows.
pub fn summary_room(visible_height: usize, lines_above: usize, footer_lines: usize) -> (r: usize)
    requires
        footer_lines + 2 <= usize::MAX,
    ensures
        r == spec_summary_room(visible_height, lines_above, footer_lines),
{
    let reserved = footer_lines + 2;
    let left = visible_height.saturating_sub(lines_above.saturating_add(reserved));
    if left < 7 {
        left
    } else {
        7
    }
}

} // verus!
