//! How the item table and the details panel scroll to follow the selection.
use vstd::prelude::*;

use crate::models::opt_view;
use crate::strs::str_eq;

verus! {

broadcast use vstd::string::group_string_axioms;

/// Rows an item takes in the table: a title longer than the title column
/// wraps onto a third row.
pub open spec fn item_rows(title_len: usize, title_wrap_w: usize) -> int {
    if title_len > title_wrap_w {
        3
    } else {
        2
    }
}

/// How many items, taken in order, fit in `room` rows.
pub open spec fn items_fitting(title_lens: Seq<usize>, title_wrap_w: usize, room: int) -> int
    decreases title_lens.len(),
{
    if title_lens.len() == 0 {
        0
    } else if item_rows(title_lens[0], title_wrap_w) > room {
        0
    } else {
        1 + items_fitting(title_lens.drop_first(), title_wrap_w, room - item_rows(title_lens[0], title_wrap_w))
    }
}

/// The items from `list_offset` on that fit in the viewport, at least one.
pub open spec fn spec_visible_count(title_lens: Seq<usize>, list_offset: usize, viewport_rows: usize, title_wrap_w: usize) -> int {
    let n = if list_offset <= title_lens.len() {
        items_fitting(title_lens.skip(list_offset as int), title_wrap_w, viewport_rows as int)
    } else {
        0
    };
    if n < 1 {
        1
    } else {
        n
    }
}

/// Counts the items, from `list_offset` on, whose rows fit in the viewport
/// (an item whose title is longer than the title column takes three rows,
/// others two); at least one.  `title_lens` holds each item's title length.
pub fn count_visible_items(title_lens: &[usize], list_offset: usize, viewport_rows: usize, title_wrap_w: usize) -> (r: usize)
    ensures
        r == spec_visible_count(title_lens@, list_offset, viewport_rows, title_wrap_w),
{
    let mut rows_used: usize = 0;
    let mut count: usize = 0;
    if list_offset <= title_lens.len() {
        let ghost all = title_lens@.skip(list_offset as int);
        let mut i: usize = list_offset;
        proof {
            assert(title_lens@.skip(i as int) =~= all);
        }
        while i < title_lens.len()
            invariant_except_break
                list_offset <= i <= title_lens@.len(),
                all == title_lens@.skip(list_offset as int),
                rows_used <= viewport_rows,
                count <= i - list_offset,
                count + items_fitting(title_lens@.skip(i as int), title_wrap_w, viewport_rows - rows_used)
                    == items_fitting(all, title_wrap_w, viewport_rows as int),
            ensures
                count == items_fitting(all, title_wrap_w, viewport_rows as int),
            decreases title_lens.len() - i,
        {
            let h: usize = if title_lens[i] > title_wrap_w {
                3
            } else {
                2
            };
            assert(title_lens@.skip(i as int)[0] == title_lens@[i as int]);
            assert(title_lens@.skip(i as int).drop_first() =~= title_lens@.skip(i + 1));
            if h > viewport_rows - rows_used {
                break;
            }
            rows_used = rows_used + h;
            count = count + 1;
            i = i + 1;
        }
        proof {
            if i == title_lens.len() {
                assert(title_lens@.skip(i as int).len() == 0);
            }
        }
    } else {
        proof {
            assert(count == 0);
        }
    }
    if count < 1 {
        1
    } else {
        count
    }
}

/// Where the item table's first visible row moves so that the selection
/// stays in view: up to the selection when it is above the window, down when
/// it comes within two items of the bottom, and never past the last item.
pub open spec fn spec_follow_selection(selected: usize, offset: usize, visible: usize, total: usize) -> int {
    let o: int = if selected < offset {
        selected as int
    } else if visible >= 2 && selected >= offset + (visible - 2) {
        if selected + 2 >= visible {
            selected + 2 - visible
        } else {
            0
        }
    } else {
        offset as int
    };
    let last: int = if total >= 1 {
        total - 1
    } else {
        0
    };
    if o < last {
        o
    } else {
        last
    }
}

/// After following, the selected item is in the window: the window starts
/// at or before it and shows it among its `visible` items (when at least two
/// fit; with one the window does not move down).
pub proof fn law_follow_selection_shows_selected(selected: usize, offset: usize, visible: usize, total: usize)
    requires
        selected < total,
        visible >= 2,
    ensures
        spec_follow_selection(selected, offset, visible, total) <= selected,
        selected < spec_follow_selection(selected, offset, visible, total) + visible,
{
}

/// The new first visible item of the table for a selection at `selected`,
/// with the window at `offset` showing `visible` of `total` items.
pub fn follow_selection(selected: usize, offset: usize, visible: usize, total: usize) -> (r: usize)
    requires
        !(selected < offset) && visible >= 2 ==> offset + (visible - 2) <= usize::MAX,
        !(selected < offset) && visible >= 2 && selected >= offset + (visible - 2) ==> selected + 2 <= usize::MAX,
    ensures
        r == spec_follow_selection(selected, offset, visible, total),
{
    let mut list_offset = offset;
    if selected < list_offset {
        list_offset = selected;
    } else if visible >= 2 && selected >= list_offset + visible.saturating_sub(2) {
        list_offset = (selected + 2).saturating_sub(visible);
    }
    let last = total.saturating_sub(1);
    if list_offset < last {
        list_offset
    } else {
        last
    }
}

/// The details panel's scroll when it is drawn for the selected item's URL
/// (`None` when nothing is selected): back to the top when the selection
/// differs from the one drawn last, unchanged otherwise.
pub fn details_scroll_on_select(last_url: &Option<String>, url: &Option<String>, scroll: u16) -> (r: u16)
    ensures
        r == if opt_view(*url) != opt_view(*last_url) {
            0
        } else {
            scroll
        },
{
    let same = match (url, last_url) {
        (Some(a), Some(b)) => str_eq(a.as_str(), b.as_str()),
        (None, None) => true,
        _ => false,
    };
    if same {
        scroll
    } else {
        0
    }
}

} // verus!
