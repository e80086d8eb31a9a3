//! The rows of the theme picker and how its list scrolls.
use vstd::prelude::*;

verus! {

/// The rows for the preset themes, given each preset's group in order: a
/// heading row (`None`) wherever the group changes, then the preset's row
/// (`Some` of its index).
pub open spec fn preset_rows(groups: Seq<usize>) -> Seq<Option<usize>>
    decreases groups.len(),
{
    if groups.len() == 0 {
        Seq::empty()
    } else {
        let i = groups.len() - 1;
        let heading: Seq<Option<usize>> = if i == 0 || groups[i - 1] != groups[i] {
            seq![None]
        } else {
            Seq::empty()
        };
        preset_rows(groups.drop_last()) + heading + seq![Some(i as usize)]
    }
}

/// All rows of the picker: the presets, a blank and a heading row, one row
/// per custom theme, and the row that creates a new custom theme.
pub open spec fn spec_picker_rows(groups: Seq<usize>, custom_count: usize) -> Seq<Option<usize>> {
    let n = groups.len();
    preset_rows(groups) + seq![None, None] + Seq::new(custom_count as nat, |k: int| Some((n + k) as usize)) + seq![
        Some((n + custom_count) as usize),
    ]
}

/// Lists the picker's rows: `Some(i)` for the row of entry `i` (presets,
/// then custom themes, then "new custom theme"), `None` for headings and
/// blank rows.  `groups` holds the group of each preset theme in order.
pub fn theme_picker_rows(groups: &[usize], custom_count: usize) -> (r: Vec<Option<usize>>)
    requires
        groups@.len() + custom_count < usize::MAX,
    ensures
        r@ == spec_picker_rows(groups@, custom_count),
{
    let mut rows: Vec<Option<usize>> = Vec::new();
    let mut i: usize = 0;
    while i < groups.len()
        invariant
            0 <= i <= groups@.len(),
            rows@ == preset_rows(groups@.take(i as int)),
        decreases groups.len() - i,
    {
        let ghost before = rows@;
        assert(groups@.take(i + 1).drop_last() =~= groups@.take(i as int));
        if i == 0 || groups[i - 1] != groups[i] {
            rows.push(None);
        }
        rows.push(Some(i));
        assert(rows@ =~= preset_rows(groups@.take(i + 1)));
        i += 1;
    }
    assert(groups@.take(groups@.len() as int) =~= groups@);
    let n = groups.len();
    rows.push(None);
    rows.push(None);
    let ghost base = rows@;
    let mut k: usize = 0;
    while k < custom_count
        invariant
            0 <= k <= custom_count,
            n == groups@.len(),
            n + custom_count < usize::MAX,
            rows@ == base + Seq::new(k as nat, |j: int| Some((n + j) as usize)),
        decreases custom_count - k,
    {
        rows.push(Some(n + k));
        assert(rows@ =~= base + Seq::new((k + 1) as nat, |j: int| Some((n + j) as usize)));
        k += 1;
    }
    rows.push(Some(n + custom_count));
    assert(rows@ =~= spec_picker_rows(groups@, custom_count));
    rows
}

/// The row that shows entry `cursor` (the first such row), or 0.
pub fn row_of(rows: &Vec<Option<usize>>, cursor: usize) -> (r: usize)
    ensures
        (exists|i: int| 0 <= i < rows@.len() && rows@[i] == Some(cursor)) ==> {
            &&& r < rows@.len()
            &&& rows@[r as int] == Some(cursor)
            &&& forall|j: int| 0 <= j < r ==> rows@[j] != Some(cursor)
        },
        !(exists|i: int| 0 <= i < rows@.len() && rows@[i] == Some(cursor)) ==> r == 0,
{
    let mut i: usize = 0;
    while i < rows.len()
        invariant
            0 <= i <= rows@.len(),
            forall|j: int| 0 <= j < i ==> rows@[j] != Some(cursor),
        decreases rows.len() - i,
    {
        let hit = match rows[i] {
            Some(x) => x == cursor,
            None => false,
        };
        if hit {
            return i;
        }
        i += 1;
    }
    0
}

/// The first visible row of the picker's list: the earlier scroll, kept
/// within the list, moved just enough to show the selected row.
pub open spec fn spec_picker_scroll(selected_line: usize, rows_len: usize, scroll: usize, list_h: usize) -> int {
    let max_start: int = if rows_len >= list_h { rows_len - list_h } else { 0 };
    let start0: int = if scroll < max_start { scroll as int } else { max_start };
    let start1: int = if selected_line < start0 {
        selected_line as int
    } else if selected_line >= start0 + list_h {
        if selected_line >= list_h - 1 { selected_line - (list_h - 1) } else { 0 }
    } else {
        start0
    };
    if start1 < max_start {
        start1
    } else {
        max_start
    }
}

/// The selected row is always among the `list_h` rows shown.
pub proof fn law_picker_scroll_shows_selected(selected_line: usize, rows_len: usize, scroll: usize, list_h: usize)
    requires
        selected_line < rows_len,
        list_h >= 1,
    ensures
        spec_picker_scroll(selected_line, rows_len, scroll, list_h) <= selected_line,
        selected_line < spec_picker_scroll(selected_line, rows_len, scroll, list_h) + list_h,
{
}

/// Where the picker's list starts for the selected row `selected_line` of
/// `rows_len` rows, shown `list_h` rows at a time after scrolling to
/// `scroll` before.
pub fn picker_scroll(selected_line: usize, rows_len: usize, scroll: usize, list_h: usize) -> (r: usize)
    requires
        list_h == 0 ==> selected_line < (if scroll < rows_len { scroll } else { rows_len }),
    ensures
        r == spec_picker_scroll(selected_line, rows_len, scroll, list_h),
{
    let max_start = rows_len.saturating_sub(list_h);
    let mut start = if scroll < max_start {
        scroll
    } else {
        max_start
    };
    if selected_line < start {
        start = selected_line;
    } else if selected_line >= start + list_h {
        start = selected_line.saturating_sub(list_h - 1);
    }
    if start < max_start {
        start
    } else {
        max_start
    }
}

} // verus!
