//! Where the panes are on screen, and moving focus between them.
use vstd::prelude::*;

use crate::app::{NavDirection, PaneId, PANE_COUNT};

verus! {

/// A rectangle of terminal cells.  Like a terminal buffer's area, it never
/// reaches past the last addressable row or column.
#[derive(Clone, Copy, Debug, PartialEq, Eq, Default, Structural)]
pub struct Rect {
    pub x: u16,
    pub y: u16,
    pub width: u16,
    pub height: u16,
}

impl Rect {
    /// The rectangle stays inside the `u16` cell grid.
    pub open spec fn fits(self) -> bool {
        self.x + self.width <= u16::MAX && self.y + self.height <= u16::MAX
    }

    /// Whether the cell at (`col`, `row`) lies inside.
    pub open spec fn contains(self, col: int, row: int) -> bool {
        self.x <= col < self.x + self.width && self.y <= row < self.y + self.height
    }

    pub open spec fn center_x(self) -> int {
        self.x + self.width / 2
    }

    pub open spec fn center_y(self) -> int {
        self.y + self.height / 2
    }

    pub open spec fn non_empty(self) -> bool {
        self.width > 0 && self.height > 0
    }
}

/// One pane: where it was last drawn and whether it is open.
#[derive(Clone, Copy, Debug)]
pub struct PaneInfo {
    pub id: PaneId,
    pub rect: Rect,
    pub is_open: bool,
}

impl PaneInfo {
    pub open spec fn focusable(self) -> bool {
        self.id != PaneId::Details
    }
}

/// The pane registry: one entry per pane, in `PaneId` order.
pub struct Panes {
    pub panes: Vec<PaneInfo>,
}

impl Panes {
    /// One entry per pane, the `i`-th for the pane with index `i`, each
    /// inside the cell grid.
    pub open spec fn wf(&self) -> bool {
        &&& self.panes@.len() == PANE_COUNT
        &&& forall|i: int| 0 <= i < PANE_COUNT ==> (#[trigger] self.panes@[i]).id.spec_index() == i
        &&& forall|i: int| 0 <= i < PANE_COUNT ==> (#[trigger] self.panes@[i]).rect.fits()
    }

    /// Every pane, closed, with an empty rectangle.
    pub fn new() -> (r: Self)
        ensures
            r.wf(),
            forall|i: int| 0 <= i < PANE_COUNT ==> !(#[trigger] r.panes@[i]).is_open,
    {
        let z = Rect { x: 0, y: 0, width: 0, height: 0 };
        let panes = vec![
            PaneInfo { id: PaneId::Feed, rect: z, is_open: false },
            PaneInfo { id: PaneId::Reader, rect: z, is_open: false },
            PaneInfo { id: PaneId::Notes, rect: z, is_open: false },
            PaneInfo { id: PaneId::Details, rect: z, is_open: false },
            PaneInfo { id: PaneId::Chat, rect: z, is_open: false },
            PaneInfo { id: PaneId::SecondaryReader, rect: z, is_open: false },
            PaneInfo { id: PaneId::SecondaryNotes, rect: z, is_open: false },
        ];
        Panes { panes }
    }

    /// The entry of a pane.
    pub fn pane(&self, id: PaneId) -> (r: PaneInfo)
        requires
            self.wf(),
        ensures
            r == self.panes@[id.spec_index()],
            r.id == id,
    {
        let i = id.index();
        proof { crate::app::law_pane_index_injective(self.panes@[i as int].id, id); }
        self.panes[i]
    }

    /// Record what the last frame drew: each pane is open exactly when it got
    /// a rectangle, and then it has that rectangle.
    pub fn update_pane_rects(&mut self, rects: &Vec<Option<Rect>>)
        requires
            old(self).wf(),
            rects@.len() == PANE_COUNT,
            forall|i: int| 0 <= i < PANE_COUNT ==> match #[trigger] rects@[i] {
                Some(r) => r.fits(),
                None => true,
            },
        ensures
            final(self).wf(),
            forall|i: int| 0 <= i < PANE_COUNT ==> {
                &&& (#[trigger] final(self).panes@[i]).is_open == rects@[i] is Some
                &&& final(self).panes@[i].rect == match rects@[i] {
                    Some(r) => r,
                    None => old(self).panes@[i].rect,
                }
            },
    {
        let mut i: usize = 0;
        while i < PANE_COUNT
            invariant
                0 <= i <= PANE_COUNT,
                rects@.len() == PANE_COUNT,
                forall|k: int| 0 <= k < PANE_COUNT ==> match #[trigger] rects@[k] {
                    Some(r) => r.fits(),
                    None => true,
                },
                self.panes@.len() == PANE_COUNT,
                forall|k: int| 0 <= k < PANE_COUNT ==> (#[trigger] self.panes@[k]).id.spec_index() == k,
                forall|k: int| 0 <= k < PANE_COUNT ==> (#[trigger] self.panes@[k]).rect.fits(),
                forall|k: int| 0 <= k < i ==> {
                    &&& (#[trigger] self.panes@[k]).is_open == rects@[k] is Some
                    &&& self.panes@[k].rect == match rects@[k] {
                        Some(r) => r,
                        None => old(self).panes@[k].rect,
                    }
                },
                forall|k: int| i <= k < PANE_COUNT ==> #[trigger] self.panes@[k] == old(self).panes@[k],
            decreases PANE_COUNT - i,
        {
            let mut p = self.panes[i];
            match rects[i] {
                Some(r) => {
                    p.is_open = true;
                    p.rect = r;
                },
                None => {
                    p.is_open = false;
                },
            }
            self.panes.set(i, p);
            i += 1;
        }
    }

    /// The first open, non-empty pane (in registry order) containing the
    /// cell, if any.
    pub open spec fn spec_pane_at(&self, col: int, row: int, focusable_only: bool) -> Option<PaneId> {
        first_hit(self.panes@, col, row, focusable_only, 0)
    }

    fn hit(&self, col: u16, row: u16, focusable_only: bool) -> (r: Option<PaneId>)
        requires
            self.wf(),
        ensures
            r == self.spec_pane_at(col as int, row as int, focusable_only),
    {
        let mut i: usize = 0;
        while i < PANE_COUNT
            invariant
                0 <= i <= PANE_COUNT,
                self.wf(),
                first_hit(self.panes@, col as int, row as int, focusable_only, 0) == first_hit(
                    self.panes@,
                    col as int,
                    row as int,
                    focusable_only,
                    i as int,
                ),
            decreases PANE_COUNT - i,
        {
            let p = self.panes[i];
            assert(p.rect.fits());
            let inside = p.is_open && p.rect.width > 0 && p.rect.height > 0 && (!focusable_only || p.id
                != PaneId::Details) && col >= p.rect.x && col < p.rect.x + p.rect.width && row >= p.rect.y && row
                < p.rect.y + p.rect.height;
            if inside {
                return Some(p.id);
            }
            i += 1;
        }
        None
    }

    /// The open pane under a cell (see `spec_pane_at`).
    pub fn pane_at(&self, col: u16, row: u16) -> (r: Option<PaneId>)
        requires
            self.wf(),
        ensures
            r == self.spec_pane_at(col as int, row as int, false),
    {
        self.hit(col, row, false)
    }

    /// The open pane under a cell that can take focus (the details pane is
    /// skipped).
    pub fn focusable_pane_at(&self, col: u16, row: u16) -> (r: Option<PaneId>)
        requires
            self.wf(),
        ensures
            r == self.spec_pane_at(col as int, row as int, true),
    {
        self.hit(col, row, true)
    }
}

/// From position `i` on, the first open, non-empty pane containing the cell
/// (only focusable ones when asked).
pub open spec fn first_hit(panes: Seq<PaneInfo>, col: int, row: int, focusable_only: bool, i: int) -> Option<PaneId>
    decreases panes.len() - i,
{
    if i < 0 || i >= panes.len() {
        None
    } else {
        let p = panes[i];
        if p.is_open && p.rect.non_empty() && (!focusable_only || p.focusable()) && p.rect.contains(col, row) {
            Some(p.id)
        } else {
            first_hit(panes, col, row, focusable_only, i + 1)
        }
    }
}

/// The squared distance between the centres of two rectangles.
pub open spec fn sq_dist(a: Rect, b: Rect) -> int {
    (a.center_x() - b.center_x()) * (a.center_x() - b.center_x()) + (a.center_y() - b.center_y()) * (
    a.center_y() - b.center_y())
}

/// Whether pane `p` lies in direction `dir` from the focused pane `cur`
/// and may take focus: open, focusable, non-empty, another pane, with its
/// centre beyond the focused pane's centre in that direction.
pub open spec fn candidate(p: PaneInfo, cur: PaneInfo, dir: NavDirection) -> bool {
    &&& p.id != cur.id
    &&& p.is_open
    &&& p.focusable()
    &&& p.rect.non_empty()
    &&& match dir {
        NavDirection::Right => p.rect.center_x() > cur.rect.center_x(),
        NavDirection::Left => p.rect.center_x() < cur.rect.center_x(),
        NavDirection::Down => p.rect.center_y() > cur.rect.center_y(),
        NavDirection::Up => p.rect.center_y() < cur.rect.center_y(),
    }
}

impl Panes {
    /// The nearest pane in a direction from the focused one (centre to
    /// centre; the first in registry order among equally near ones), when
    /// the focused pane is open.
    pub fn find_pane_in_direction(&self, focused: PaneId, dir: NavDirection) -> (r: Option<PaneId>)
        requires
            self.wf(),
            forall|i: int| 0 <= i < PANE_COUNT && candidate(#[trigger] self.panes@[i], self.panes@[focused.spec_index()], dir)
                ==> sq_dist(self.panes@[i].rect, self.panes@[focused.spec_index()].rect) <= i32::MAX,
        ensures
            ({
                let cur = self.panes@[focused.spec_index()];
                match r {
                    None => !cur.is_open || forall|j: int| 0 <= j < PANE_COUNT ==> !candidate(#[trigger] self.panes@[j], cur, dir),
                    Some(id) => {
                        let k = id.spec_index();
                        &&& cur.is_open
                        &&& candidate(self.panes@[k], cur, dir)
                        &&& forall|j: int| 0 <= j < PANE_COUNT && candidate(#[trigger] self.panes@[j], cur, dir) ==> sq_dist(self.panes@[k].rect, cur.rect) <= sq_dist(self.panes@[j].rect, cur.rect)
                        &&& forall|j: int| 0 <= j < k && candidate(#[trigger] self.panes@[j], cur, dir) ==> sq_dist(self.panes@[k].rect, cur.rect) < sq_dist(self.panes@[j].rect, cur.rect)
                    },
                }
            }),
    {
        let cur = self.pane(focused);
        if !cur.is_open {
            return None;
        }
        let cx: i32 = cur.rect.x as i32 + cur.rect.width as i32 / 2;
        let cy: i32 = cur.rect.y as i32 + cur.rect.height as i32 / 2;
        let mut best: Option<(usize, i32)> = None;
        let mut i: usize = 0;
        while i < PANE_COUNT
            invariant
                0 <= i <= PANE_COUNT,
                self.wf(),
                cur == self.panes@[focused.spec_index()],
                cur.is_open,
                cx == cur.rect.center_x(),
                cy == cur.rect.center_y(),
                forall|j: int| 0 <= j < PANE_COUNT && candidate(#[trigger] self.panes@[j], cur, dir) ==> sq_dist(self.panes@[j].rect, cur.rect) <= i32::MAX,
                match best {
                    None => forall|j: int| 0 <= j < i ==> !candidate(#[trigger] self.panes@[j], cur, dir),
                    Some((k, d)) => {
                        &&& k < i
                        &&& d == sq_dist(self.panes@[k as int].rect, cur.rect)
                        &&& candidate(self.panes@[k as int], cur, dir)
                        &&& forall|j: int| 0 <= j < i && candidate(#[trigger] self.panes@[j], cur, dir) ==> d <= sq_dist(self.panes@[j].rect, cur.rect)
                        &&& forall|j: int| 0 <= j < k && candidate(#[trigger] self.panes@[j], cur, dir) ==> d < sq_dist(self.panes@[j].rect, cur.rect)
                    },
                },
            decreases PANE_COUNT - i,
        {
            let p = self.panes[i];
            let px: i32 = p.rect.x as i32 + p.rect.width as i32 / 2;
            let py: i32 = p.rect.y as i32 + p.rect.height as i32 / 2;
            let is_candidate = p.id != cur.id && p.is_open && p.id != PaneId::Details && p.rect.width > 0
                && p.rect.height > 0 && match dir {
                NavDirection::Right => px > cx,
                NavDirection::Left => px < cx,
                NavDirection::Down => py > cy,
                NavDirection::Up => py < cy,
            };
            assert(is_candidate == candidate(p, cur, dir));
            if is_candidate {
                let dx: i32 = px - cx;
                let dy: i32 = py - cy;
                proof {
                    assert(sq_dist(p.rect, cur.rect) <= i32::MAX);
                    assert(dx * dx >= 0 && dy * dy >= 0) by (nonlinear_arith);
                    assert(dx * dx + dy * dy == sq_dist(p.rect, cur.rect));
                }
                let d: i32 = dx * dx + dy * dy;
                let better = match best {
                    None => true,
                    Some((_, bd)) => d < bd,
                };
                if better {
                    best = Some((i, d));
                }
            }
            i += 1;
        }
        match best {
            None => None,
            Some((k, _)) => {
                let p = self.panes[k];
                Some(p.id)
            },
        }
    }
}

/// A secondary pane: open, focusable, and not the primary one.
pub open spec fn secondary(p: PaneInfo, primary: PaneId) -> bool {
    p.id != primary && p.is_open && p.focusable()
}

/// Pane `i` comes before pane `j`: higher on screen, or on the same row
/// further left, or at the same place and earlier in the registry.
pub open spec fn pane_before(panes: Seq<PaneInfo>, i: int, j: int) -> bool {
    let a = panes[i].rect;
    let b = panes[j].rect;
    a.y < b.y || (a.y == b.y && (a.x < b.x || (a.x == b.x && i < j)))
}

/// `ord` lists the secondary panes, each once, top to bottom then left to
/// right.
pub open spec fn is_pane_order(ord: Seq<int>, panes: Seq<PaneInfo>, primary: PaneId) -> bool {
    &&& ord.no_duplicates()
    &&& forall|k: int| 0 <= k < ord.len() ==> 0 <= #[trigger] ord[k] < panes.len() && secondary(panes[ord[k]], primary)
    &&& forall|i: int| 0 <= i < panes.len() && secondary(#[trigger] panes[i], primary) ==> ord.contains(i)
    &&& forall|a: int, b: int| 0 <= a < b < ord.len() ==> pane_before(panes, #[trigger] ord[a], #[trigger] ord[b])
}

/// Pane `o` stays ahead of pane `p` when `p` is placed into the screen
/// order: it is higher, or on the same row and not further right.
fn sorts_first(o: &PaneInfo, p: &PaneInfo) -> (r: bool)
    ensures
        r == (o.rect.y < p.rect.y || (o.rect.y == p.rect.y && o.rect.x <= p.rect.x)),
{
    o.rect.y < p.rect.y || (o.rect.y == p.rect.y && o.rect.x <= p.rect.x)
}

/// The ids of the panes `ord` lists.
pub open spec fn ids_of(ord: Seq<int>, panes: Seq<PaneInfo>) -> Seq<PaneId> {
    ord.map_values(|k: int| panes[k].id)
}

impl Panes {
    /// The primary pane: the reader when it is open, else the feed.
    pub open spec fn spec_primary(reader_active: bool) -> PaneId {
        if reader_active {
            PaneId::Reader
        } else {
            PaneId::Feed
        }
    }

    /// The open focusable panes other than the primary one, top to bottom
    /// then left to right.
    pub fn secondary_panes_sorted(&self, reader_active: bool) -> (r: Vec<PaneId>)
        requires
            self.wf(),
        ensures
            exists|ord: Seq<int>|
                is_pane_order(ord, self.panes@, Self::spec_primary(reader_active)) && r@ == ids_of(ord, self.panes@),
    {
        let primary = if reader_active { PaneId::Reader } else { PaneId::Feed };
        let ghost panes = self.panes@;
        let mut order: Vec<usize> = Vec::new();
        let mut i: usize = 0;
        while i < PANE_COUNT
            invariant
                0 <= i <= PANE_COUNT,
                self.wf(),
                panes == self.panes@,
                primary == Self::spec_primary(reader_active),
                order@.no_duplicates(),
                forall|k: int| 0 <= k < order@.len() ==> #[trigger] order@[k] < i && secondary(panes[order@[k] as int], primary),
                forall|j: int| 0 <= j < i && secondary(#[trigger] panes[j], primary) ==> order@.contains(j as usize),
                forall|a: int, b: int| 0 <= a < b < order@.len() ==> pane_before(panes, #[trigger] order@[a] as int, #[trigger] order@[b] as int),
            decreases PANE_COUNT - i,
        {
            let p = self.panes[i];
            if p.id != primary && p.is_open && p.id != PaneId::Details {
                let mut q: usize = 0;
                while q < order.len() && sorts_first(&self.panes[order[q]], &p)
                    invariant
                        0 <= q <= order@.len(),
                        i < PANE_COUNT,
                        self.wf(),
                        panes == self.panes@,
                        p == panes[i as int],
                        forall|k: int| 0 <= k < order@.len() ==> #[trigger] order@[k] < i,
                        forall|k: int| 0 <= k < q ==> pane_before(panes, #[trigger] order@[k] as int, i as int),
                    decreases order.len() - q,
                {
                    q += 1;
                }
                let ghost before = order@;
                order.insert(q, i);
                proof {
                    assert(order@ == before.insert(q as int, i));
                    assert forall|a: int, b: int| 0 <= a < b < order@.len() implies pane_before(panes, #[trigger] order@[a] as int, #[trigger] order@[b] as int) by {
                        if b < q {
                            assert(order@[a] == before[a] && order@[b] == before[b]);
                        } else if a > q {
                            assert(order@[a] == before[a - 1] && order@[b] == before[b - 1]);
                        } else if a < q && b > q {
                            assert(order@[a] == before[a] && order@[b] == before[b - 1]);
                        } else if b == q {
                            assert(order@[a] == before[a] && order@[b] == i);
                        } else {
                            assert(a == q && order@[a] == i && order@[b] == before[b - 1]);
                            let o = panes[before[q as int] as int].rect;
                            assert(!(o.y < p.rect.y || (o.y == p.rect.y && o.x <= p.rect.x)));
                            if b - 1 > q {
                                assert(pane_before(panes, before[q as int] as int, before[b - 1] as int));
                            }
                        }
                    }
                    assert(order@.no_duplicates()) by {
                        assert forall|a: int, b: int| 0 <= a < order@.len() && 0 <= b < order@.len() && a != b implies order@[a] != order@[b] by {
                            let oa = if a < q { a } else { a - 1 };
                            let ob = if b < q { b } else { b - 1 };
                            if a == q {
                                assert(order@[b] == before[ob]);
                            } else if b == q {
                                assert(order@[a] == before[oa]);
                            } else {
                                assert(order@[a] == before[oa] && order@[b] == before[ob]);
                            }
                        }
                    }
                    assert forall|k: int| 0 <= k < order@.len() implies #[trigger] order@[k] < i + 1 && secondary(panes[order@[k] as int], primary) by {
                        if k < q {
                            assert(order@[k] == before[k]);
                        } else if k > q {
                            assert(order@[k] == before[k - 1]);
                        }
                    }
                    assert forall|j: int| 0 <= j < i + 1 && secondary(#[trigger] panes[j], primary) implies order@.contains(j as usize) by {
                        if j == i {
                            assert(order@[q as int] == i);
                        } else {
                            let t = choose|t: int| 0 <= t < before.len() && before[t] == j as usize;
                            if t < q {
                                assert(order@[t] == before[t]);
                            } else {
                                assert(order@[t + 1] == before[t]);
                            }
                        }
                    }
                }
            } else {
                proof {
                    assert(!secondary(panes[i as int], primary));
                }
            }
            i += 1;
        }
        let mut r: Vec<PaneId> = Vec::new();
        let mut k: usize = 0;
        while k < order.len()
            invariant
                0 <= k <= order@.len(),
                self.wf(),
                panes == self.panes@,
                forall|t: int| 0 <= t < order@.len() ==> #[trigger] order@[t] < PANE_COUNT,
                r@ == order@.take(k as int).map_values(|t: usize| panes[t as int].id),
            decreases order.len() - k,
        {
            let p = self.panes[order[k]];
            r.push(p.id);
            assert(order@.take(k + 1).map_values(|t: usize| panes[t as int].id) =~= order@.take(k as int).map_values(|t: usize| panes[t as int].id).push(p.id));
            k += 1;
        }
        proof {
            let ord = order@.map_values(|t: usize| t as int);
            assert(order@.take(order@.len() as int) =~= order@);
            assert(r@ =~= ids_of(ord, panes));
            assert(ord.no_duplicates()) by {
                assert forall|a: int, b: int| 0 <= a < ord.len() && 0 <= b < ord.len() && a != b implies ord[a] != ord[b] by {
                    assert(order@[a] != order@[b]);
                }
            }
            assert forall|j: int| 0 <= j < panes.len() && secondary(#[trigger] panes[j], primary) implies ord.contains(j) by {
                assert(order@.contains(j as usize));
                let t = choose|t: int| 0 <= t < order@.len() && order@[t] == j as usize;
                assert(ord[t] == j);
            }
            assert forall|a: int, b: int| 0 <= a < b < ord.len() implies pane_before(panes, #[trigger] ord[a], #[trigger] ord[b]) by {
                assert(pane_before(panes, order@[a] as int, order@[b] as int));
            }
            assert(is_pane_order(ord, panes, primary));
        }
        r
    }

    /// The pane a number key focuses: 0 the primary pane, 1 to 3 the
    /// secondary panes in screen order (see `secondary_panes_sorted`).
    pub fn get_pane_by_number(&self, n: u8, reader_active: bool) -> (r: Option<PaneId>)
        requires
            self.wf(),
        ensures
            n == 0 ==> r == Some(Self::spec_primary(reader_active)),
            n > 3 ==> r is None,
            1 <= n <= 3 ==> exists|ord: Seq<int>|
                is_pane_order(ord, self.panes@, Self::spec_primary(reader_active)) && r == (if n <= ord.len() {
                    Some(self.panes@[ord[n - 1]].id)
                } else {
                    None
                }),
    {
        if n == 0 {
            return Some(if reader_active { PaneId::Reader } else { PaneId::Feed });
        }
        if n > 3 {
            return None;
        }
        let sorted = self.secondary_panes_sorted(reader_active);
        let k = (n - 1) as usize;
        if k < sorted.len() {
            Some(sorted[k])
        } else {
            None
        }
    }
}

} // verus!
