//! Whether an arrangement is legal: every cell inside the bag, no cell
//! claimed twice.
use vstd::prelude::*;
use crate::geometry::GridCell;
use crate::grid::Grid;
use crate::item::{InventoryItem, cell_at};

verus! {

/// `(i, k)` names offset `k` of item `i`.
pub open spec fn is_claim(items: Seq<InventoryItem>, i: int, k: int) -> bool {
    0 <= i < items.len() && 0 <= k < items[i].local_points@.len()
}

/// `(j, m)` is a claim that comes before `(i, k)` when items are walked in
/// order and each item's offsets in order.
pub open spec fn claimed_before(items: Seq<InventoryItem>, j: int, m: int, i: int, k: int) -> bool {
    is_claim(items, j, m) && (j < i || (j == i && m < k))
}

/// Every cell of every item lies in the bag, and no two claims name the
/// same cell.
pub open spec fn arrangement_valid(items: Seq<InventoryItem>, grid: Grid) -> bool {
    &&& forall|i: int, k: int| #[trigger] is_claim(items, i, k) ==> grid.holds(cell_at(items[i], k))
    &&& forall|i: int, k: int, j: int, m: int|
        #[trigger] is_claim(items, i, k) && #[trigger] is_claim(items, j, m) && (i, k) != (j, m)
            ==> cell_at(items[i], k) != cell_at(items[j], m)
}

/// The claims before `(i, k)` are all inside the bag and pairwise apart.
spec fn legal_before(items: Seq<InventoryItem>, grid: Grid, i: int, k: int) -> bool {
    &&& forall|j: int, m: int| #[trigger]
        claimed_before(items, j, m, i, k) ==> grid.holds(cell_at(items[j], m))
    &&& forall|j: int, m: int, j2: int, m2: int|
        #[trigger] claimed_before(items, j, m, i, k) && #[trigger] claimed_before(items, j2, m2, i, k)
            && (j, m) != (j2, m2) ==> cell_at(items[j], m) != cell_at(items[j2], m2)
}

/// `seen` holds the cells of exactly the claims before `(i, k)`: entry `t`
/// is the cell of claim `src[t]`, and claim `(j, m)` sits at entry `at[(j, m)]`.
spec fn seen_matches(
    items: Seq<InventoryItem>,
    seen: Seq<GridCell>,
    src: Seq<(int, int)>,
    at: Map<(int, int), int>,
    i: int,
    k: int,
) -> bool {
    &&& src.len() == seen.len()
    &&& forall|t: int|
        0 <= t < seen.len() ==> claimed_before(items, #[trigger] src[t].0, src[t].1, i, k)
            && seen[t]@ == cell_at(items[src[t].0], src[t].1)
    &&& forall|j: int, m: int| #[trigger]
        claimed_before(items, j, m, i, k) ==> at.contains_key((j, m)) && 0 <= at[(j, m)] < seen.len()
            && seen[at[(j, m)]]@ == cell_at(items[j], m)
}

/// Having walked every offset of item `i` is having reached item `i + 1`.
proof fn lemma_next_item(
    items: Seq<InventoryItem>,
    grid: Grid,
    seen: Seq<GridCell>,
    src: Seq<(int, int)>,
    at: Map<(int, int), int>,
    i: int,
)
    requires
        0 <= i < items.len(),
        seen_matches(items, seen, src, at, i, items[i].local_points@.len() as int),
        legal_before(items, grid, i, items[i].local_points@.len() as int),
    ensures
        seen_matches(items, seen, src, at, i + 1, 0),
        legal_before(items, grid, i + 1, 0),
{
    let n = items[i].local_points@.len() as int;
    assert forall|j: int, m: int| #[trigger] claimed_before(items, j, m, i + 1, 0) implies claimed_before(items, j, m, i, n) by {}
    assert forall|t: int| 0 <= t < seen.len() implies claimed_before(items, #[trigger] src[t].0, src[t].1, i + 1, 0) by {
        assert(claimed_before(items, src[t].0, src[t].1, i, n));
    }
    assert forall|j: int, m: int, j2: int, m2: int|
        #[trigger] claimed_before(items, j, m, i + 1, 0) && #[trigger] claimed_before(items, j2, m2, i + 1, 0)
            && (j, m) != (j2, m2) implies cell_at(items[j], m) != cell_at(items[j2], m2) by {
        assert(claimed_before(items, j, m, i, n));
        assert(claimed_before(items, j2, m2, i, n));
    }
}

/// Whether the whole arrangement is legal. Only reads; runs every tick.
pub fn is_arrangement_valid(items: &Vec<InventoryItem>, grid: &Grid) -> (r: bool)
    ensures
        r == arrangement_valid(items@, *grid),
{
    let mut seen: Vec<GridCell> = Vec::new();
    let ghost mut src: Seq<(int, int)> = Seq::empty();
    let ghost mut at: Map<(int, int), int> = Map::empty();
    let mut i: usize = 0;
    while i < items.len()
        invariant
            i <= items@.len(),
            seen_matches(items@, seen@, src, at, i as int, 0),
            legal_before(items@, *grid, i as int, 0),
        decreases items@.len() - i,
    {
        let item = &items[i];
        let mut k: usize = 0;
        while k < item.local_points.len()
            invariant
                i < items@.len(),
                *item == items@[i as int],
                k <= item.local_points@.len(),
                seen_matches(items@, seen@, src, at, i as int, k as int),
                legal_before(items@, *grid, i as int, k as int),
            decreases item.local_points@.len() - k,
        {
            let c = item.cell(k);
            assert(is_claim(items@, i as int, k as int));
            if !grid.contains(&c) {
                return false;
            }
            let mut t: usize = 0;
            while t < seen.len()
                invariant
                    t <= seen@.len(),
                    forall|u: int| 0 <= u < t ==> seen@[u]@ != c@,
                    i < items@.len(),
                    *item == items@[i as int],
                    k < item.local_points@.len(),
                    c@ == cell_at(items@[i as int], k as int),
                    grid.holds(c@),
                    seen_matches(items@, seen@, src, at, i as int, k as int),
                    legal_before(items@, *grid, i as int, k as int),
                decreases seen@.len() - t,
            {
                if seen[t] == c {
                    let ghost o = src[t as int];
                    assert(claimed_before(items@, o.0, o.1, i as int, k as int));
                    assert(is_claim(items@, o.0, o.1));
                    assert(o != (i as int, k as int));
                    assert(seen@[t as int]@ == c@);
                    assert(cell_at(items@[o.0], o.1) == cell_at(items@[i as int], k as int));
                    assert(is_claim(items@, i as int, k as int));
                    assert(!arrangement_valid(items@, *grid));
                    return false;
                }
                t = t + 1;
            }
            seen.push(c);
            proof {
                let ghost old_src = src;
                let ghost old_at = at;
                src = src.push((i as int, k as int));
                at = at.insert((i as int, k as int), (seen@.len() - 1) as int);
                assert forall|j: int, m: int| #[trigger]
                    claimed_before(items@, j, m, i as int, k + 1) implies at.contains_key((j, m))
                    && 0 <= at[(j, m)] < seen@.len() && seen@[at[(j, m)]]@ == cell_at(items@[j], m) by {
                    if (j, m) != (i as int, k as int) {
                        assert(claimed_before(items@, j, m, i as int, k as int));
                    }
                }
                assert forall|t2: int|
                    0 <= t2 < seen@.len() implies claimed_before(items@, #[trigger] src[t2].0, src[t2].1, i as int, k + 1)
                    && seen@[t2]@ == cell_at(items@[src[t2].0], src[t2].1) by {
                    if t2 < seen@.len() - 1 {
                        assert(claimed_before(items@, old_src[t2].0, old_src[t2].1, i as int, k as int));
                    }
                }
                assert forall|j: int, m: int, j2: int, m2: int|
                    #[trigger] claimed_before(items@, j, m, i as int, k + 1) && #[trigger] claimed_before(items@, j2, m2, i as int, k + 1)
                        && (j, m) != (j2, m2) implies cell_at(items@[j], m) != cell_at(items@[j2], m2) by {
                    if (j, m) == (i as int, k as int) {
                        assert(claimed_before(items@, j2, m2, i as int, k as int));
                        assert(seen@[old_at[(j2, m2)]]@ == cell_at(items@[j2], m2));
                    } else if (j2, m2) == (i as int, k as int) {
                        assert(claimed_before(items@, j, m, i as int, k as int));
                        assert(seen@[old_at[(j, m)]]@ == cell_at(items@[j], m));
                    } else {
                        assert(claimed_before(items@, j, m, i as int, k as int));
                        assert(claimed_before(items@, j2, m2, i as int, k as int));
                    }
                }
                assert forall|j: int, m: int| #[trigger]
                    claimed_before(items@, j, m, i as int, k + 1) implies grid.holds(cell_at(items@[j], m)) by {
                    if (j, m) != (i as int, k as int) {
                        assert(claimed_before(items@, j, m, i as int, k as int));
                    }
                }
            }
            k = k + 1;
        }
        proof {
            lemma_next_item(items@, *grid, seen@, src, at, i as int);
        }
        i = i + 1;
    }
    proof {
        assert forall|j: int, m: int| #[trigger] is_claim(items@, j, m) implies claimed_before(items@, j, m, i as int, 0) by {}
    }
    true
}

/// A cell outside the bag makes the arrangement illegal.
pub proof fn lemma_outside_cell_invalid(items: Seq<InventoryItem>, grid: Grid, i: int, k: int)
    requires
        is_claim(items, i, k),
        !grid.holds(cell_at(items[i], k)),
    ensures
        !arrangement_valid(items, grid),
{
}

/// A cell claimed twice makes the arrangement illegal.
pub proof fn lemma_shared_cell_invalid(
    items: Seq<InventoryItem>,
    grid: Grid,
    i: int,
    k: int,
    j: int,
    m: int,
)
    requires
        is_claim(items, i, k),
        is_claim(items, j, m),
        (i, k) != (j, m),
        cell_at(items[i], k) == cell_at(items[j], m),
    ensures
        !arrangement_valid(items, grid),
{
}

/// With no cell outside the bag and no cell claimed twice, the arrangement
/// is legal again: legality depends on the cells as they stand, not on
/// how they got there.
pub proof fn lemma_clear_cells_valid(items: Seq<InventoryItem>, grid: Grid)
    requires
        forall|i: int, k: int| is_claim(items, i, k) ==> grid.holds(#[trigger] cell_at(items[i], k)),
        forall|i: int, k: int, j: int, m: int|
            is_claim(items, i, k) && is_claim(items, j, m) && (i, k) != (j, m) ==> #[trigger] cell_at(items[i], k)
                != #[trigger] cell_at(items[j], m),
    ensures
        arrangement_valid(items, grid),
{
}

} // verus!
