//! The commit at the end of a packing session: which items are kept.
//!
//! Items are walked in order, and each item's cells in order. A cell outside
//! the bag drops its item. A cell that an earlier claim already owns drops
//! both the item and that owner: the eviction is mutual, not first-wins.
use vstd::prelude::*;
use crate::geometry::GridCell;
use crate::grid::Grid;
use crate::item::{InventoryItem, cell_at};
use crate::validity::{arrangement_valid, claimed_before, is_claim};

verus! {

/// Item `j` survives the commit: each of its cells lies in the bag, and no
/// other claim, of any item, names one of its cells.
pub open spec fn kept(items: Seq<InventoryItem>, grid: Grid, j: int) -> bool {
    &&& forall|m: int| #[trigger] is_claim(items, j, m) ==> grid.holds(cell_at(items[j], m))
    &&& forall|m: int, j2: int, m2: int|
        #[trigger] is_claim(items, j, m) && #[trigger] is_claim(items, j2, m2) && (j, m) != (j2, m2)
            ==> cell_at(items[j], m) != cell_at(items[j2], m2)
}

/// The kept flag of every item, in order.
pub open spec fn kept_flags(items: Seq<InventoryItem>, grid: Grid) -> Seq<bool> {
    Seq::new(items.len(), |j: int| kept(items, grid, j))
}

/// What `kept` says when only the claims before `(i, k)` have been seen.
spec fn kept_before(items: Seq<InventoryItem>, grid: Grid, j: int, i: int, k: int) -> bool {
    &&& forall|m: int| #[trigger]
        claimed_before(items, j, m, i, k) ==> grid.holds(cell_at(items[j], m))
    &&& forall|m: int, j2: int, m2: int|
        #[trigger] claimed_before(items, j, m, i, k) && #[trigger] claimed_before(items, j2, m2, i, k)
            && (j, m) != (j2, m2) ==> cell_at(items[j], m) != cell_at(items[j2], m2)
}

/// `owners` holds one entry for each cell inside the bag that a claim before
/// `(i, k)` names: the cell and the item of a claim that names it.
spec fn owners_match(
    items: Seq<InventoryItem>,
    grid: Grid,
    owners: Seq<(GridCell, usize)>,
    src: Seq<(int, int)>,
    at: Map<(int, int), int>,
    i: int,
    k: int,
) -> bool {
    &&& src.len() == owners.len()
    &&& forall|t: int|
        0 <= t < owners.len() ==> claimed_before(items, #[trigger] src[t].0, src[t].1, i, k)
            && owners[t].0@ == cell_at(items[src[t].0], src[t].1) && owners[t].1 as int == src[t].0
    &&& forall|j: int, m: int| #[trigger]
        claimed_before(items, j, m, i, k) && grid.holds(cell_at(items[j], m)) ==> at.contains_key(
            (j, m),
        ) && 0 <= at[(j, m)] < owners.len() && owners[at[(j, m)]].0@ == cell_at(items[j], m)
}

proof fn lemma_before_grows(items: Seq<InventoryItem>, i: int, k: int)
    ensures
        forall|j: int, m: int| #[trigger]
            claimed_before(items, j, m, i, k) ==> claimed_before(items, j, m, i, k + 1),
{
}

proof fn lemma_claim_outside(items: Seq<InventoryItem>, grid: Grid, i: int, k: int, j: int)
    requires
        is_claim(items, i, k),
        !grid.holds(cell_at(items[i], k)),
    ensures
        kept_before(items, grid, j, i, k + 1) == (j != i && kept_before(items, grid, j, i, k)),
{
    lemma_before_grows(items, i, k);
    if j == i {
        assert(claimed_before(items, i, k, i, k + 1));
    } else if kept_before(items, grid, j, i, k) {
        assert forall|m: int| #[trigger] claimed_before(items, j, m, i, k + 1) implies grid.holds(
            cell_at(items[j], m),
        ) by {
            assert(claimed_before(items, j, m, i, k));
        }
        assert forall|m: int, j2: int, m2: int|
            #[trigger] claimed_before(items, j, m, i, k + 1) && #[trigger] claimed_before(items, j2, m2, i, k + 1)
                && (j, m) != (j2, m2) implies cell_at(items[j], m) != cell_at(items[j2], m2) by {
            assert(claimed_before(items, j, m, i, k));
            if (j2, m2) != (i, k) {
                assert(claimed_before(items, j2, m2, i, k));
            }
        }
    }
}

proof fn lemma_claim_clash(
    items: Seq<InventoryItem>,
    grid: Grid,
    i: int,
    k: int,
    o: int,
    mo: int,
    j: int,
)
    requires
        is_claim(items, i, k),
        claimed_before(items, o, mo, i, k),
        cell_at(items[o], mo) == cell_at(items[i], k),
    ensures
        kept_before(items, grid, j, i, k + 1) == (j != i && j != o && kept_before(items, grid, j, i, k)),
{
    lemma_before_grows(items, i, k);
    assert(claimed_before(items, i, k, i, k + 1));
    assert(claimed_before(items, o, mo, i, k + 1));
    if j != i && j != o && kept_before(items, grid, j, i, k) {
        assert forall|m: int| #[trigger] claimed_before(items, j, m, i, k + 1) implies grid.holds(
            cell_at(items[j], m),
        ) by {
            assert(claimed_before(items, j, m, i, k));
        }
        assert forall|m: int, j2: int, m2: int|
            #[trigger] claimed_before(items, j, m, i, k + 1) && #[trigger] claimed_before(items, j2, m2, i, k + 1)
                && (j, m) != (j2, m2) implies cell_at(items[j], m) != cell_at(items[j2], m2) by {
            assert(claimed_before(items, j, m, i, k));
            if (j2, m2) != (i, k) {
                assert(claimed_before(items, j2, m2, i, k));
            } else {
                assert(claimed_before(items, o, mo, i, k));
            }
        }
    }
}

proof fn lemma_claim_fresh(items: Seq<InventoryItem>, grid: Grid, i: int, k: int, j: int)
    requires
        is_claim(items, i, k),
        grid.holds(cell_at(items[i], k)),
        forall|j2: int, m2: int| #[trigger]
            claimed_before(items, j2, m2, i, k) ==> cell_at(items[j2], m2) != cell_at(items[i], k),
    ensures
        kept_before(items, grid, j, i, k + 1) == kept_before(items, grid, j, i, k),
{
    lemma_before_grows(items, i, k);
    if kept_before(items, grid, j, i, k) {
        assert forall|m: int| #[trigger] claimed_before(items, j, m, i, k + 1) implies grid.holds(
            cell_at(items[j], m),
        ) by {
            if (j, m) != (i, k) {
                assert(claimed_before(items, j, m, i, k));
            }
        }
        assert forall|m: int, j2: int, m2: int|
            #[trigger] claimed_before(items, j, m, i, k + 1) && #[trigger] claimed_before(items, j2, m2, i, k + 1)
                && (j, m) != (j2, m2) implies cell_at(items[j], m) != cell_at(items[j2], m2) by {
            if (j, m) == (i, k) {
                assert(claimed_before(items, j2, m2, i, k));
            } else if (j2, m2) == (i, k) {
                assert(claimed_before(items, j, m, i, k));
            } else {
                assert(claimed_before(items, j, m, i, k));
                assert(claimed_before(items, j2, m2, i, k));
            }
        }
    }
}

/// `kept_before` depends on the claims seen, not on how the point reached
/// is written.
proof fn lemma_kept_before_same(
    items: Seq<InventoryItem>,
    grid: Grid,
    j: int,
    i1: int,
    k1: int,
    i2: int,
    k2: int,
)
    requires
        forall|j2: int, m2: int|
            #[trigger] claimed_before(items, j2, m2, i1, k1) == #[trigger] claimed_before(items, j2, m2, i2, k2),
    ensures
        kept_before(items, grid, j, i1, k1) == kept_before(items, grid, j, i2, k2),
{
    if kept_before(items, grid, j, i1, k1) {
        assert forall|m: int| #[trigger] claimed_before(items, j, m, i2, k2) implies grid.holds(
            cell_at(items[j], m),
        ) by {
            assert(claimed_before(items, j, m, i1, k1));
        }
        assert forall|m: int, j2: int, m2: int|
            #[trigger] claimed_before(items, j, m, i2, k2) && #[trigger] claimed_before(items, j2, m2, i2, k2)
                && (j, m) != (j2, m2) implies cell_at(items[j], m) != cell_at(items[j2], m2) by {
            assert(claimed_before(items, j, m, i1, k1));
            assert(claimed_before(items, j2, m2, i1, k1));
        }
    }
    if kept_before(items, grid, j, i2, k2) {
        assert forall|m: int| #[trigger] claimed_before(items, j, m, i1, k1) implies grid.holds(
            cell_at(items[j], m),
        ) by {
            assert(claimed_before(items, j, m, i2, k2));
        }
        assert forall|m: int, j2: int, m2: int|
            #[trigger] claimed_before(items, j, m, i1, k1) && #[trigger] claimed_before(items, j2, m2, i1, k1)
                && (j, m) != (j2, m2) implies cell_at(items[j], m) != cell_at(items[j2], m2) by {
            assert(claimed_before(items, j, m, i2, k2));
            assert(claimed_before(items, j2, m2, i2, k2));
        }
    }
}

/// Having walked every offset of item `i` is having reached item `i + 1`.
proof fn lemma_commit_next_item(
    items: Seq<InventoryItem>,
    grid: Grid,
    owners: Seq<(GridCell, usize)>,
    src: Seq<(int, int)>,
    at: Map<(int, int), int>,
    keep: Seq<bool>,
    i: int,
)
    requires
        0 <= i < items.len(),
        keep.len() == items.len(),
        owners_match(items, grid, owners, src, at, i, items[i].local_points@.len() as int),
        forall|j: int|
            0 <= j < items.len() ==> #[trigger] keep[j] == kept_before(
                items,
                grid,
                j,
                i,
                items[i].local_points@.len() as int,
            ),
    ensures
        owners_match(items, grid, owners, src, at, i + 1, 0),
        forall|j: int| 0 <= j < items.len() ==> #[trigger] keep[j] == kept_before(items, grid, j, i + 1, 0),
{
    let n = items[i].local_points@.len() as int;
    assert forall|j: int, m: int| #[trigger] claimed_before(items, j, m, i + 1, 0) == claimed_before(items, j, m, i, n) by {}
    assert forall|t: int| 0 <= t < owners.len() implies claimed_before(items, #[trigger] src[t].0, src[t].1, i + 1, 0) by {
        assert(claimed_before(items, src[t].0, src[t].1, i, n));
    }
    assert forall|j: int| 0 <= j < items.len() implies #[trigger] keep[j] == kept_before(items, grid, j, i + 1, 0) by {
        assert(keep[j] == kept_before(items, grid, j, i, n));
        lemma_kept_before_same(items, grid, j, i, n, i + 1, 0);
    }
}

/// Having walked every item, `kept_before` is `kept`.
proof fn lemma_commit_done(items: Seq<InventoryItem>, grid: Grid, j: int)
    ensures
        kept_before(items, grid, j, items.len() as int, 0) == kept(items, grid, j),
{
    let n = items.len() as int;
    if kept_before(items, grid, j, n, 0) {
        assert forall|m: int| #[trigger] is_claim(items, j, m) implies grid.holds(cell_at(items[j], m)) by {
            assert(claimed_before(items, j, m, n, 0));
        }
        assert forall|m: int, j2: int, m2: int|
            #[trigger] is_claim(items, j, m) && #[trigger] is_claim(items, j2, m2) && (j, m) != (j2, m2)
                implies cell_at(items[j], m) != cell_at(items[j2], m2) by {
            assert(claimed_before(items, j, m, n, 0));
            assert(claimed_before(items, j2, m2, n, 0));
        }
    }
    if kept(items, grid, j) {
        assert forall|m: int| #[trigger] claimed_before(items, j, m, n, 0) implies grid.holds(cell_at(items[j], m)) by {
            assert(is_claim(items, j, m));
        }
        assert forall|m: int, j2: int, m2: int|
            #[trigger] claimed_before(items, j, m, n, 0) && #[trigger] claimed_before(items, j2, m2, n, 0)
                && (j, m) != (j2, m2) implies cell_at(items[j], m) != cell_at(items[j2], m2) by {
            assert(is_claim(items, j, m));
            assert(is_claim(items, j2, m2));
        }
    }
}

/// The entry of `owners` for cell `c`, if there is one.
fn find_owner(owners: &Vec<(GridCell, usize)>, c: &GridCell) -> (r: Option<usize>)
    ensures
        match r {
            Some(t) => t < owners@.len() && owners@[t as int].0@ == c@,
            None => forall|u: int| 0 <= u < owners@.len() ==> owners@[u].0@ != c@,
        },
{
    let mut t: usize = 0;
    while t < owners.len()
        invariant
            t <= owners@.len(),
            forall|u: int| 0 <= u < t ==> owners@[u].0@ != c@,
        decreases owners@.len() - t,
    {
        if owners[t].0 == *c {
            return Some(t);
        }
        t = t + 1;
    }
    None
}

/// The commit: for each item whether it is kept, as `kept` says.
pub fn commit_keep(items: &Vec<InventoryItem>, grid: &Grid) -> (keep: Vec<bool>)
    ensures
        keep@ == kept_flags(items@, *grid),
{
    let n = items.len();
    let mut keep: Vec<bool> = Vec::new();
    let mut j: usize = 0;
    while j < n
        invariant
            n == items@.len(),
            j <= n,
            keep@.len() == j,
            forall|u: int| 0 <= u < j ==> #[trigger] keep@[u],
        decreases n - j,
    {
        keep.push(true);
        j = j + 1;
    }
    proof {
        assert forall|u: int| 0 <= u < n implies #[trigger] keep@[u] == kept_before(items@, *grid, u, 0, 0) by {}
    }
    let mut owners: Vec<(GridCell, usize)> = Vec::new();
    let ghost mut src: Seq<(int, int)> = Seq::empty();
    let ghost mut at: Map<(int, int), int> = Map::empty();
    let mut i: usize = 0;
    while i < n
        invariant
            n == items@.len(),
            i <= n,
            keep@.len() == n,
            owners_match(items@, *grid, owners@, src, at, i as int, 0),
            forall|u: int| 0 <= u < n ==> #[trigger] keep@[u] == kept_before(items@, *grid, u, i as int, 0),
        decreases n - i,
    {
        let item = &items[i];
        let mut k: usize = 0;
        while k < item.local_points.len()
            invariant
                n == items@.len(),
                i < n,
                *item == items@[i as int],
                k <= item.local_points@.len(),
                keep@.len() == n,
                owners_match(items@, *grid, owners@, src, at, i as int, k as int),
                forall|u: int|
                    0 <= u < n ==> #[trigger] keep@[u] == kept_before(items@, *grid, u, i as int, k as int),
            decreases item.local_points@.len() - k,
        {
            let c = item.cell(k);
            let ghost keep_before = keep@;
            assert(is_claim(items@, i as int, k as int));
            if !grid.contains(&c) {
                keep.set(i, false);
                proof {
                    assert forall|u: int| 0 <= u < n implies #[trigger] keep@[u] == kept_before(
                        items@,
                        *grid,
                        u,
                        i as int,
                        k + 1,
                    ) by {
                        lemma_claim_outside(items@, *grid, i as int, k as int, u);
                        assert(keep_before[u] == kept_before(items@, *grid, u, i as int, k as int));
                    }
                    lemma_before_grows(items@, i as int, k as int);
                    assert forall|t: int| 0 <= t < owners@.len() implies claimed_before(items@, #[trigger] src[t].0, src[t].1, i as int, k + 1) by {
                        assert(claimed_before(items@, src[t].0, src[t].1, i as int, k as int));
                    }
                    assert forall|j2: int, m2: int| #[trigger]
                        claimed_before(items@, j2, m2, i as int, k + 1) && grid.holds(cell_at(items@[j2], m2))
                        implies at.contains_key((j2, m2)) && 0 <= at[(j2, m2)] < owners@.len()
                        && owners@[at[(j2, m2)]].0@ == cell_at(items@[j2], m2) by {
                        if (j2, m2) != (i as int, k as int) {
                            assert(claimed_before(items@, j2, m2, i as int, k as int));
                        }
                    }
                }
            } else {
                let owner = find_owner(&owners, &c);
                let ghost owners_before = owners@;
                match owner {
                    Some(t) => {
                        let o = owners[t].1;
                        let ghost w = src[t as int];
                        assert(claimed_before(items@, w.0, w.1, i as int, k as int));
                        keep.set(i, false);
                        keep.set(o, false);
                        proof {
                            let ghost old_at = at;
                            at = at.insert((i as int, k as int), t as int);
                            assert forall|u: int| 0 <= u < n implies #[trigger] keep@[u] == kept_before(
                                items@,
                                *grid,
                                u,
                                i as int,
                                k + 1,
                            ) by {
                                lemma_claim_clash(items@, *grid, i as int, k as int, w.0, w.1, u);
                                assert(keep_before[u] == kept_before(items@, *grid, u, i as int, k as int));
                            }
                            lemma_before_grows(items@, i as int, k as int);
                            assert forall|t2: int| 0 <= t2 < owners@.len() implies claimed_before(items@, #[trigger] src[t2].0, src[t2].1, i as int, k + 1) by {
                                assert(claimed_before(items@, src[t2].0, src[t2].1, i as int, k as int));
                            }
                            assert forall|j2: int, m2: int| #[trigger]
                                claimed_before(items@, j2, m2, i as int, k + 1) && grid.holds(cell_at(items@[j2], m2))
                                implies at.contains_key((j2, m2)) && 0 <= at[(j2, m2)] < owners@.len()
                                && owners@[at[(j2, m2)]].0@ == cell_at(items@[j2], m2) by {
                                if (j2, m2) != (i as int, k as int) {
                                    assert(claimed_before(items@, j2, m2, i as int, k as int));
                                    assert(old_at.contains_key((j2, m2)));
                                }
                            }
                        }
                    },
                    None => {
                        owners.push((c, i));
                        proof {
                            let ghost old_src = src;
                            let ghost old_at = at;
                            src = src.push((i as int, k as int));
                            at = at.insert((i as int, k as int), (owners@.len() - 1) as int);
                            assert forall|j2: int, m2: int| #[trigger]
                                claimed_before(items@, j2, m2, i as int, k as int) implies cell_at(items@[j2], m2) != cell_at(items@[i as int], k as int) by {
                                if grid.holds(cell_at(items@[j2], m2)) {
                                    assert(owners_before[old_at[(j2, m2)]].0@ == cell_at(items@[j2], m2));
                                }
                            }
                            assert forall|u: int| 0 <= u < n implies #[trigger] keep@[u] == kept_before(
                                items@,
                                *grid,
                                u,
                                i as int,
                                k + 1,
                            ) by {
                                lemma_claim_fresh(items@, *grid, i as int, k as int, u);
                                assert(keep_before[u] == kept_before(items@, *grid, u, i as int, k as int));
                            }
                            assert forall|t2: int| 0 <= t2 < owners@.len() implies claimed_before(items@, #[trigger] src[t2].0, src[t2].1, i as int, k + 1)
                                && owners@[t2].0@ == cell_at(items@[src[t2].0], src[t2].1) && owners@[t2].1 as int == src[t2].0 by {
                                if t2 < owners@.len() - 1 {
                                    assert(claimed_before(items@, old_src[t2].0, old_src[t2].1, i as int, k as int));
                                }
                            }
                            assert forall|j2: int, m2: int| #[trigger]
                                claimed_before(items@, j2, m2, i as int, k + 1) && grid.holds(cell_at(items@[j2], m2))
                                implies at.contains_key((j2, m2)) && 0 <= at[(j2, m2)] < owners@.len()
                                && owners@[at[(j2, m2)]].0@ == cell_at(items@[j2], m2) by {
                                if (j2, m2) != (i as int, k as int) {
                                    assert(claimed_before(items@, j2, m2, i as int, k as int));
                                }
                            }
                        }
                    },
                }
            }
            k = k + 1;
        }
        proof {
            lemma_commit_next_item(items@, *grid, owners@, src, at, keep@, i as int);
        }
        i = i + 1;
    }
    proof {
        assert forall|u: int| 0 <= u < n implies #[trigger] keep@[u] == kept_flags(items@, *grid)[u] by {
            lemma_commit_done(items@, *grid, u);
        }
        assert(keep@ =~= kept_flags(items@, *grid));
    }
    keep
}

/// A legal arrangement loses nothing at commit, and an arrangement in which
/// every item is kept is legal.
pub proof fn lemma_valid_iff_all_kept(items: Seq<InventoryItem>, grid: Grid)
    ensures
        arrangement_valid(items, grid) <==> forall|j: int| 0 <= j < items.len() ==> #[trigger] kept(items, grid, j),
{
    if arrangement_valid(items, grid) {
        assert forall|j: int| 0 <= j < items.len() implies #[trigger] kept(items, grid, j) by {}
    }
    if forall|j: int| 0 <= j < items.len() ==> #[trigger] kept(items, grid, j) {
        assert forall|i: int, k: int| #[trigger] is_claim(items, i, k) implies grid.holds(cell_at(items[i], k)) by {
            assert(kept(items, grid, i));
        }
        assert forall|i: int, k: int, j: int, m: int|
            #[trigger] is_claim(items, i, k) && #[trigger] is_claim(items, j, m) && (i, k) != (j, m)
                implies cell_at(items[i], k) != cell_at(items[j], m) by {
            assert(kept(items, grid, i));
        }
    }
}

/// Two different items that name one cell both lose it: neither is kept,
/// whichever came first.
pub proof fn lemma_shared_cell_evicts_both(
    items: Seq<InventoryItem>,
    grid: Grid,
    i: int,
    k: int,
    j: int,
    m: int,
)
    requires
        is_claim(items, i, k),
        is_claim(items, j, m),
        i != j,
        cell_at(items[i], k) == cell_at(items[j], m),
    ensures
        !kept(items, grid, i),
        !kept(items, grid, j),
{
}

/// An item with a cell outside the bag is not kept, even with no overlap.
pub proof fn lemma_outside_cell_evicts(items: Seq<InventoryItem>, grid: Grid, i: int, k: int)
    requires
        is_claim(items, i, k),
        !grid.holds(cell_at(items[i], k)),
    ensures
        !kept(items, grid, i),
{
}

} // verus!
