//! A cell-by-cell picture of the bag: which item, if any, fills each cell.
use vstd::prelude::*;
use crate::geometry::{IVec3, Point};
use crate::item::{InventoryItem, occupies};

verus! {

/// The first item, in order, that occupies `c`; none if no item does.
pub open spec fn first_occupant(items: Seq<InventoryItem>, c: Point) -> Option<usize> {
    if exists|i: int| 0 <= i < items.len() && #[trigger] occupies(items[i], c) {
        let i = choose|i: int|
            0 <= i < items.len() && #[trigger] occupies(items[i], c) && forall|j: int|
                0 <= j < i ==> !#[trigger] occupies(items[j], c);
        Some(i as usize)
    } else {
        None
    }
}

/// `n` if it is positive, else zero.
pub open spec fn extent(n: i32) -> int {
    if n > 0 { n as int } else { 0 }
}

/// The occupancy of the bag, indexed by x, then y, then z.
pub struct InventoryData {
    pub grid: Vec<Vec<Vec<Option<usize>>>>,
}

/// The first item of `items` that occupies `cell`.
fn occupant(items: &Vec<InventoryItem>, cell: IVec3) -> (r: Option<usize>)
    ensures
        match r {
            Some(i) => i < items@.len() && occupies(items@[i as int], cell@) && forall|j: int|
                0 <= j < i ==> !#[trigger] occupies(items@[j], cell@),
            None => forall|j: int| 0 <= j < items@.len() ==> !#[trigger] occupies(items@[j], cell@),
        },
{
    let mut i: usize = 0;
    while i < items.len()
        invariant
            i <= items@.len(),
            forall|j: int| 0 <= j < i ==> !#[trigger] occupies(items@[j], cell@),
        decreases items@.len() - i,
    {
        if items[i].intersects(cell) {
            return Some(i);
        }
        i = i + 1;
    }
    None
}

proof fn lemma_first_occupant(items: Seq<InventoryItem>, c: Point, r: Option<usize>)
    requires
        match r {
            Some(i) => i < items.len() && occupies(items[i as int], c) && forall|j: int|
                0 <= j < i ==> !#[trigger] occupies(items[j], c),
            None => forall|j: int| 0 <= j < items.len() ==> !#[trigger] occupies(items[j], c),
        },
    ensures
        r == first_occupant(items, c),
{
    match r {
        Some(i) => {
            assert(occupies(items[i as int], c));
            let w = choose|w: int|
                0 <= w < items.len() && #[trigger] occupies(items[w], c) && forall|j: int|
                    0 <= j < w ==> !#[trigger] occupies(items[j], c);
            assert(0 <= w < items.len() && occupies(items[w], c));
            if w < i {
                assert(!occupies(items[w], c));
            } else if w > i {
                assert(!occupies(items[i as int], c));
            }
        },
        None => {},
    }
}

impl InventoryData {
    /// For every cell of the box `[0, size.x) x [0, size.y) x [0, size.z)`,
    /// the first item that occupies it.
    pub fn grid_from_items(items: &Vec<InventoryItem>, grid_size: IVec3) -> (r: Vec<Vec<Vec<Option<usize>>>>)
        ensures
            r@.len() == extent(grid_size.x),
            forall|x: int| 0 <= x < r@.len() ==> #[trigger] r@[x]@.len() == extent(grid_size.y),
            forall|x: int, y: int|
                0 <= x < r@.len() && 0 <= y < r@[x]@.len() ==> #[trigger] r@[x]@[y]@.len() == extent(grid_size.z),
            forall|x: int, y: int, z: int|
                0 <= x < r@.len() && 0 <= y < r@[x]@.len() && 0 <= z < r@[x]@[y]@.len()
                    ==> #[trigger] r@[x]@[y]@[z] == first_occupant(items@, (x, y, z)),
    {
        let mut item_grid: Vec<Vec<Vec<Option<usize>>>> = Vec::new();
        let mut x: i32 = 0;
        while x < grid_size.x
            invariant
                0 <= x,
                x as int <= extent(grid_size.x),
                item_grid@.len() == x,
                forall|a: int| 0 <= a < x ==> #[trigger] item_grid@[a]@.len() == extent(grid_size.y),
                forall|a: int, b: int|
                    0 <= a < x && 0 <= b < extent(grid_size.y) ==> #[trigger] item_grid@[a]@[b]@.len() == extent(grid_size.z),
                forall|a: int, b: int, c: int|
                    0 <= a < x && 0 <= b < extent(grid_size.y) && 0 <= c < extent(grid_size.z)
                        ==> #[trigger] item_grid@[a]@[b]@[c] == first_occupant(items@, (a, b, c)),
            decreases grid_size.x - x,
        {
            let mut rows: Vec<Vec<Option<usize>>> = Vec::new();
            let mut y: i32 = 0;
            while y < grid_size.y
                invariant
                    0 <= x < grid_size.x,
                    0 <= y,
                    y as int <= extent(grid_size.y),
                    rows@.len() == y,
                    forall|b: int| 0 <= b < y ==> #[trigger] rows@[b]@.len() == extent(grid_size.z),
                    forall|b: int, c: int|
                        0 <= b < y && 0 <= c < extent(grid_size.z) ==> #[trigger] rows@[b]@[c] == first_occupant(
                            items@,
                            (x as int, b, c),
                        ),
                decreases grid_size.y - y,
            {
                let mut cols: Vec<Option<usize>> = Vec::new();
                let mut z: i32 = 0;
                while z < grid_size.z
                    invariant
                        0 <= x < grid_size.x,
                        0 <= y < grid_size.y,
                        0 <= z,
                        z as int <= extent(grid_size.z),
                        cols@.len() == z,
                        forall|c: int| 0 <= c < z ==> #[trigger] cols@[c] == first_occupant(
                            items@,
                            (x as int, y as int, c),
                        ),
                    decreases grid_size.z - z,
                {
                    let cell = IVec3 { x, y, z };
                    let found = occupant(items, cell);
                    proof {
                        assert(cell@ == (x as int, y as int, z as int));
                        lemma_first_occupant(items@, cell@, found);
                    }
                    cols.push(found);
                    z = z + 1;
                }
                rows.push(cols);
                y = y + 1;
            }
            item_grid.push(rows);
            x = x + 1;
        }
        item_grid
    }
}

} // verus!
