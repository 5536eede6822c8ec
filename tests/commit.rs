use voxel_bag::commit::commit_keep;
use voxel_bag::geometry::IVec3;
use voxel_bag::grid::Grid;
use voxel_bag::item::{InventoryItem, ItemType, ItemTypeId};
use voxel_bag::session::InventorySession;
use voxel_bag::validity::is_arrangement_valid;

fn v(x: i32, y: i32, z: i32) -> IVec3 {
    IVec3::new(x, y, z)
}

fn item(loc: IVec3, points: Vec<IVec3>, id: ItemTypeId) -> InventoryItem {
    InventoryItem::new(loc, points, ItemType::NonWeapon, id)
}

fn bar(loc: IVec3) -> InventoryItem {
    item(loc, vec![v(0, 0, 0), v(1, 0, 0), v(2, 0, 0)], ItemTypeId::Heart)
}

#[test]
fn commit_keeps_three_disjoint_items_unchanged() {
    let items = vec![bar(v(0, 0, 0)), bar(v(0, 1, 0)), bar(v(3, 0, 4))];
    let grid = Grid::default_bag();
    assert!(is_arrangement_valid(&items, &grid));
    let session = InventorySession::begin_session(items, grid);
    let kept = session.end_session();
    assert_eq!(kept.len(), 3);
    assert_eq!(kept[0].location, v(0, 0, 0));
    assert_eq!(kept[1].location, v(0, 1, 0));
    assert_eq!(kept[2].location, v(3, 0, 4));
    for k in &kept {
        assert_eq!(k.local_points, vec![v(0, 0, 0), v(1, 0, 0), v(2, 0, 0)]);
    }
}

#[test]
fn commit_evicts_both_items_that_share_one_cell() {
    let items = vec![bar(v(0, 0, 0)), item(v(2, 0, 0), vec![v(0, 0, 0), v(0, 0, 1)], ItemTypeId::Heart)];
    let grid = Grid::default_bag();
    assert!(!is_arrangement_valid(&items, &grid));
    assert_eq!(commit_keep(&items, &grid), vec![false, false]);
    let kept = InventorySession::begin_session(items, grid).end_session();
    assert!(kept.is_empty());
}

#[test]
fn commit_drops_an_item_outside_the_bag_without_conflict() {
    let items = vec![bar(v(5, 0, 0)), bar(v(0, 0, 6))];
    let grid = Grid::default_bag();
    assert_eq!(commit_keep(&items, &grid), vec![false, true]);
    let kept = InventorySession::begin_session(items, grid).end_session();
    assert_eq!(kept.len(), 1);
    assert_eq!(kept[0].location, v(0, 0, 6));
}

#[test]
fn commit_below_zero_is_outside() {
    let items = vec![bar(v(-1, 0, 0)), bar(v(0, 0, 0)), bar(v(0, -1, 3))];
    assert_eq!(commit_keep(&items, &Grid::default_bag()), vec![false, false, false]);
}

#[test]
fn commit_third_claimant_evicts_the_first_owner_again() {
    let items = vec![
        bar(v(0, 0, 0)),
        item(v(1, 0, 0), vec![v(0, 0, 0)], ItemTypeId::Heart),
        item(v(1, 0, 0), vec![v(0, 0, 0)], ItemTypeId::Heart),
        bar(v(0, 0, 5)),
    ];
    assert_eq!(commit_keep(&items, &Grid::default_bag()), vec![false, false, false, true]);
}

#[test]
fn commit_evicts_an_item_that_repeats_its_own_offset() {
    let items = vec![item(v(0, 0, 0), vec![v(1, 0, 1), v(1, 0, 1)], ItemTypeId::Heart), bar(v(0, 1, 0))];
    assert_eq!(commit_keep(&items, &Grid::default_bag()), vec![false, true]);
}

#[test]
fn commit_keeps_rotated_footprint_as_it_stands() {
    let mut a = bar(v(3, 0, 3));
    a.rotate(true);
    let items = vec![a];
    let kept = InventorySession::begin_session(items, Grid::default_bag()).end_session();
    assert_eq!(kept.len(), 1);
    assert_eq!(kept[0].local_points, vec![v(0, 0, 0), v(0, 0, -1), v(0, 0, -2)]);
    assert_eq!(kept[0].original_points, vec![v(0, 0, 0), v(1, 0, 0), v(2, 0, 0)]);
}

#[test]
fn commit_of_nothing_is_nothing() {
    let items: Vec<InventoryItem> = Vec::new();
    assert!(commit_keep(&items, &Grid::default_bag()).is_empty());
    assert!(InventorySession::begin_session(items, Grid::default_bag()).end_session().is_empty());
}

#[test]
fn validity_flips_with_an_outside_cell_and_back() {
    let grid = Grid::new(3, 1, 3);
    let mut items = vec![bar(v(0, 0, 0))];
    assert!(is_arrangement_valid(&items, &grid));
    items[0].translate(v(1, 0, 0));
    assert!(!is_arrangement_valid(&items, &grid));
    items[0].translate(v(-1, 0, 0));
    assert!(is_arrangement_valid(&items, &grid));
}

#[test]
fn validity_flips_with_a_shared_cell_and_back() {
    let grid = Grid::default_bag();
    let mut items = vec![bar(v(0, 0, 0)), bar(v(0, 0, 1))];
    assert!(is_arrangement_valid(&items, &grid));
    items[1].translate(v(0, 0, -1));
    assert!(!is_arrangement_valid(&items, &grid));
    items[1].translate(v(0, 0, 1));
    assert!(is_arrangement_valid(&items, &grid));
}

#[test]
fn empty_bag_is_valid() {
    let items: Vec<InventoryItem> = Vec::new();
    assert!(is_arrangement_valid(&items, &Grid::default_bag()));
}

#[test]
fn grid_bounds_are_half_open() {
    let grid = Grid::default_bag();
    assert_eq!((grid.width, grid.height, grid.depth), (7, 2, 7));
    assert!(grid.in_bounds(v(0, 0, 0)));
    assert!(grid.in_bounds(v(6, 1, 6)));
    assert!(!grid.in_bounds(v(7, 0, 0)));
    assert!(!grid.in_bounds(v(0, 2, 0)));
    assert!(!grid.in_bounds(v(0, 0, 7)));
    assert!(!grid.in_bounds(v(0, 0, -1)));
}
