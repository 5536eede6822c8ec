use voxel_bag::geometry::{Axis, IVec3};
use voxel_bag::item::{InventoryItem, ItemType, ItemTypeId};

fn v(x: i32, y: i32, z: i32) -> IVec3 {
    IVec3::new(x, y, z)
}

fn sword() -> InventoryItem {
    InventoryItem::new(
        v(5, 0, 2),
        vec![v(0, 0, 0), v(0, 0, 1), v(0, 0, 2), v(1, 0, 0), v(-1, 0, 0), v(0, 0, -1)],
        ItemType::MeleeWeapon,
        ItemTypeId::WillSword,
    )
}

#[test]
fn new_item_starts_from_its_footprint() {
    let item = sword();
    assert_eq!(item.location, v(5, 0, 2));
    assert_eq!(item.local_points, item.original_points);
    assert!(!item.changed);
    assert_eq!(item.hp_gain, 0);
    assert_eq!(item.attack_damage_gain, 0);
    assert_eq!(item.weapon_damage, 1);
    assert!(!item.weapon_is_auto);
    assert_eq!(item.item_type, ItemType::MeleeWeapon);
    assert_eq!(item.item_type_id, ItemTypeId::WillSword);
}

#[test]
fn yaw_quarter_turns_are_exact() {
    let mut item = InventoryItem::new(v(0, 0, 0), vec![v(1, 0, 0), v(5, 0, 1), v(2, 3, -4)], ItemType::NonWeapon, ItemTypeId::Heart);
    item.rotate(true);
    assert_eq!(item.local_points, vec![v(0, 0, -1), v(1, 0, -5), v(-4, 3, -2)]);
    item.rotate(false);
    assert_eq!(item.local_points, vec![v(1, 0, 0), v(5, 0, 1), v(2, 3, -4)]);
    item.rotate(false);
    assert_eq!(item.local_points, vec![v(0, 0, 1), v(-1, 0, 5), v(4, 3, 2)]);
}

#[test]
fn pitch_and_roll_quarter_turns_are_exact() {
    let mut item = InventoryItem::new(v(0, 0, 0), vec![v(1, 2, 3)], ItemType::NonWeapon, ItemTypeId::Heart);
    item.rotate_about(Axis::X, true);
    assert_eq!(item.local_points, vec![v(1, -3, 2)]);
    item.rotate_about(Axis::X, false);
    assert_eq!(item.local_points, vec![v(1, 2, 3)]);
    item.rotate_about(Axis::Z, true);
    assert_eq!(item.local_points, vec![v(-2, 1, 3)]);
    item.rotate_about(Axis::Z, false);
    item.rotate_about(Axis::Z, false);
    assert_eq!(item.local_points, vec![v(2, -1, 3)]);
}

#[test]
fn four_forty_and_four_hundred_turns_give_the_footprint_back() {
    for axis in [Axis::X, Axis::Y, Axis::Z] {
        for ccw in [true, false] {
            for turns in [4, 40, 400] {
                let mut item = sword();
                for _ in 0..turns {
                    item.rotate_about(axis, ccw);
                }
                assert_eq!(item.local_points, item.original_points);
                assert_eq!(item.location, v(5, 0, 2));
            }
        }
    }
}

#[test]
fn mixed_turns_follow_the_cumulative_rotation() {
    let mut item = InventoryItem::new(v(0, 0, 0), vec![v(1, 2, 3)], ItemType::NonWeapon, ItemTypeId::Heart);
    item.rotate_about(Axis::Y, true);
    item.rotate_about(Axis::X, false);
    item.rotate_about(Axis::Z, true);
    // (1,2,3) -Y ccw-> (3,2,-1) -X cw-> (3,-1,-2) -Z ccw-> (1,3,-2)
    assert_eq!(item.local_points, vec![v(1, 3, -2)]);
    assert!(item.changed);
}

#[test]
fn rotation_keeps_location_and_translation_keeps_footprint() {
    let mut item = sword();
    item.rotate(true);
    assert_eq!(item.location, v(5, 0, 2));
    let points = item.local_points.clone();
    item.translate(v(-2, 1, 3));
    assert_eq!(item.location, v(3, 1, 5));
    assert_eq!(item.local_points, points);
}

#[test]
fn intersects_tests_cell_minus_location() {
    let item = InventoryItem::new(v(2, 0, 3), vec![v(0, 0, 0), v(1, 0, 0), v(0, 1, 2)], ItemType::NonWeapon, ItemTypeId::Heart);
    assert!(item.intersects(v(2, 0, 3)));
    assert!(item.intersects(v(3, 0, 3)));
    assert!(item.intersects(v(2, 1, 5)));
    assert!(!item.intersects(v(1, 0, 3)));
    assert!(!item.intersects(v(0, 1, 2)));
    let empty = InventoryItem::new(v(0, 0, 0), vec![], ItemType::NonWeapon, ItemTypeId::Heart);
    assert!(!empty.intersects(v(0, 0, 0)));
}

#[test]
fn cell_adds_location_and_offset() {
    let item = InventoryItem::new(v(i32::MAX, 0, -3), vec![v(1, -1, 2)], ItemType::NonWeapon, ItemTypeId::Heart);
    let c = item.cell(0);
    assert_eq!((c.x, c.y, c.z), (i32::MAX as i64 + 1, -1, -1));
}
