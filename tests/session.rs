use voxel_bag::direction::{ItemDirection, RotateGesture};
use voxel_bag::geometry::IVec3;
use voxel_bag::grid::Grid;
use voxel_bag::item::{InventoryItem, ItemType, ItemTypeId};
use voxel_bag::occupancy::InventoryData;
use voxel_bag::session::{Command, InventorySession, has_weapon_duplicates, move_item};

fn v(x: i32, y: i32, z: i32) -> IVec3 {
    IVec3::new(x, y, z)
}

fn two_items() -> Vec<InventoryItem> {
    vec![
        InventoryItem::new(v(0, 0, 0), vec![v(0, 0, 0), v(1, 0, 0)], ItemType::NonWeapon, ItemTypeId::Heart),
        InventoryItem::new(v(4, 0, 4), vec![v(0, 0, 0), v(0, 0, 1)], ItemType::MeleeWeapon, ItemTypeId::WillSword),
    ]
}

#[test]
fn session_starts_on_the_last_item_and_first_view() {
    let s = InventorySession::begin_session(two_items(), Grid::default_bag());
    assert_eq!(s.selected, Some(1));
    assert_eq!(s.view_index, 0);
    let empty = InventorySession::begin_session(Vec::new(), Grid::default_bag());
    assert_eq!(empty.selected, None);
}

#[test]
fn select_next_wraps_and_stays_empty_without_items() {
    let mut s = InventorySession::begin_session(two_items(), Grid::default_bag());
    s.select_next();
    assert_eq!(s.selected, Some(0));
    s.select_next();
    assert_eq!(s.selected, Some(1));
    let mut e = InventorySession::begin_session(Vec::new(), Grid::default_bag());
    e.select_next();
    assert_eq!(e.selected, None);
}

#[test]
fn moves_touch_only_the_selected_item() {
    let mut s = InventorySession::begin_session(two_items(), Grid::default_bag());
    s.select_next();
    assert_eq!(s.selected, Some(0));
    s.move_selected(ItemDirection::Up);
    assert_eq!(s.items[0].location, v(0, 1, 0));
    assert_eq!(s.items[1].location, v(4, 0, 4));
    s.select_next();
    s.move_selected(ItemDirection::Forward);
    assert_eq!(s.items[0].location, v(0, 1, 0));
    assert_eq!(s.items[1].location, v(3, 0, 4));
}

#[test]
fn rotations_touch_only_the_selected_item() {
    let mut s = InventorySession::begin_session(two_items(), Grid::default_bag());
    s.rotate_selected(RotateGesture::YawLeft);
    assert_eq!(s.items[1].local_points, vec![v(0, 0, 0), v(1, 0, 0)]);
    assert_eq!(s.items[0].local_points, vec![v(0, 0, 0), v(1, 0, 0)]);
    assert!(!s.items[0].changed);
    assert!(s.items[1].changed);
}

#[test]
fn dispatcher_routes_each_command() {
    let mut s = InventorySession::begin_session(two_items(), Grid::default_bag());
    s.apply(Command::ViewRight);
    assert_eq!(s.view_index, 1);
    s.apply(Command::Move(ItemDirection::Forward));
    assert_eq!(s.items[1].location, v(4, 0, 3));
    s.apply(Command::ViewLeft);
    s.apply(Command::ViewLeft);
    assert_eq!(s.view_index, 3);
    s.apply(Command::Move(ItemDirection::Right));
    assert_eq!(s.items[1].location, v(3, 0, 3));
    s.apply(Command::SelectNext);
    assert_eq!(s.selected, Some(0));
    s.apply(Command::Rotate(RotateGesture::PitchForward));
    // view 3: pitch forward is a counterclockwise turn about X
    assert_eq!(s.items[0].local_points, vec![v(0, 0, 0), v(1, 0, 0)]);
    s.apply(Command::Move(ItemDirection::Down));
    assert_eq!(s.items[0].location, v(0, -1, 0));
    assert!(!s.is_valid());
    s.apply(Command::Move(ItemDirection::Up));
    assert!(s.is_valid());
}

#[test]
fn pitch_from_view_zero_turns_about_z() {
    let items = vec![InventoryItem::new(v(3, 0, 3), vec![v(1, 0, 0)], ItemType::NonWeapon, ItemTypeId::Heart)];
    let mut s = InventorySession::begin_session(items, Grid::default_bag());
    s.rotate_selected(RotateGesture::PitchForward);
    assert_eq!(s.items[0].local_points, vec![v(0, 1, 0)]);
    s.rotate_selected(RotateGesture::PitchBackwards);
    assert_eq!(s.items[0].local_points, vec![v(1, 0, 0)]);
}

#[test]
fn move_item_uses_the_view() {
    let mut it = InventoryItem::new(v(3, 0, 3), vec![v(0, 0, 0)], ItemType::NonWeapon, ItemTypeId::Heart);
    move_item(&mut it, ItemDirection::Left, 0);
    assert_eq!(it.location, v(3, 0, 4));
    move_item(&mut it, ItemDirection::Backwards, 2);
    assert_eq!(it.location, v(2, 0, 4));
    move_item(&mut it, ItemDirection::Forward, 0);
    assert_eq!(it.location, v(1, 0, 4));
}

#[test]
fn two_weapons_of_one_kind_are_detected() {
    let mut items = two_items();
    assert!(!has_weapon_duplicates(&items));
    items.push(InventoryItem::new(v(0, 1, 0), vec![v(0, 0, 0)], ItemType::MeleeWeapon, ItemTypeId::WillSword));
    assert!(has_weapon_duplicates(&items));
}

#[test]
fn non_weapons_may_repeat_their_kind() {
    let mut items = two_items();
    items.push(InventoryItem::new(v(0, 1, 0), vec![v(0, 0, 0)], ItemType::NonWeapon, ItemTypeId::Heart));
    assert!(!has_weapon_duplicates(&items));
    items.push(InventoryItem::new(v(0, 1, 1), vec![v(0, 0, 0)], ItemType::RangedWeapon, ItemTypeId::Heart));
    assert!(!has_weapon_duplicates(&items));
}

#[test]
fn occupancy_grid_names_the_first_item_in_each_cell() {
    let items = vec![
        InventoryItem::new(v(0, 0, 0), vec![v(0, 0, 0), v(1, 0, 0)], ItemType::NonWeapon, ItemTypeId::Heart),
        InventoryItem::new(v(1, 0, 0), vec![v(0, 0, 0), v(0, 1, 0)], ItemType::NonWeapon, ItemTypeId::Heart),
    ];
    let g = InventoryData::grid_from_items(&items, v(3, 2, 1));
    assert_eq!(g.len(), 3);
    assert_eq!(g[0].len(), 2);
    assert_eq!(g[0][0].len(), 1);
    assert_eq!(g[0][0][0], Some(0));
    assert_eq!(g[1][0][0], Some(0));
    assert_eq!(g[1][1][0], Some(1));
    assert_eq!(g[2][0][0], None);
    assert_eq!(g[0][1][0], None);
    let none = InventoryData::grid_from_items(&items, v(-1, 2, 2));
    assert!(none.is_empty());
}
