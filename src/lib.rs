//! Voxel bag packing: items with integer voxel footprints arranged in a
//! bounded three-dimensional grid, edited one at a time from one of four
//! camera orientations, and committed into a kept / lost partition.
pub mod geometry;
pub mod item;
pub mod grid;
pub mod validity;
pub mod commit;
pub mod direction;
pub mod session;
pub mod occupancy;
pub mod health;
