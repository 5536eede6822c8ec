//! A creature's health.
use vstd::prelude::*;

verus! {

/// Current and maximum hit points.
pub struct Health {
    current_hp: i32,
    max_hp: i32,
}

} // verus!
