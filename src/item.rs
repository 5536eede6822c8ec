//! Items and their footprints: translation, rotation and cell membership.
use vstd::prelude::*;
use crate::geometry::{
    Axis, GridCell, IVec3, Point, add_points, apply_turns, fits_i32, fits_offset,
    lemma_apply_turns_fits, lemma_turns_multiple_of_four, quarter_turn, repeated_turns,
};

verus! {

/// The category of an item.
#[derive(Clone, Copy, Debug, PartialEq, Eq, Structural, Hash)]
pub enum ItemType {
    MeleeWeapon,
    RangedWeapon,
    NonWeapon,
}

/// The kind of an item; two weapons held at once never share one.
#[derive(Clone, Copy, Debug, PartialEq, Eq, Structural, Hash)]
pub enum ItemTypeId {
    Boomerang,
    DavidGun,
    WillSword,
    MidSword,
    AlexSword,
    Heart,
}

/// An item of the bag: where its origin cell stands, the footprint it was
/// made with, and the footprint it has now after its quarter turns.
pub struct InventoryItem {
    /// The grid cell of the footprint's origin.
    pub location: IVec3,
    /// The footprint the item was created with; never changed.
    pub original_points: Vec<IVec3>,
    /// The footprint as it stands, relative to `location`.
    pub local_points: Vec<IVec3>,
    /// Set by a rotation, for whoever redraws the item.
    pub changed: bool,
    /// Health granted while the item is owned.
    pub hp_gain: i32,
    /// Attack damage granted while the item is owned.
    pub attack_damage_gain: i32,
    /// Base damage when used as a weapon.
    pub weapon_damage: i32,
    /// Whether holding the attack repeats it.
    pub weapon_is_auto: bool,
    pub item_type: ItemType,
    pub item_type_id: ItemTypeId,
    /// The quarter turns applied since creation, first to last.
    pub turns: Ghost<Seq<(Axis, bool)>>,
}

/// The absolute cell of offset `k` of `item`.
pub open spec fn cell_at(item: InventoryItem, k: int) -> Point {
    add_points(item.location@, item.local_points@[k]@)
}

/// `c` is one of the cells that `item` occupies.
pub open spec fn occupies(item: InventoryItem, c: Point) -> bool {
    exists|k: int| 0 <= k < item.local_points@.len() && #[trigger] cell_at(item, k) == c
}

impl InventoryItem {
    /// The current footprint is the original one turned by every quarter
    /// turn applied so far, and every offset can be negated exactly.
    pub open spec fn wf(&self) -> bool {
        &&& self.local_points@.len() == self.original_points@.len()
        &&& forall|k: int|
            0 <= k < self.original_points@.len() ==> fits_offset(
                #[trigger] self.original_points@[k]@,
            )
        &&& forall|k: int|
            0 <= k < self.local_points@.len() ==> #[trigger] self.local_points@[k]@
                == apply_turns(self.original_points@[k]@, self.turns@)
    }

    /// A fresh item at `location` with footprint `points`, no bonuses and a
    /// base weapon damage of one.
    pub fn new(location: IVec3, points: Vec<IVec3>, item_type: ItemType, item_type_id: ItemTypeId) -> (r: InventoryItem)
        requires
            forall|k: int| 0 <= k < points@.len() ==> fits_offset(#[trigger] points@[k]@),
        ensures
            r.wf(),
            r.location == location,
            r.original_points@ == points@,
            r.local_points@ == points@,
            r.turns@.len() == 0,
            !r.changed,
            r.hp_gain == 0,
            r.attack_damage_gain == 0,
            r.weapon_damage == 1,
            !r.weapon_is_auto,
            r.item_type == item_type,
            r.item_type_id == item_type_id,
    {
        let mut copy: Vec<IVec3> = Vec::new();
        let mut i: usize = 0;
        while i < points.len()
            invariant
                i <= points@.len(),
                copy@ == points@.subrange(0, i as int),
            decreases points@.len() - i,
        {
            copy.push(points[i]);
            i = i + 1;
        }
        assert(copy@ =~= points@);
        InventoryItem {
            location,
            original_points: points,
            local_points: copy,
            changed: false,
            hp_gain: 0,
            attack_damage_gain: 0,
            weapon_damage: 1,
            weapon_is_auto: false,
            item_type,
            item_type_id,
            turns: Ghost(Seq::empty()),
        }
    }

    /// Whether `cell` is one of the cells the item occupies, that is whether
    /// `cell - location` is an offset of the current footprint.
    pub fn intersects(&self, cell: IVec3) -> (r: bool)
        ensures
            r == occupies(*self, cell@),
    {
        let target = GridCell { x: cell.x as i64, y: cell.y as i64, z: cell.z as i64 };
        let mut k: usize = 0;
        while k < self.local_points.len()
            invariant
                k <= self.local_points@.len(),
                target@ == cell@,
                forall|j: int| 0 <= j < k ==> cell_at(*self, j) != cell@,
            decreases self.local_points@.len() - k,
        {
            let c = GridCell::offset_from(self.location, self.local_points[k]);
            if c == target {
                assert(cell_at(*self, k as int) == cell@);
                return true;
            }
            k = k + 1;
        }
        false
    }

    /// The absolute cell of offset `k`.
    pub fn cell(&self, k: usize) -> (r: GridCell)
        requires
            k < self.local_points@.len(),
        ensures
            r@ == cell_at(*self, k as int),
    {
        GridCell::offset_from(self.location, self.local_points[k])
    }

    /// Moves the item by `translation`; the footprint is left as it is.
    pub fn translate(&mut self, translation: IVec3)
        requires
            fits_i32(add_points(old(self).location@, translation@)),
        ensures
            final(self).location@ == add_points(old(self).location@, translation@),
            final(self).local_points == old(self).local_points,
            final(self).original_points == old(self).original_points,
            final(self).turns == old(self).turns,
            final(self).changed == old(self).changed,
            final(self).hp_gain == old(self).hp_gain,
            final(self).attack_damage_gain == old(self).attack_damage_gain,
            final(self).weapon_damage == old(self).weapon_damage,
            final(self).weapon_is_auto == old(self).weapon_is_auto,
            final(self).item_type == old(self).item_type,
            final(self).item_type_id == old(self).item_type_id,
    {
        self.location = IVec3 {
            x: self.location.x + translation.x,
            y: self.location.y + translation.y,
            z: self.location.z + translation.z,
        };
    }

    /// Turns every offset of the footprint a quarter turn about `axis`,
    /// about the item's own origin: the location stays where it is.
    pub fn rotate_about(&mut self, axis: Axis, ccw: bool)
        requires
            old(self).wf(),
        ensures
            final(self).wf(),
            final(self).turns@ == old(self).turns@.push((axis, ccw)),
            final(self).local_points@.len() == old(self).local_points@.len(),
            forall|k: int|
                0 <= k < old(self).local_points@.len() ==> #[trigger] final(self).local_points@[k]@
                    == quarter_turn(old(self).local_points@[k]@, axis, ccw),
            final(self).location == old(self).location,
            final(self).original_points == old(self).original_points,
            final(self).changed,
            final(self).hp_gain == old(self).hp_gain,
            final(self).attack_damage_gain == old(self).attack_damage_gain,
            final(self).weapon_damage == old(self).weapon_damage,
            final(self).weapon_is_auto == old(self).weapon_is_auto,
            final(self).item_type == old(self).item_type,
            final(self).item_type_id == old(self).item_type_id,
    {
        let ghost before = self.local_points@;
        let ghost turns = self.turns@.push((axis, ccw));
        let n = self.local_points.len();
        let mut k: usize = 0;
        while k < n
            invariant
                n == before.len(),
                n == self.local_points@.len(),
                n == self.original_points@.len(),
                k <= n,
                self.location == old(self).location,
                self.original_points == old(self).original_points,
                self.turns == old(self).turns,
                self.changed == old(self).changed,
                self.hp_gain == old(self).hp_gain,
                self.attack_damage_gain == old(self).attack_damage_gain,
                self.weapon_damage == old(self).weapon_damage,
                self.weapon_is_auto == old(self).weapon_is_auto,
                self.item_type == old(self).item_type,
                self.item_type_id == old(self).item_type_id,
                before == old(self).local_points@,
                old(self).wf(),
                forall|j: int| k <= j < n ==> self.local_points@[j] == before[j],
                forall|j: int|
                    0 <= j < k ==> #[trigger] self.local_points@[j]@ == quarter_turn(
                        before[j]@,
                        axis,
                        ccw,
                    ),
            decreases n - k,
        {
            proof {
                lemma_apply_turns_fits(self.original_points@[k as int]@, self.turns@);
                assert(old(self).local_points@[k as int]@ == apply_turns(
                    old(self).original_points@[k as int]@,
                    old(self).turns@,
                ));
                assert(self.local_points@[k as int] == before[k as int]);
            }
            let p = self.local_points[k].quarter_turned(axis, ccw);
            self.local_points.set(k, p);
            k = k + 1;
        }
        self.turns = Ghost(turns);
        self.changed = true;
        assert forall|j: int| 0 <= j < self.local_points@.len() implies #[trigger] self.local_points@[j]@
            == apply_turns(self.original_points@[j]@, self.turns@) by {
            assert(turns.drop_last() =~= old(self).turns@);
        }
    }

    /// A quarter turn about the vertical axis.
    pub fn rotate(&mut self, ccw: bool)
        requires
            old(self).wf(),
        ensures
            final(self).wf(),
            final(self).turns@ == old(self).turns@.push((Axis::Y, ccw)),
            final(self).local_points@.len() == old(self).local_points@.len(),
            forall|k: int|
                0 <= k < old(self).local_points@.len() ==> #[trigger] final(self).local_points@[k]@
                    == quarter_turn(old(self).local_points@[k]@, Axis::Y, ccw),
            final(self).location == old(self).location,
            final(self).original_points == old(self).original_points,
            final(self).changed,
            final(self).item_type == old(self).item_type,
            final(self).item_type_id == old(self).item_type_id,
    {
        self.rotate_about(Axis::Y, ccw);
    }
}

/// An item whose turns so far are a multiple of four equal quarter turns
/// (4, 40, 400, ...) has exactly the footprint it was created with.
pub proof fn lemma_full_turns_restore_footprint(item: InventoryItem, axis: Axis, ccw: bool, n: nat)
    requires
        item.wf(),
        item.turns@ == repeated_turns(axis, ccw, 4 * n),
    ensures
        item.local_points@ == item.original_points@,
{
    assert forall|k: int| 0 <= k < item.local_points@.len() implies item.local_points@[k] == item.original_points@[k] by {
        lemma_turns_multiple_of_four(item.original_points@[k]@, axis, ccw, n);
        assert(item.local_points@[k]@ == apply_turns(item.original_points@[k]@, item.turns@));
    }
    assert(item.local_points@ =~= item.original_points@);
}

} // verus!
