//! A packing session: the items in the bag, the one item that commands
//! act on, the side the camera looks from, and the commit at the end.
use vstd::prelude::*;
use crate::commit::{
    commit_keep, kept_flags, lemma_outside_cell_evicts, lemma_shared_cell_evicts_both,
    lemma_valid_iff_all_kept,
};
use crate::direction::{
    ItemDirection, RotateGesture, direction_to_vector, direction_vector, gesture_to_turn,
    gesture_turn, turn_view_left, turn_view_right, view_turned_left, view_turned_right,
};
use crate::geometry::{Axis, Point, add_points, fits_i32, quarter_turn};
use crate::grid::Grid;
use crate::item::{InventoryItem, ItemType, cell_at};
use crate::validity::{arrangement_valid, is_arrangement_valid, is_claim};

verus! {

/// A command from the player.
#[derive(Clone, Copy, Debug, PartialEq, Eq, Structural, Hash)]
pub enum Command {
    Move(ItemDirection),
    Rotate(RotateGesture),
    SelectNext,
    ViewLeft,
    ViewRight,
}

/// Items `i` and `j` are both weapons of the same kind.
pub open spec fn weapon_clash(items: Seq<InventoryItem>, i: int, j: int) -> bool {
    &&& items[i].item_type != ItemType::NonWeapon
    &&& items[j].item_type != ItemType::NonWeapon
    &&& items[i].item_type_id == items[j].item_type_id
}

/// Some two weapons of `items` share a kind.
pub open spec fn has_weapon_clash(items: Seq<InventoryItem>) -> bool {
    exists|i: int, j: int| 0 <= i < j < items.len() && #[trigger] weapon_clash(items, i, j)
}

/// The selection after advancing from `sel` among `n` items: the next item,
/// wrapping to the first, or none when there are no items.
pub open spec fn next_selection(sel: Option<usize>, n: nat) -> Option<usize> {
    if n == 0 {
        None
    } else {
        match sel {
            Some(i) => if i + 1 < n { Some((i + 1) as usize) } else { Some(0) },
            None => Some(0),
        }
    }
}

/// `after` is `before` moved by `d`, with nothing else changed.
pub open spec fn translated_by(after: InventoryItem, before: InventoryItem, d: Point) -> bool {
    &&& after.location@ == add_points(before.location@, d)
    &&& after.local_points == before.local_points
    &&& after.original_points == before.original_points
    &&& after.turns == before.turns
    &&& after.changed == before.changed
    &&& after.hp_gain == before.hp_gain
    &&& after.attack_damage_gain == before.attack_damage_gain
    &&& after.weapon_damage == before.weapon_damage
    &&& after.weapon_is_auto == before.weapon_is_auto
    &&& after.item_type == before.item_type
    &&& after.item_type_id == before.item_type_id
}

/// `after` is `before` with its footprint given one more quarter turn.
pub open spec fn turned_by(after: InventoryItem, before: InventoryItem, turn: (Axis, bool)) -> bool {
    &&& after.wf()
    &&& after.turns@ == before.turns@.push(turn)
    &&& after.local_points@.len() == before.local_points@.len()
    &&& forall|k: int|
        0 <= k < before.local_points@.len() ==> #[trigger] after.local_points@[k]@ == quarter_turn(
            before.local_points@[k]@,
            turn.0,
            turn.1,
        )
    &&& after.location == before.location
    &&& after.original_points == before.original_points
    &&& after.changed
    &&& after.hp_gain == before.hp_gain
    &&& after.attack_damage_gain == before.attack_damage_gain
    &&& after.weapon_damage == before.weapon_damage
    &&& after.weapon_is_auto == before.weapon_is_auto
    &&& after.item_type == before.item_type
    &&& after.item_type_id == before.item_type_id
}

/// The items of `items` whose flag is set, in their order.
pub open spec fn survivors(items: Seq<InventoryItem>, flags: Seq<bool>) -> Seq<InventoryItem>
    decreases items.len(),
{
    if items.len() == 0 {
        Seq::empty()
    } else {
        let rest = survivors(items.drop_last(), flags);
        if flags[items.len() - 1] {
            rest.push(items.last())
        } else {
            rest
        }
    }
}

/// Moves `item` by `item_dir` as seen from view `view_index`.
pub fn move_item(item: &mut InventoryItem, item_dir: ItemDirection, view_index: usize)
    requires
        view_index < 4,
        fits_i32(add_points(old(item).location@, direction_vector(item_dir, view_index as int))),
    ensures
        translated_by(*final(item), *old(item), direction_vector(item_dir, view_index as int)),
{
    let d = direction_to_vector(item_dir, view_index);
    item.translate(d);
}

/// Whether two weapons of `items` share a kind, which the game treats as a
/// broken invariant.
pub fn has_weapon_duplicates(items: &Vec<InventoryItem>) -> (r: bool)
    ensures
        r == has_weapon_clash(items@),
{
    let n = items.len();
    let mut i: usize = 0;
    while i < n
        invariant
            n == items@.len(),
            i <= n,
            forall|a: int, b: int| 0 <= a < b < n && a < i ==> !#[trigger] weapon_clash(items@, a, b),
        decreases n - i,
    {
        if items[i].item_type != ItemType::NonWeapon {
            let mut j: usize = i + 1;
            while j < n
                invariant
                    n == items@.len(),
                    i < j <= n,
                    items@[i as int].item_type != ItemType::NonWeapon,
                    forall|b: int| i < b < j ==> !#[trigger] weapon_clash(items@, i as int, b),
                decreases n - j,
            {
                if items[j].item_type != ItemType::NonWeapon && items[j].item_type_id == items[i].item_type_id {
                    assert(weapon_clash(items@, i as int, j as int));
                    return true;
                }
                j = j + 1;
            }
        }
        i = i + 1;
    }
    false
}

/// The state of one packing session.
pub struct InventorySession {
    /// The items in the bag, in a fixed order.
    pub items: Vec<InventoryItem>,
    /// The item that move and rotate commands act on.
    pub selected: Option<usize>,
    /// The side the camera looks from, 0 to 3.
    pub view_index: usize,
    pub grid: Grid,
}

impl InventorySession {
    pub open spec fn wf(&self) -> bool {
        &&& self.grid.wf()
        &&& self.view_index < 4
        &&& match self.selected {
            Some(i) => i < self.items@.len(),
            None => true,
        }
        &&& forall|j: int| 0 <= j < self.items@.len() ==> #[trigger] self.items@[j].wf()
    }

    /// Moving the selected item by `dir` keeps its location within `i32`.
    pub open spec fn move_fits(&self, dir: ItemDirection) -> bool {
        match self.selected {
            Some(i) => fits_i32(
                add_points(self.items@[i as int].location@, direction_vector(dir, self.view_index as int)),
            ),
            None => true,
        }
    }

    /// Opens a session on `items` as they were kept: same footprints, same
    /// locations. The camera starts on side 0 and the last item is selected.
    pub fn begin_session(items: Vec<InventoryItem>, grid: Grid) -> (r: InventorySession)
        requires
            grid.wf(),
            forall|j: int| 0 <= j < items@.len() ==> #[trigger] items@[j].wf(),
            !has_weapon_clash(items@),
        ensures
            r.wf(),
            r.items@ == items@,
            r.grid == grid,
            r.view_index == 0,
            r.selected == (if items@.len() == 0 { None } else { Some((items@.len() - 1) as usize) }),
    {
        let n = items.len();
        let selected = if n == 0 { None } else { Some(n - 1) };
        InventorySession { items, selected, view_index: 0, grid }
    }

    /// Advances the selection to the next item, wrapping to the first.
    pub fn select_next(&mut self)
        requires
            old(self).wf(),
        ensures
            final(self).wf(),
            final(self).selected == next_selection(old(self).selected, old(self).items@.len()),
            final(self).items == old(self).items,
            final(self).view_index == old(self).view_index,
            final(self).grid == old(self).grid,
    {
        let n = self.items.len();
        if n == 0 {
            self.selected = None;
        } else {
            match self.selected {
                Some(i) => {
                    if i + 1 < n {
                        self.selected = Some(i + 1);
                    } else {
                        self.selected = Some(0);
                    }
                },
                None => {
                    self.selected = Some(0);
                },
            }
        }
    }

    /// Moves the selected item by `dir` as seen from the current view; every
    /// other item stays as it is. Without a selection nothing changes.
    pub fn move_selected(&mut self, dir: ItemDirection)
        requires
            old(self).wf(),
            old(self).move_fits(dir),
        ensures
            final(self).wf(),
            final(self).selected == old(self).selected,
            final(self).view_index == old(self).view_index,
            final(self).grid == old(self).grid,
            final(self).items@.len() == old(self).items@.len(),
            forall|j: int|
                0 <= j < old(self).items@.len() && Some(j as usize) != old(self).selected
                    ==> #[trigger] final(self).items@[j] == old(self).items@[j],
            match old(self).selected {
                Some(i) => translated_by(
                    final(self).items@[i as int],
                    old(self).items@[i as int],
                    direction_vector(dir, old(self).view_index as int),
                ),
                None => final(self).items@ == old(self).items@,
            },
    {
        match self.selected {
            Some(i) => {
                assert(self.items@[i as int].wf());
                move_item(&mut self.items[i], dir, self.view_index);
                proof {
                    assert(self.items@[i as int].wf());
                }
            },
            None => {},
        }
    }

    /// Gives the selected item a quarter turn for `gesture` as seen from the
    /// current view; every other item stays as it is.
    pub fn rotate_selected(&mut self, gesture: RotateGesture)
        requires
            old(self).wf(),
        ensures
            final(self).wf(),
            final(self).selected == old(self).selected,
            final(self).view_index == old(self).view_index,
            final(self).grid == old(self).grid,
            final(self).items@.len() == old(self).items@.len(),
            forall|j: int|
                0 <= j < old(self).items@.len() && Some(j as usize) != old(self).selected
                    ==> #[trigger] final(self).items@[j] == old(self).items@[j],
            match old(self).selected {
                Some(i) => turned_by(
                    final(self).items@[i as int],
                    old(self).items@[i as int],
                    gesture_turn(gesture, old(self).view_index as int),
                ),
                None => final(self).items@ == old(self).items@,
            },
    {
        match self.selected {
            Some(i) => {
                let (axis, ccw) = gesture_to_turn(gesture, self.view_index);
                assert(self.items@[i as int].wf());
                self.items[i].rotate_about(axis, ccw);
            },
            None => {},
        }
    }

    /// Steps the camera one side to the left.
    pub fn view_left(&mut self)
        requires
            old(self).wf(),
        ensures
            final(self).wf(),
            final(self).view_index as int == view_turned_left(old(self).view_index as int),
            final(self).items == old(self).items,
            final(self).selected == old(self).selected,
            final(self).grid == old(self).grid,
    {
        self.view_index = turn_view_left(self.view_index);
    }

    /// Steps the camera one side to the right.
    pub fn view_right(&mut self)
        requires
            old(self).wf(),
        ensures
            final(self).wf(),
            final(self).view_index as int == view_turned_right(old(self).view_index as int),
            final(self).items == old(self).items,
            final(self).selected == old(self).selected,
            final(self).grid == old(self).grid,
    {
        self.view_index = turn_view_right(self.view_index);
    }

    /// Whether the arrangement is legal right now.
    pub fn is_valid(&self) -> (r: bool)
        ensures
            r == arrangement_valid(self.items@, self.grid),
    {
        is_arrangement_valid(&self.items, &self.grid)
    }

    /// Ends the session: the kept items, in their order, with the footprint
    /// and location they have now. The others are gone.
    pub fn end_session(self) -> (r: Vec<InventoryItem>)
        ensures
            r@ == survivors(self.items@, kept_flags(self.items@, self.grid)),
    {
        let keep = commit_keep(&self.items, &self.grid);
        let ghost all = self.items@;
        let mut rest = self.items;
        let mut out: Vec<InventoryItem> = Vec::new();
        let n = keep.len();
        let mut i: usize = 0;
        while i < n
            invariant
                n == all.len(),
                keep@ == kept_flags(all, self.grid),
                i <= n,
                rest@ == all.subrange(i as int, n as int),
                out@ == survivors(all.subrange(0, i as int), keep@),
            decreases n - i,
        {
            let item = rest.remove(0);
            proof {
                let ghost pre = all.subrange(0, i + 1);
                assert(pre.drop_last() =~= all.subrange(0, i as int));
                assert(pre.last() == all[i as int]);
                assert(all.subrange(i + 1, n as int) =~= all.subrange(i as int, n as int).subrange(1, (n - i) as int));
            }
            if keep[i] {
                out.push(item);
            }
            i = i + 1;
        }
        assert(all.subrange(0, n as int) =~= all);
        out
    }

    /// Carries out one command. Move and rotate act on the selected item
    /// only; the others are left as they are.
    pub fn apply(&mut self, command: Command)
        requires
            old(self).wf(),
            match command {
                Command::Move(dir) => old(self).move_fits(dir),
                _ => true,
            },
        ensures
            final(self).wf(),
            final(self).grid == old(self).grid,
            final(self).items@.len() == old(self).items@.len(),
            match command {
                Command::Move(dir) => {
                    &&& final(self).selected == old(self).selected
                    &&& final(self).view_index == old(self).view_index
                    &&& forall|j: int|
                        0 <= j < old(self).items@.len() && Some(j as usize) != old(self).selected
                            ==> #[trigger] final(self).items@[j] == old(self).items@[j]
                    &&& match old(self).selected {
                        Some(i) => translated_by(
                            final(self).items@[i as int],
                            old(self).items@[i as int],
                            direction_vector(dir, old(self).view_index as int),
                        ),
                        None => final(self).items@ == old(self).items@,
                    }
                },
                Command::Rotate(gesture) => {
                    &&& final(self).selected == old(self).selected
                    &&& final(self).view_index == old(self).view_index
                    &&& forall|j: int|
                        0 <= j < old(self).items@.len() && Some(j as usize) != old(self).selected
                            ==> #[trigger] final(self).items@[j] == old(self).items@[j]
                    &&& match old(self).selected {
                        Some(i) => turned_by(
                            final(self).items@[i as int],
                            old(self).items@[i as int],
                            gesture_turn(gesture, old(self).view_index as int),
                        ),
                        None => final(self).items@ == old(self).items@,
                    }
                },
                Command::SelectNext => {
                    &&& final(self).selected == next_selection(old(self).selected, old(self).items@.len())
                    &&& final(self).view_index == old(self).view_index
                    &&& final(self).items == old(self).items
                },
                Command::ViewLeft => {
                    &&& final(self).view_index as int == view_turned_left(old(self).view_index as int)
                    &&& final(self).selected == old(self).selected
                    &&& final(self).items == old(self).items
                },
                Command::ViewRight => {
                    &&& final(self).view_index as int == view_turned_right(old(self).view_index as int)
                    &&& final(self).selected == old(self).selected
                    &&& final(self).items == old(self).items
                },
            },
    {
        match command {
            Command::Move(dir) => self.move_selected(dir),
            Command::Rotate(gesture) => self.rotate_selected(gesture),
            Command::SelectNext => self.select_next(),
            Command::ViewLeft => self.view_left(),
            Command::ViewRight => self.view_right(),
        }
    }
}

/// With two or more items, advancing the selection always lands on another
/// item, so a move made after it cannot touch the item selected before.
pub proof fn lemma_select_next_changes_target(sel: usize, n: nat)
    requires
        2 <= n <= usize::MAX,
        sel < n,
    ensures
        next_selection(Some(sel), n) is Some,
        next_selection(Some(sel), n)->Some_0 != sel,
        next_selection(Some(sel), n)->Some_0 < n,
{
}

/// Advancing the selection `n` times from the first of `n` items comes back
/// to the first.
pub proof fn lemma_select_next_cycles(n: nat, steps: nat)
    requires
        0 < n,
        steps < n,
        n <= usize::MAX,
    ensures
        select_next_times(Some(0), n, steps) == Some(steps as usize),
        select_next_times(Some(0), n, n) == Some(0usize),
{
    lemma_select_next_steps(n, steps);
    lemma_select_next_steps(n, (n - 1) as nat);
}

proof fn lemma_select_next_steps(n: nat, steps: nat)
    requires
        0 < n,
        steps < n,
        n <= usize::MAX,
    ensures
        select_next_times(Some(0), n, steps) == Some(steps as usize),
    decreases steps,
{
    if steps > 0 {
        lemma_select_next_steps(n, (steps - 1) as nat);
    }
}

/// The selection after advancing `steps` times among `n` items.
pub open spec fn select_next_times(sel: Option<usize>, n: nat, steps: nat) -> Option<usize>
    decreases steps,
{
    if steps == 0 {
        sel
    } else {
        next_selection(select_next_times(sel, n, (steps - 1) as nat), n)
    }
}

/// With every flag set, the survivors are all the items, unchanged.
pub proof fn lemma_survivors_all(items: Seq<InventoryItem>, flags: Seq<bool>)
    requires
        items.len() <= flags.len(),
        forall|j: int| 0 <= j < items.len() ==> #[trigger] flags[j],
    ensures
        survivors(items, flags) == items,
    decreases items.len(),
{
    if items.len() > 0 {
        lemma_survivors_all(items.drop_last(), flags);
        assert(items.drop_last().push(items.last()) =~= items);
    }
}

/// With no flag set, nothing survives.
pub proof fn lemma_survivors_none(items: Seq<InventoryItem>, flags: Seq<bool>)
    requires
        items.len() <= flags.len(),
        forall|j: int| 0 <= j < items.len() ==> !#[trigger] flags[j],
    ensures
        survivors(items, flags) == Seq::<InventoryItem>::empty(),
    decreases items.len(),
{
    if items.len() > 0 {
        lemma_survivors_none(items.drop_last(), flags);
    }
}

/// Committing a legal arrangement keeps every item, unchanged and in order.
pub proof fn lemma_valid_commit_keeps_all(items: Seq<InventoryItem>, grid: Grid)
    requires
        arrangement_valid(items, grid),
    ensures
        survivors(items, kept_flags(items, grid)) == items,
{
    lemma_valid_iff_all_kept(items, grid);
    lemma_survivors_all(items, kept_flags(items, grid));
}

/// Two items that share a cell are both lost at commit: nothing survives.
pub proof fn lemma_overlapping_pair_all_lost(items: Seq<InventoryItem>, grid: Grid, k: int, m: int)
    requires
        items.len() == 2,
        is_claim(items, 0, k),
        is_claim(items, 1, m),
        cell_at(items[0], k) == cell_at(items[1], m),
    ensures
        survivors(items, kept_flags(items, grid)) == Seq::<InventoryItem>::empty(),
{
    lemma_shared_cell_evicts_both(items, grid, 0, k, 1, m);
    lemma_survivors_none(items, kept_flags(items, grid));
}

/// An item with a cell outside the bag is not among the survivors.
pub proof fn lemma_outside_item_lost(items: Seq<InventoryItem>, grid: Grid, i: int, k: int)
    requires
        is_claim(items, i, k),
        !grid.holds(cell_at(items[i], k)),
    ensures
        !kept_flags(items, grid)[i],
{
    lemma_outside_cell_evicts(items, grid, i, k);
}

} // verus!
