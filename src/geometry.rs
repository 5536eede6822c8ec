//! Integer vectors and exact quarter-turn rotations.
use vstd::prelude::*;

verus! {

/// An integer vector of the grid: a location, an offset or a direction.
#[derive(Clone, Copy, Debug, PartialEq, Eq, Structural, Hash)]
pub struct IVec3 {
    pub x: i32,
    pub y: i32,
    pub z: i32,
}

/// A point of the grid as mathematical integers.
pub type Point = (int, int, int);

impl View for IVec3 {
    type V = Point;

    open spec fn view(&self) -> Point {
        (self.x as int, self.y as int, self.z as int)
    }
}

pub open spec fn add_points(a: Point, b: Point) -> Point {
    (a.0 + b.0, a.1 + b.1, a.2 + b.2)
}

/// Every coordinate of `p` has a negation that is again an `i32`.
pub open spec fn fits_offset(p: Point) -> bool {
    &&& -(i32::MAX as int) <= p.0 <= i32::MAX as int
    &&& -(i32::MAX as int) <= p.1 <= i32::MAX as int
    &&& -(i32::MAX as int) <= p.2 <= i32::MAX as int
}

/// Every coordinate of `p` is an `i32`.
pub open spec fn fits_i32(p: Point) -> bool {
    &&& i32::MIN as int <= p.0 <= i32::MAX as int
    &&& i32::MIN as int <= p.1 <= i32::MAX as int
    &&& i32::MIN as int <= p.2 <= i32::MAX as int
}

/// A rotation axis of an item.
#[derive(Clone, Copy, Debug, PartialEq, Eq, Structural, Hash)]
pub enum Axis {
    X,
    /// The vertical axis.
    Y,
    Z,
}

/// One quarter turn about `axis`, counterclockwise when `ccw` (the exact
/// integer form of the rotation matrix for +90 or -90 degrees).
pub open spec fn quarter_turn(p: Point, axis: Axis, ccw: bool) -> Point {
    match axis {
        Axis::X => if ccw { (p.0, -p.2, p.1) } else { (p.0, p.2, -p.1) },
        Axis::Y => if ccw { (p.2, p.1, -p.0) } else { (-p.2, p.1, p.0) },
        Axis::Z => if ccw { (-p.1, p.0, p.2) } else { (p.1, -p.0, p.2) },
    }
}

/// The point `p` after each quarter turn of `turns`, first to last.
pub open spec fn apply_turns(p: Point, turns: Seq<(Axis, bool)>) -> Point
    decreases turns.len(),
{
    if turns.len() == 0 {
        p
    } else {
        let last = turns.last();
        quarter_turn(apply_turns(p, turns.drop_last()), last.0, last.1)
    }
}

/// Quarter turns only permute and negate coordinates, so a point whose
/// coordinates can be negated keeps that property.
pub proof fn lemma_apply_turns_fits(p: Point, turns: Seq<(Axis, bool)>)
    requires
        fits_offset(p),
    ensures
        fits_offset(apply_turns(p, turns)),
    decreases turns.len(),
{
    if turns.len() > 0 {
        lemma_apply_turns_fits(p, turns.drop_last());
    }
}

/// Four equal quarter turns about one axis give the point back.
pub proof fn lemma_four_quarter_turns(p: Point, axis: Axis, ccw: bool)
    ensures
        quarter_turn(quarter_turn(quarter_turn(quarter_turn(p, axis, ccw), axis, ccw), axis, ccw), axis, ccw)
            == p,
{
}

/// A quarter turn one way followed by one the other way gives the point back.
pub proof fn lemma_quarter_turn_undone(p: Point, axis: Axis, ccw: bool)
    ensures
        quarter_turn(quarter_turn(p, axis, ccw), axis, !ccw) == p,
{
}

/// Turning more after a sequence of turns is the same as turning by the
/// concatenated sequence.
pub proof fn lemma_apply_turns_append(p: Point, a: Seq<(Axis, bool)>, b: Seq<(Axis, bool)>)
    ensures
        apply_turns(p, a + b) == apply_turns(apply_turns(p, a), b),
    decreases b.len(),
{
    if b.len() == 0 {
        assert(a + b =~= a);
    } else {
        assert((a + b).drop_last() =~= a + b.drop_last());
        lemma_apply_turns_append(p, a, b.drop_last());
    }
}

/// `n` quarter turns about `axis`, all in the same direction.
pub open spec fn repeated_turns(axis: Axis, ccw: bool, n: nat) -> Seq<(Axis, bool)> {
    Seq::new(n, |i: int| (axis, ccw))
}

/// Any multiple of four equal quarter turns (4, 40, 400, ...) gives the
/// point back exactly.
pub proof fn lemma_turns_multiple_of_four(p: Point, axis: Axis, ccw: bool, k: nat)
    ensures
        apply_turns(p, repeated_turns(axis, ccw, 4 * k)) == p,
    decreases k,
{
    if k > 0 {
        let rest = repeated_turns(axis, ccw, (4 * (k - 1)) as nat);
        let four = repeated_turns(axis, ccw, 4);
        assert(repeated_turns(axis, ccw, 4 * k) =~= rest + four);
        lemma_apply_turns_append(p, rest, four);
        lemma_turns_multiple_of_four(p, axis, ccw, (k - 1) as nat);
        let q = apply_turns(p, rest);
        let t1 = four.drop_last();
        let t2 = t1.drop_last();
        let t3 = t2.drop_last();
        assert(t3.drop_last() =~= Seq::<(Axis, bool)>::empty());
        assert(t3.last() == (axis, ccw) && t2.last() == (axis, ccw));
        assert(t1.last() == (axis, ccw) && four.last() == (axis, ccw));
        assert(apply_turns(q, t3.drop_last()) == q);
        assert(apply_turns(q, t3) == quarter_turn(q, axis, ccw));
        assert(apply_turns(q, t2) == quarter_turn(apply_turns(q, t3), axis, ccw));
        assert(apply_turns(q, t1) == quarter_turn(apply_turns(q, t2), axis, ccw));
        assert(apply_turns(q, four) == quarter_turn(apply_turns(q, t1), axis, ccw));
        lemma_four_quarter_turns(q, axis, ccw);
    }
}

/// An absolute cell: an item's location plus one of its offsets. Its
/// coordinates are wide enough that the sum never overflows.
#[derive(Clone, Copy, Debug, PartialEq, Eq, Structural, Hash)]
pub struct GridCell {
    pub x: i64,
    pub y: i64,
    pub z: i64,
}

impl View for GridCell {
    type V = Point;

    open spec fn view(&self) -> Point {
        (self.x as int, self.y as int, self.z as int)
    }
}

impl GridCell {
    /// The cell `location + offset`.
    pub fn offset_from(location: IVec3, offset: IVec3) -> (r: GridCell)
        ensures
            r@ == add_points(location@, offset@),
    {
        GridCell {
            x: location.x as i64 + offset.x as i64,
            y: location.y as i64 + offset.y as i64,
            z: location.z as i64 + offset.z as i64,
        }
    }
}

impl IVec3 {
    pub fn new(x: i32, y: i32, z: i32) -> (r: IVec3)
        ensures
            r@ == (x as int, y as int, z as int),
    {
        IVec3 { x, y, z }
    }

    /// The vector after one quarter turn about `axis`.
    pub fn quarter_turned(self, axis: Axis, ccw: bool) -> (r: IVec3)
        requires
            fits_offset(self@),
        ensures
            r@ == quarter_turn(self@, axis, ccw),
    {
        match axis {
            Axis::X => if ccw {
                IVec3 { x: self.x, y: -self.z, z: self.y }
            } else {
                IVec3 { x: self.x, y: self.z, z: -self.y }
            },
            Axis::Y => if ccw {
                IVec3 { x: self.z, y: self.y, z: -self.x }
            } else {
                IVec3 { x: -self.z, y: self.y, z: self.x }
            },
            Axis::Z => if ccw {
                IVec3 { x: -self.y, y: self.x, z: self.z }
            } else {
                IVec3 { x: self.y, y: -self.x, z: self.z }
            },
        }
    }
}

} // verus!
