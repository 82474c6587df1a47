//! A shape: an ordered list of curve points and a flag that closes it.
//!
//! Each pair of adjacent points makes one curve; a closed shape with at
//! least two points has one more curve, from its last point back to its
//! first. The container is generic over the point type, so the rules here
//! hold whatever a point carries.
use vstd::prelude::*;

verus! {

/// Number of curves of a shape with `len` points.
pub open spec fn curve_count_of(len: nat, closed: bool) -> nat {
    if len < 2 {
        0
    } else if closed {
        len
    } else {
        (len - 1) as nat
    }
}

/// Positions of the start and end points of curve `i` in a shape with `len`
/// points: adjacent points, or the last and the first for the closing curve.
pub open spec fn curve_ends_of(len: nat, i: nat) -> (nat, nat) {
    if i + 1 < len {
        (i, i + 1)
    } else {
        ((len - 1) as nat, 0)
    }
}

/// The points of a shape after curve `i` is split: its end points replaced
/// by `start` and `end`, and `middle` placed between them.
pub open spec fn split_points<T>(s: Seq<T>, i: nat, start: T, middle: T, end: T) -> Seq<T> {
    let (a, b) = curve_ends_of(s.len(), i);
    s.update(a as int, start).update(b as int, end).insert((a + 1) as int, middle)
}

/// Splitting one curve of a shape with at least two points adds exactly one
/// point and exactly one curve, open or closed.
pub proof fn lemma_split_adds_one<T>(s: Seq<T>, closed: bool, i: nat, start: T, middle: T, end: T)
    requires
        s.len() >= 2,
        i < curve_count_of(s.len(), closed),
    ensures
        split_points(s, i, start, middle, end).len() == s.len() + 1,
        curve_count_of(split_points(s, i, start, middle, end).len(), closed) == curve_count_of(
            s.len(),
            closed,
        ) + 1,
{
}

/// What an editor asks of a point after the user acted on it.
#[derive(Clone, Copy, Debug, PartialEq, Eq, Structural)]
pub enum PointAction {
    Click,
    Delete,
    ConvertToCorner,
    ConvertToSmooth,
}

/// Points in order, and whether the shape is closed.
#[derive(Debug)]
pub struct Shape<T> {
    points: Vec<T>,
    close: bool,
}

impl<T> Shape<T> {
    /// The points of the shape, in order.
    pub closed spec fn spec_points(&self) -> Seq<T> {
        self.points@
    }

    /// Whether the shape is closed.
    pub closed spec fn spec_closed(&self) -> bool {
        self.close
    }

    /// An open shape without points.
    pub fn new() -> (r: Shape<T>)
        ensures
            r.spec_points() == Seq::<T>::empty(),
            !r.spec_closed(),
    {
        Shape { points: Vec::new(), close: false }
    }

    /// A closed shape made of `points`.
    pub fn from_points(points: Vec<T>) -> (r: Shape<T>)
        ensures
            r.spec_points() == points@,
            r.spec_closed(),
    {
        Shape { points, close: true }
    }

    pub fn closed(&self) -> (r: bool)
        ensures
            r == self.spec_closed(),
    {
        self.close
    }

    pub fn set_close(&mut self, val: bool)
        ensures
            final(self).spec_closed() == val,
            final(self).spec_points() == old(self).spec_points(),
    {
        self.close = val;
    }

    pub fn toggle_close(&mut self)
        ensures
            final(self).spec_closed() == !old(self).spec_closed(),
            final(self).spec_points() == old(self).spec_points(),
    {
        self.close = !self.close;
    }

    pub fn len(&self) -> (r: usize)
        ensures
            r == self.spec_points().len(),
    {
        self.points.len()
    }

    pub fn is_empty(&self) -> (r: bool)
        ensures
            r == (self.spec_points().len() == 0),
    {
        self.points.len() == 0
    }

    pub fn points(&self) -> (r: &[T])
        ensures
            r@ == self.spec_points(),
    {
        self.points.as_slice()
    }

    /// Mutable access to the list of points.
    pub fn points_mut(&mut self) -> (r: &mut Vec<T>)
        ensures
            r@ == old(self).spec_points(),
            final(self).spec_points() == final(r)@,
            final(self).spec_closed() == old(self).spec_closed(),
    {
        &mut self.points
    }

    /// Appends a point at the end.
    pub fn push(&mut self, point: T)
        ensures
            final(self).spec_points() == old(self).spec_points().push(point),
            final(self).spec_closed() == old(self).spec_closed(),
    {
        self.points.push(point);
    }

    /// Inserts a point so that it stands at `index`.
    pub fn insert(&mut self, index: usize, point: T)
        requires
            index <= old(self).spec_points().len(),
        ensures
            final(self).spec_points() == old(self).spec_points().insert(index as int, point),
            final(self).spec_closed() == old(self).spec_closed(),
    {
        self.points.insert(index, point);
    }

    /// Removes the point at `index`.
    pub fn remove(&mut self, index: usize)
        requires
            index < old(self).spec_points().len(),
        ensures
            final(self).spec_points() == old(self).spec_points().remove(index as int),
            final(self).spec_closed() == old(self).spec_closed(),
    {
        self.points.remove(index);
    }

    /// Puts `point` in place of the point at `index`.
    pub fn replace(&mut self, index: usize, point: T)
        requires
            index < old(self).spec_points().len(),
        ensures
            final(self).spec_points() == old(self).spec_points().update(index as int, point),
            final(self).spec_closed() == old(self).spec_closed(),
    {
        self.points.set(index, point);
    }

    /// Number of curves the shape is made of.
    pub fn curve_count(&self) -> (r: usize)
        ensures
            r == curve_count_of(self.spec_points().len(), self.spec_closed()),
    {
        let len = self.points.len();
        if len < 2 {
            0
        } else if self.close {
            len
        } else {
            len - 1
        }
    }

    /// Positions of the start and end points of curve `index`.
    pub fn curve_ends(&self, index: usize) -> (r: (usize, usize))
        requires
            index < curve_count_of(self.spec_points().len(), self.spec_closed()),
        ensures
            (r.0 as nat, r.1 as nat) == curve_ends_of(self.spec_points().len(), index as nat),
            r.0 < self.spec_points().len(),
            r.1 < self.spec_points().len(),
    {
        let len = self.points.len();
        if index + 1 < len {
            (index, index + 1)
        } else {
            (len - 1, 0)
        }
    }

    /// Splits curve `index`: its start point becomes `start`, its end point
    /// becomes `end`, and `middle` is inserted right after the start point.
    pub fn split_curve(&mut self, index: usize, start: T, middle: T, end: T)
        requires
            index < curve_count_of(old(self).spec_points().len(), old(self).spec_closed()),
        ensures
            final(self).spec_points() == split_points(
                old(self).spec_points(),
                index as nat,
                start,
                middle,
                end,
            ),
            final(self).spec_closed() == old(self).spec_closed(),
    {
        let (a, b) = self.curve_ends(index);
        let len = self.points.len();
        assert(a < len);
        self.points.set(a, start);
        self.points.set(b, end);
        self.points.insert(a + 1, middle);
    }
}

impl<T> Default for Shape<T> {
    /// An open shape without points.
    fn default() -> (r: Shape<T>)
        ensures
            r.spec_points() == Seq::<T>::empty(),
            !r.spec_closed(),
    {
        Shape::new()
    }
}

} // verus!
