//! Points of the plane.
use crate::number::Number;
use vstd::prelude::*;

verus! {

/// A pair of numbers.
#[derive(Clone, Copy, Debug, PartialEq, Eq, Structural)]
pub struct Point {
    pub x: Number,
    pub y: Number,
}

/// Two polylines have the same length and, place by place, equal
/// coordinates.
pub open spec fn points_equal(a: Seq<Point>, b: Seq<Point>) -> bool {
    &&& a.len() == b.len()
    &&& forall|i: int| 0 <= i < a.len() ==> (#[trigger] a[i]).x.equals(b[i].x) && a[i].y.equals(b[i].y)
}

/// Whether two polylines are equal, as `points_equal` defines it.
pub fn same_points(a: &Vec<Point>, b: &Vec<Point>) -> (r: bool)
    ensures
        r == points_equal(a@, b@),
{
    if a.len() != b.len() {
        return false;
    }
    let mut i: usize = 0;
    while i < a.len()
        invariant
            i <= a.len(),
            a.len() == b.len(),
            forall|j: int| 0 <= j < i ==> (#[trigger] a[j]).x.equals(b[j].x) && a[j].y.equals(b[j].y),
        decreases a.len() - i,
    {
        if !(a[i].x.same_value(&b[i].x) && a[i].y.same_value(&b[i].y)) {
            return false;
        }
        i = i + 1;
    }
    true
}

/// A copy of a polyline.
pub fn copy_points(a: &Vec<Point>) -> (r: Vec<Point>)
    ensures
        r@ == a@,
{
    let mut r: Vec<Point> = Vec::new();
    let mut i: usize = 0;
    while i < a.len()
        invariant
            i <= a.len(),
            r@ == a@.take(i as int),
        decreases a.len() - i,
    {
        r.push(a[i]);
        i = i + 1;
    }
    r
}

} // verus!
