//! The differences of single fields, computed.
use crate::color::Color;
use crate::graphic_elems::view::{color_diff, number_diff, points_diff, text_diff};
use crate::number::Number;
use crate::point::{copy_points, same_points, Point};
use crate::text::str_eq;
use vstd::prelude::*;

verus! {

/// The part of a number that a difference carries.
pub fn diff_number(a: Option<Number>, b: Option<Number>) -> (r: Option<Number>)
    ensures
        r == number_diff(a, b),
{
    match (a, b) {
        (Some(x), Some(y)) => if x.same_value(&y) {
            None
        } else {
            a
        },
        _ => a,
    }
}

/// The part of a color that a difference carries.
pub fn diff_color(a: Option<Color>, b: Option<Color>) -> (r: Option<Color>)
    ensures
        r == color_diff(a, b),
{
    match (a, b) {
        (Some(x), Some(y)) => if x.r == y.r && x.g == y.g && x.b == y.b {
            None
        } else {
            a
        },
        (None, None) => None,
        _ => a,
    }
}

/// The part of a name that a difference carries.
pub fn diff_text(a: &String, b: &String) -> (r: String)
    ensures
        r@ == text_diff(a@, b@),
{
    if str_eq(a.as_str(), b.as_str()) {
        String::new()
    } else {
        a.clone()
    }
}

/// The points of an optional polyline, as a value.
pub open spec fn points_view(a: Option<Vec<Point>>) -> Option<Seq<Point>> {
    match a {
        Some(v) => Some(v@),
        None => None,
    }
}

/// The part of a polyline that a difference carries.
pub fn diff_points(a: &Option<Vec<Point>>, b: &Option<Vec<Point>>) -> (r: Option<Vec<Point>>)
    ensures
        points_view(r) == points_diff(points_view(*a), points_view(*b)),
{
    match (a, b) {
        (Some(p), Some(q)) => if same_points(p, q) {
            None
        } else {
            Some(copy_points(p))
        },
        (Some(p), None) => Some(copy_points(p)),
        _ => None,
    }
}

} // verus!
