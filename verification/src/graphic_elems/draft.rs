//! What is left to compute once the parameters of an element are chosen.
//!
//! The library holds numbers as bit patterns and does no arithmetic on
//! their values. Where an element needs a computed number or a blended
//! color, it says which one: a `Scalar` names the formula and its operands,
//! a `Blend` names the two ends of a gradient and the ratio.
use crate::color::Color;
use crate::number::Number;
use crate::traits::Params;
use vstd::prelude::*;

verus! {

/// A number, given or still to be computed from two others.
#[derive(Clone, Copy, Debug, PartialEq, Eq, Structural)]
pub enum Scalar {
    /// The number itself.
    Given(Number),
    /// `a - b`
    Difference(Number, Number),
    /// `2 (a - b)`
    TwiceDifference(Number, Number),
    /// `2 a - b`
    TwiceMinus(Number, Number),
    /// `a - b / 2`
    MinusHalf(Number, Number),
}

/// A gradient sample: the color at `ratio` of the way from `begin` to
/// `end`, channel by channel `begin + (end - begin) * ratio`, cut to a whole
/// number.
#[derive(Clone, Copy, Debug, PartialEq, Eq, Structural)]
pub struct Blend {
    pub begin: Color,
    pub end: Color,
    pub ratio: Number,
}

/// The gradient of a record of parameters: there is one where both ends and
/// the ratio are set.
pub open spec fn blend_of(p: Params) -> Option<Blend> {
    match (p.grad_begin, p.grad_end, p.grad_ratio) {
        (Some(begin), Some(end), Some(ratio)) => Some(Blend { begin, end, ratio }),
        _ => None,
    }
}

/// The color of an element before its gradient is applied: the explicit
/// color, or the default color, with every channel full, where none is set.
pub open spec fn base_color(p: Params) -> Color {
    match p.color {
        Some(c) => c,
        None => Color { r: 255, g: 255, b: 255 },
    }
}

/// The number, or `fallback` where it is not set.
pub open spec fn or_number(n: Option<Number>, fallback: u64) -> Number {
    match n {
        Some(n) => n,
        None => Number { bits: fallback },
    }
}

/// The start and the extent along one axis, from the four parameters that
/// can determine them: the near edge, the far edge, the extent and the
/// center. The first rule that has both its parameters decides; with fewer
/// than two parameters there is none.
pub open spec fn axis(
    near: Option<Number>,
    far: Option<Number>,
    extent: Option<Number>,
    center: Option<Number>,
) -> Option<(Scalar, Scalar)> {
    match (near, far, extent, center) {
        (Some(l), Some(r), _, _) => Some((Scalar::Given(l), Scalar::Difference(r, l))),
        (Some(l), _, Some(w), _) => Some((Scalar::Given(l), Scalar::Given(w))),
        (Some(l), _, _, Some(c)) => Some((Scalar::Given(l), Scalar::TwiceDifference(c, l))),
        (_, Some(r), Some(w), _) => Some((Scalar::Difference(r, w), Scalar::Given(w))),
        (_, Some(r), _, Some(c)) => Some((Scalar::TwiceMinus(c, r), Scalar::TwiceDifference(r, c))),
        (_, _, Some(w), Some(c)) => Some((Scalar::MinusHalf(c, w), Scalar::Given(w))),
        _ => None,
    }
}

/// How many of four parameters are set.
pub open spec fn count_set(
    a: Option<Number>,
    b: Option<Number>,
    c: Option<Number>,
    d: Option<Number>,
) -> int {
    (if a is Some { 1int } else { 0int }) + (if b is Some { 1int } else { 0int }) + (if c is Some {
        1int
    } else {
        0int
    }) + (if d is Some { 1int } else { 0int })
}

/// An axis is determined exactly when at least two of its four parameters
/// are set.
pub proof fn law_axis_total(
    near: Option<Number>,
    far: Option<Number>,
    extent: Option<Number>,
    center: Option<Number>,
)
    ensures
        axis(near, far, extent, center) is Some <==> count_set(near, far, extent, center) >= 2,
{
}

/// The start and the extent along one axis, as `axis` defines them.
pub fn resolve_axis(
    near: Option<Number>,
    far: Option<Number>,
    extent: Option<Number>,
    center: Option<Number>,
) -> (r: Option<(Scalar, Scalar)>)
    ensures
        r == axis(near, far, extent, center),
{
    match (near, far, extent, center) {
        (Some(l), Some(r), _, _) => Some((Scalar::Given(l), Scalar::Difference(r, l))),
        (Some(l), _, Some(w), _) => Some((Scalar::Given(l), Scalar::Given(w))),
        (Some(l), _, _, Some(c)) => Some((Scalar::Given(l), Scalar::TwiceDifference(c, l))),
        (_, Some(r), Some(w), _) => Some((Scalar::Difference(r, w), Scalar::Given(w))),
        (_, Some(r), _, Some(c)) => Some((Scalar::TwiceMinus(c, r), Scalar::TwiceDifference(r, c))),
        (_, _, Some(w), Some(c)) => Some((Scalar::MinusHalf(c, w), Scalar::Given(w))),
        _ => None,
    }
}

/// The gradient of three optional parameters, as `blend_of` defines it.
pub fn resolve_blend(begin: Option<Color>, end: Option<Color>, ratio: Option<Number>) -> (r: Option<
    Blend,
>)
    ensures
        r == match (begin, end, ratio) {
            (Some(begin), Some(end), Some(ratio)) => Some(Blend { begin, end, ratio }),
            _ => None,
        },
{
    match (begin, end, ratio) {
        (Some(begin), Some(end), Some(ratio)) => Some(Blend { begin, end, ratio }),
        _ => None,
    }
}

} // verus!
