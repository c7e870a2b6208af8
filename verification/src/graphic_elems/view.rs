//! The mathematical model of an element, shared by the four shapes: what an
//! element is as a value, what the difference of two elements is, and what
//! applying a difference to an element gives.
use crate::color::Color;
use crate::number::Number;
use crate::point::{points_equal, Point};
use crate::unique_id_generator::UID;
use vstd::prelude::*;

verus! {

/// The four shapes.
#[derive(Clone, Copy, Debug, PartialEq, Eq, Structural)]
pub enum ElemKind {
    Camera,
    Circle,
    Path,
    Rect,
}

/// An element as a value. A field that the shape does not have is `None`
/// (the name of a camera is empty). Where the element serves as a
/// difference, `None` and the empty text mean "unchanged".
pub struct ElemView {
    pub kind: ElemKind,
    pub unique_id: UID,
    pub group_id: Seq<char>,
    pub name: Seq<char>,
    pub color: Option<Color>,
    pub x: Option<Number>,
    pub y: Option<Number>,
    pub w: Option<Number>,
    pub h: Option<Number>,
    pub r: Option<Number>,
    pub z: Option<Number>,
    pub theta: Option<Number>,
    pub points: Option<Seq<Point>>,
}

/// The part of a number that a difference carries: nothing where the two
/// are equal as values, the new number otherwise.
pub open spec fn number_diff(a: Option<Number>, b: Option<Number>) -> Option<Number> {
    match (a, b) {
        (Some(x), Some(y)) => if x.equals(y) {
            None
        } else {
            a
        },
        _ => a,
    }
}

/// The part of a color that a difference carries.
pub open spec fn color_diff(a: Option<Color>, b: Option<Color>) -> Option<Color> {
    if a == b {
        None
    } else {
        a
    }
}

/// The part of a name that a difference carries: the empty text where
/// the two are the same.
pub open spec fn text_diff(a: Seq<char>, b: Seq<char>) -> Seq<char> {
    if a == b {
        Seq::empty()
    } else {
        a
    }
}

/// The part of a polyline that a difference carries.
pub open spec fn points_diff(a: Option<Seq<Point>>, b: Option<Seq<Point>>) -> Option<Seq<Point>> {
    match (a, b) {
        (Some(p), Some(q)) => if points_equal(p, q) {
            None
        } else {
            a
        },
        _ => a,
    }
}

/// Two optional numbers stand for the same value: both are absent, or both
/// are present with the same bit pattern up to the sign of a zero.
pub open spec fn same_number(a: Option<Number>, b: Option<Number>) -> bool {
    match (a, b) {
        (Some(x), Some(y)) => x.canonical() == y.canonical(),
        (None, None) => true,
        _ => false,
    }
}

/// Two polylines stand for the same points.
pub open spec fn same_point_seq(a: Seq<Point>, b: Seq<Point>) -> bool {
    &&& a.len() == b.len()
    &&& forall|i: int|
        0 <= i < a.len() ==> (#[trigger] a[i]).x.canonical() == b[i].x.canonical() && a[i].y.canonical()
            == b[i].y.canonical()
}

/// Two optional polylines stand for the same points.
pub open spec fn same_points(a: Option<Seq<Point>>, b: Option<Seq<Point>>) -> bool {
    match (a, b) {
        (Some(p), Some(q)) => same_point_seq(p, q),
        (None, None) => true,
        _ => false,
    }
}

impl ElemView {
    /// The key under which an element is found again within its group: its
    /// shape and its name.
    pub open spec fn key(self) -> (ElemKind, Seq<char>) {
        (self.kind, self.name)
    }

    /// Every field of the shape is present, and no other: the element is a
    /// full description, not a difference.
    pub open spec fn is_snapshot(self) -> bool {
        match self.kind {
            ElemKind::Camera => {
                &&& self.name.len() == 0
                &&& self.color is None
                &&& self.x is Some
                &&& self.y is Some
                &&& self.w is Some
                &&& self.h is Some
                &&& self.r is None
                &&& self.z is None
                &&& self.theta is None
                &&& self.points is None
            },
            ElemKind::Circle => {
                &&& self.color is Some
                &&& self.x is Some
                &&& self.y is Some
                &&& self.w is None
                &&& self.h is None
                &&& self.r is Some
                &&& self.z is Some
                &&& self.theta is Some
                &&& self.points is None
            },
            ElemKind::Path => {
                &&& self.color is Some
                &&& self.x is None
                &&& self.y is None
                &&& self.w is None
                &&& self.h is None
                &&& self.r is None
                &&& self.z is Some
                &&& self.theta is None
                &&& self.points is Some
            },
            ElemKind::Rect => {
                &&& self.color is Some
                &&& self.x is Some
                &&& self.y is Some
                &&& self.w is Some
                &&& self.h is Some
                &&& self.r is None
                &&& self.z is Some
                &&& self.theta is Some
                &&& self.points is None
            },
        }
    }

    /// The difference that leads from `other` to `self`: `self`, with every
    /// field that equals the one of `other` made absent. The identifier is
    /// always carried.
    pub open spec fn diff_against(self, other: ElemView) -> ElemView {
        ElemView {
            kind: self.kind,
            unique_id: self.unique_id,
            group_id: text_diff(self.group_id, other.group_id),
            name: text_diff(self.name, other.name),
            color: color_diff(self.color, other.color),
            x: number_diff(self.x, other.x),
            y: number_diff(self.y, other.y),
            w: number_diff(self.w, other.w),
            h: number_diff(self.h, other.h),
            r: number_diff(self.r, other.r),
            z: number_diff(self.z, other.z),
            theta: number_diff(self.theta, other.theta),
            points: points_diff(self.points, other.points),
        }
    }

    /// The element that a difference makes of `self`: each field that the
    /// difference carries replaces the one of `self`.
    pub open spec fn patched(self, diff: ElemView) -> ElemView {
        ElemView {
            kind: self.kind,
            unique_id: self.unique_id,
            group_id: if diff.group_id.len() > 0 {
                diff.group_id
            } else {
                self.group_id
            },
            name: if diff.name.len() > 0 {
                diff.name
            } else {
                self.name
            },
            color: if diff.color is Some {
                diff.color
            } else {
                self.color
            },
            x: if diff.x is Some {
                diff.x
            } else {
                self.x
            },
            y: if diff.y is Some {
                diff.y
            } else {
                self.y
            },
            w: if diff.w is Some {
                diff.w
            } else {
                self.w
            },
            h: if diff.h is Some {
                diff.h
            } else {
                self.h
            },
            r: if diff.r is Some {
                diff.r
            } else {
                self.r
            },
            z: if diff.z is Some {
                diff.z
            } else {
                self.z
            },
            theta: if diff.theta is Some {
                diff.theta
            } else {
                self.theta
            },
            points: if diff.points is Some {
                diff.points
            } else {
                self.points
            },
        }
    }

    /// The two elements describe the same thing: the same shape, identifier,
    /// names and color, and numbers that stand for the same values.
    pub open spec fn same(self, other: ElemView) -> bool {
        &&& self.kind == other.kind
        &&& self.unique_id == other.unique_id
        &&& self.group_id == other.group_id
        &&& self.name == other.name
        &&& self.color == other.color
        &&& same_number(self.x, other.x)
        &&& same_number(self.y, other.y)
        &&& same_number(self.w, other.w)
        &&& same_number(self.h, other.h)
        &&& same_number(self.r, other.r)
        &&& same_number(self.z, other.z)
        &&& same_number(self.theta, other.theta)
        &&& same_points(self.points, other.points)
    }

    /// Nothing but the identifier is carried: the difference of two elements
    /// that are equal field by field.
    pub open spec fn is_blank(self) -> bool {
        &&& self.group_id.len() == 0
        &&& self.name.len() == 0
        &&& self.color is None
        &&& self.x is None
        &&& self.y is None
        &&& self.w is None
        &&& self.h is None
        &&& self.r is None
        &&& self.z is None
        &&& self.theta is None
        &&& self.points is None
    }

    /// The two elements are equal field by field, numbers compared as values.
    pub open spec fn unchanged_from(self, other: ElemView) -> bool {
        &&& self.group_id == other.group_id
        &&& self.name == other.name
        &&& self.color == other.color
        &&& number_diff(self.x, other.x) is None
        &&& number_diff(self.y, other.y) is None
        &&& number_diff(self.w, other.w) is None
        &&& number_diff(self.h, other.h) is None
        &&& number_diff(self.r, other.r) is None
        &&& number_diff(self.z, other.z) is None
        &&& number_diff(self.theta, other.theta) is None
        &&& points_diff(self.points, other.points) is None
    }
}

/// An unchanged element leaves an empty difference: nothing but the
/// identifier is carried.
pub proof fn lemma_unchanged_diff_is_blank(new: ElemView, old: ElemView)
    requires
        new.unchanged_from(old),
    ensures
        new.diff_against(old).is_blank(),
        new.diff_against(old).unique_id == new.unique_id,
{
}

/// Applying to the old element the difference that leads to the new one
/// gives the new one.
pub proof fn lemma_patched_by_diff(new: ElemView, old: ElemView, base: ElemView)
    requires
        new.is_snapshot(),
        old.is_snapshot(),
        new.kind == old.kind,
        new.unique_id == old.unique_id,
        new.name == old.name,
        new.group_id == old.group_id || new.group_id.len() > 0,
        base.same(old),
    ensures
        base.patched(new.diff_against(old)).same(new),
{
    let d = new.diff_against(old);
    let p = base.patched(d);
    if new.points is Some && old.points is Some && base.points is Some {
        let a = new.points->0;
        let b = old.points->0;
        let c = base.points->0;
        if points_equal(a, b) {
            assert(same_point_seq(c, a)) by {
                assert forall|i: int| 0 <= i < c.len() implies (#[trigger] c[i]).x.canonical()
                    == a[i].x.canonical() && c[i].y.canonical() == a[i].y.canonical() by {
                    assert(a[i].x.equals(b[i].x));
                    assert(a[i].y.equals(b[i].y));
                }
            }
        }
    }
}

} // verus!
