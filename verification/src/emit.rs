//! What is written out of an element: its members, in order.
//!
//! An element is written as an object. It names its shape and its
//! identifier; of the rest it holds what is present: the name unless it is
//! empty, the color as `#rrggbb`, and each number that is set. The group is
//! not written. A step of a transition is written as its element with one
//! more member in front, which tells whether the element is created,
//! updated or deleted.
use crate::color::Color;
use crate::graphic::{Diff, DiffView};
use crate::graphic_elems::elems::{kind_name, Elem};
use crate::graphic_elems::view::{ElemKind, ElemView};
use crate::number::Number;
use crate::point::{copy_points, Point};
use crate::unique_id_generator::{uid_text, UID};
use vstd::prelude::*;

verus! {

/// The value of a member.
#[derive(Clone, Debug)]
pub enum FieldValue {
    Text(String),
    Number(Number),
    /// A polyline, to be written as one text `x1 y1 x2 y2 ...`.
    Points(Vec<Point>),
}

/// A member of an object: its name and its value.
#[derive(Clone, Debug)]
pub struct Field {
    pub name: String,
    pub value: FieldValue,
}

/// The value of a member, as a value.
pub enum FieldValueView {
    Text(Seq<char>),
    Number(Number),
    Points(Seq<Point>),
}

/// A member as a value.
pub struct FieldView {
    pub name: Seq<char>,
    pub value: FieldValueView,
}

impl View for FieldValue {
    type V = FieldValueView;

    open spec fn view(&self) -> FieldValueView {
        match self {
            FieldValue::Text(s) => FieldValueView::Text(s@),
            FieldValue::Number(n) => FieldValueView::Number(*n),
            FieldValue::Points(p) => FieldValueView::Points(p@),
        }
    }
}

impl View for Field {
    type V = FieldView;

    open spec fn view(&self) -> FieldView {
        FieldView { name: self.name@, value: self.value@ }
    }
}

/// The members of a vector, as values.
pub open spec fn field_views(v: Seq<Field>) -> Seq<FieldView> {
    Seq::new(v.len(), |i: int| v[i]@)
}

/// The members with one more, which holds a text.
pub open spec fn with_text(acc: Seq<FieldView>, name: Seq<char>, text: Seq<char>) -> Seq<FieldView> {
    acc.push(FieldView { name, value: FieldValueView::Text(text) })
}

/// The members with the one of a number, if the number is set.
pub open spec fn with_number(acc: Seq<FieldView>, name: Seq<char>, n: Option<Number>) -> Seq<FieldView> {
    match n {
        Some(n) => acc.push(FieldView { name, value: FieldValueView::Number(n) }),
        None => acc,
    }
}

/// The members with those that tell which element it is: its identifier,
/// and its name unless that is empty.
pub open spec fn with_identity(acc: Seq<FieldView>, uid: UID, name: Seq<char>) -> Seq<FieldView> {
    let named = with_text(acc, "UID"@, uid_text(uid.value));
    if name.len() > 0 {
        with_text(named, "name"@, name)
    } else {
        named
    }
}

/// The members with the one of the color, written as `#rrggbb`, if there
/// is a color.
pub open spec fn with_color(acc: Seq<FieldView>, c: Option<Color>) -> Seq<FieldView> {
    match c {
        Some(c) => with_text(acc, "color"@, c.hex()),
        None => acc,
    }
}

/// The members with the one of the points, if there are points.
pub open spec fn with_points(acc: Seq<FieldView>, p: Option<Seq<Point>>) -> Seq<FieldView> {
    match p {
        Some(p) => acc.push(FieldView { name: "points"@, value: FieldValueView::Points(p) }),
        None => acc,
    }
}

/// The members with those of an element: its shape, its identity, its
/// color, and its numbers in the order r, x, y, w, h, z, theta, then its
/// points; each only where it is present.
pub open spec fn with_elem(acc: Seq<FieldView>, e: ElemView) -> Seq<FieldView> {
    let a0 = with_text(acc, "elemType"@, kind_name(e.kind));
    let a1 = with_identity(a0, e.unique_id, e.name);
    let a2 = with_color(a1, e.color);
    let a3 = with_number(a2, "r"@, e.r);
    let a4 = with_number(a3, "x"@, e.x);
    let a5 = with_number(a4, "y"@, e.y);
    let a6 = with_number(a5, "w"@, e.w);
    let a7 = with_number(a6, "h"@, e.h);
    let a8 = with_number(a7, "z"@, e.z);
    let a9 = with_number(a8, "theta"@, e.theta);
    with_points(a9, e.points)
}

/// The members of an element.
pub open spec fn elem_fields(e: ElemView) -> Seq<FieldView> {
    with_elem(Seq::empty(), e)
}

/// The members of a step: what it does first, then the element, or the
/// identifier alone for a deletion.
pub open spec fn diff_fields(d: DiffView) -> Seq<FieldView> {
    match d {
        DiffView::Create(e) => with_elem(with_text(Seq::empty(), "diffType"@, "Create"@), e),
        DiffView::Update(e) => with_elem(with_text(Seq::empty(), "diffType"@, "Update"@), e),
        DiffView::Delete(uid) => with_text(
            with_text(Seq::empty(), "diffType"@, "Delete"@),
            "UID"@,
            uid_text(uid.value),
        ),
    }
}

fn push_text(out: &mut Vec<Field>, name: &str, text: String)
    ensures
        field_views(final(out)@) == with_text(field_views(old(out)@), name@, text@),
{
    let ghost before = field_views(out@);
    out.push(Field { name: String::from_str(name), value: FieldValue::Text(text) });
    assert(field_views(out@) =~= with_text(before, name@, text@));
}

fn push_number(out: &mut Vec<Field>, name: &str, n: Option<Number>)
    ensures
        field_views(final(out)@) == with_number(field_views(old(out)@), name@, n),
{
    let ghost before = field_views(out@);
    match n {
        Some(n) => {
            out.push(Field { name: String::from_str(name), value: FieldValue::Number(n) });
        },
        None => {},
    }
    assert(field_views(out@) =~= with_number(before, name@, n));
}

fn kind_text(kind: ElemKind) -> (s: String)
    ensures
        s@ == kind_name(kind),
{
    match kind {
        ElemKind::Camera => String::from_str("Camera"),
        ElemKind::Circle => String::from_str("Circle"),
        ElemKind::Path => String::from_str("Path"),
        ElemKind::Rect => String::from_str("Rect"),
    }
}

fn push_identity(out: &mut Vec<Field>, uid: UID, name: &str)
    ensures
        field_views(final(out)@) == with_identity(field_views(old(out)@), uid, name@),
{
    push_text(out, "UID", uid.to_text());
    if name.unicode_len() > 0 {
        push_text(out, "name", String::from_str(name));
    }
}

fn push_color(out: &mut Vec<Field>, c: Option<Color>)
    ensures
        field_views(final(out)@) == with_color(field_views(old(out)@), c),
{
    match c {
        Some(c) => {
            push_text(out, "color", c.to_hex());
        },
        None => {},
    }
}

/// The color and the numbers of an element, in the order in which they
/// are written: r, x, y, w, h, z, theta.
fn paint_and_numbers(e: &Elem) -> (r: (Option<Color>, [Option<Number>; 7]))
    ensures
        r.0 == e@.color,
        r.1[0] == e@.r,
        r.1[1] == e@.x,
        r.1[2] == e@.y,
        r.1[3] == e@.w,
        r.1[4] == e@.h,
        r.1[5] == e@.z,
        r.1[6] == e@.theta,
{
    match e {
        Elem::Camera(c) => (None, [None, c.x, c.y, c.w, c.h, None, None]),
        Elem::Circle(c) => (c.color, [c.r, c.x, c.y, None, None, c.z, c.theta]),
        Elem::Path(p) => (p.color, [None, None, None, None, None, p.z, None]),
        Elem::Rect(r) => (r.color, [None, r.x, r.y, r.w, r.h, r.z, r.theta]),
    }
}

fn push_points(out: &mut Vec<Field>, e: &Elem)
    ensures
        field_views(final(out)@) == with_points(field_views(old(out)@), e@.points),
{
    let ghost before = field_views(out@);
    match e {
        Elem::Path(p) => match &p.points {
            Some(points) => {
                out.push(
                    Field {
                        name: String::from_str("points"),
                        value: FieldValue::Points(copy_points(points)),
                    },
                );
            },
            None => {},
        },
        _ => {},
    }
    assert(field_views(out@) =~= with_points(before, e@.points));
}

fn push_elem(out: &mut Vec<Field>, e: &Elem)
    ensures
        field_views(final(out)@) == with_elem(field_views(old(out)@), e@),
{
    let (color, numbers) = paint_and_numbers(e);
    push_text(out, "elemType", kind_text(e.kind()));
    push_identity(out, e.get_unique_id(), e.name());
    push_color(out, color);
    push_number(out, "r", numbers[0]);
    push_number(out, "x", numbers[1]);
    push_number(out, "y", numbers[2]);
    push_number(out, "w", numbers[3]);
    push_number(out, "h", numbers[4]);
    push_number(out, "z", numbers[5]);
    push_number(out, "theta", numbers[6]);
    push_points(out, e);
}

impl Elem {
    /// The members of the element as it is written out.
    pub fn fields(&self) -> (out: Vec<Field>)
        ensures
            field_views(out@) == elem_fields(self@),
    {
        let mut out: Vec<Field> = Vec::new();
        assert(field_views(out@) =~= Seq::<FieldView>::empty());
        push_elem(&mut out, self);
        out
    }
}

impl Diff {
    /// The members of the step as it is written out.
    pub fn fields(&self) -> (out: Vec<Field>)
        ensures
            field_views(out@) == diff_fields(self@),
    {
        let mut out: Vec<Field> = Vec::new();
        assert(field_views(out@) =~= Seq::<FieldView>::empty());
        match self {
            Diff::Create(e) => {
                push_text(&mut out, "diffType", String::from_str("Create"));
                push_elem(&mut out, e);
            },
            Diff::Update(e) => {
                push_text(&mut out, "diffType", String::from_str("Update"));
                push_elem(&mut out, e);
            },
            Diff::Delete(d) => {
                push_text(&mut out, "diffType", String::from_str("Delete"));
                push_text(&mut out, "UID", d.unique_id.to_text());
            },
        }
        out
    }
}

} // verus!
