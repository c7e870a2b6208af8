//! Rectangles.
//!
//! A rectangle is described by any two of left, right, width and centerX,
//! and any two of top, bottom, height and centerY; its start and extent
//! along each axis follow from them.
use crate::color::Color;
use crate::context::Context;
use crate::error::Error;
use crate::graphic_elems::draft::{
    axis,
    base_color,
    blend_of,
    count_set,
    law_axis_total,
    or_number,
    resolve_axis,
    resolve_blend,
    Blend,
    Scalar,
};
use crate::graphic_elems::view::{ElemKind, ElemView};
use crate::graphic_elems::view_ops::{diff_color, diff_number, diff_text};
use crate::number::{Number, ONE_BITS};
use crate::setting::ShapeKind;
use crate::text::str_eq;
use crate::traits::{blank_params, Params, Visualizable};
use crate::unique_id_generator::UID;
use crate::words::Word;
use vstd::prelude::*;

verus! {

/// A rectangle, or the difference of two rectangles.
#[derive(Clone, Debug)]
pub struct Rect {
    pub unique_id: UID,
    pub group_id: String,
    pub name: String,
    pub color: Option<Color>,
    pub x: Option<Number>,
    pub y: Option<Number>,
    pub w: Option<Number>,
    pub h: Option<Number>,
    pub z: Option<Number>,
    pub theta: Option<Number>,
}

/// A rectangle under construction.
#[derive(Clone, Debug)]
pub struct MultiParametricRect {
    pub group_id: String,
    pub name: String,
    pub color: Option<Color>,
    pub grad_begin: Option<Color>,
    pub grad_end: Option<Color>,
    pub grad_ratio: Option<Number>,
    pub left: Option<Number>,
    pub right: Option<Number>,
    pub width: Option<Number>,
    pub center_x: Option<Number>,
    pub top: Option<Number>,
    pub bottom: Option<Number>,
    pub height: Option<Number>,
    pub center_y: Option<Number>,
    pub z: Option<Number>,
    pub theta: Option<Number>,
}

/// A rectangle whose parameters are chosen and whose start and extent are
/// still to be computed.
#[derive(Clone, Debug)]
pub struct RectDraft {
    pub unique_id: UID,
    pub group_id: String,
    pub name: String,
    pub color: Color,
    pub blend: Option<Blend>,
    pub x: Scalar,
    pub w: Scalar,
    pub y: Scalar,
    pub h: Scalar,
    pub z: Number,
    pub theta: Number,
}

/// A draft of a rectangle as a value.
pub struct RectDraftView {
    pub unique_id: UID,
    pub group_id: Seq<char>,
    pub name: Seq<char>,
    pub color: Color,
    pub blend: Option<Blend>,
    pub x: Scalar,
    pub w: Scalar,
    pub y: Scalar,
    pub h: Scalar,
    pub z: Number,
    pub theta: Number,
}

impl View for Rect {
    type V = ElemView;

    open spec fn view(&self) -> ElemView {
        ElemView {
            kind: ElemKind::Rect,
            unique_id: self.unique_id,
            group_id: self.group_id@,
            name: self.name@,
            color: self.color,
            x: self.x,
            y: self.y,
            w: self.w,
            h: self.h,
            r: None,
            z: self.z,
            theta: self.theta,
            points: None,
        }
    }
}

impl View for RectDraft {
    type V = RectDraftView;

    open spec fn view(&self) -> RectDraftView {
        RectDraftView {
            unique_id: self.unique_id,
            group_id: self.group_id@,
            name: self.name@,
            color: self.color,
            blend: self.blend,
            x: self.x,
            w: self.w,
            y: self.y,
            h: self.h,
            z: self.z,
            theta: self.theta,
        }
    }
}

/// What a record of parameters makes of a rectangle. The horizontal axis
/// is looked at first: where neither axis is determined, the width is
/// reported.
pub open spec fn rect_draft_of(p: Params) -> Result<RectDraftView, Error> {
    match axis(p.left, p.right, p.width, p.center_x) {
        None => Err(Error::UndeterminedWidth),
        Some((x, w)) => match axis(p.top, p.bottom, p.height, p.center_y) {
            None => Err(Error::UndeterminedHeight),
            Some((y, h)) => Ok(
                RectDraftView {
                    unique_id: UID { value: 0 },
                    group_id: p.group_id,
                    name: p.name,
                    color: base_color(p),
                    blend: blend_of(p),
                    x,
                    w,
                    y,
                    h,
                    z: or_number(p.z, 0),
                    theta: or_number(p.theta, 0),
                },
            ),
        },
    }
}

/// The rectangle that a draft becomes once its color and its four numbers
/// are computed.
pub open spec fn rect_of(d: RectDraftView, color: Color, x: Number, w: Number, y: Number, h: Number) -> ElemView {
    ElemView {
        kind: ElemKind::Rect,
        unique_id: d.unique_id,
        group_id: d.group_id,
        name: d.name,
        color: Some(color),
        x: Some(x),
        y: Some(y),
        w: Some(w),
        h: Some(h),
        r: None,
        z: Some(d.z),
        theta: Some(d.theta),
        points: None,
    }
}

/// A rectangle with at least two of left, right, width and centerX, and at
/// least two of top, bottom, height and centerY, is reduced; and whatever
/// its start and extent are computed to, the rectangle that comes out has
/// all four of them.
pub proof fn law_rect_reduction_total(p: Params, color: Color, x: Number, w: Number, y: Number, h: Number)
    requires
        count_set(p.left, p.right, p.width, p.center_x) >= 2,
        count_set(p.top, p.bottom, p.height, p.center_y) >= 2,
    ensures
        rect_draft_of(p) is Ok,
        rect_of(rect_draft_of(p)->Ok_0, color, x, w, y, h).is_snapshot(),
        rect_of(rect_draft_of(p)->Ok_0, color, x, w, y, h).x == Some(x),
        rect_of(rect_draft_of(p)->Ok_0, color, x, w, y, h).w == Some(w),
        rect_of(rect_draft_of(p)->Ok_0, color, x, w, y, h).y == Some(y),
        rect_of(rect_draft_of(p)->Ok_0, color, x, w, y, h).h == Some(h),
{
    law_axis_total(p.left, p.right, p.width, p.center_x);
    law_axis_total(p.top, p.bottom, p.height, p.center_y);
}

impl Default for Rect {
    /// The unit square `rect0` at the origin, in the default color, in `group0`.
    fn default() -> (r: Rect)
        ensures
            r.unique_id.value == 0,
            r.group_id@ == "group0"@,
            r.name@ == "rect0"@,
            r.color == Some(Color { r: 255, g: 255, b: 255 }),
            r.x == Some(Number { bits: 0 }),
            r.y == Some(Number { bits: 0 }),
            r.w == Some(Number { bits: ONE_BITS }),
            r.h == Some(Number { bits: ONE_BITS }),
            r.z == Some(Number { bits: 0 }),
            r.theta == Some(Number { bits: 0 }),
    {
        Rect {
            unique_id: UID::unset(),
            group_id: String::from_str("group0"),
            name: String::from_str("rect0"),
            color: Some(Color::default()),
            x: Some(Number::zero()),
            y: Some(Number::zero()),
            w: Some(Number::one()),
            h: Some(Number::one()),
            z: Some(Number::zero()),
            theta: Some(Number::zero()),
        }
    }
}

impl Default for MultiParametricRect {
    fn default() -> (r: MultiParametricRect)
        ensures
            r.params() == crate::traits::initial_params(ShapeKind::Rect),
    {
        MultiParametricRect {
            group_id: String::from_str("group0"),
            name: String::from_str("rect0"),
            color: None,
            grad_begin: None,
            grad_end: None,
            grad_ratio: None,
            left: None,
            right: None,
            width: None,
            center_x: None,
            top: None,
            bottom: None,
            height: None,
            center_y: None,
            z: None,
            theta: None,
        }
    }
}

impl Visualizable for MultiParametricRect {
    open spec fn shape() -> ShapeKind {
        ShapeKind::Rect
    }

    open spec fn params(&self) -> Params {
        Params {
            group_id: self.group_id@,
            name: self.name@,
            color: self.color,
            grad_begin: self.grad_begin,
            grad_end: self.grad_end,
            grad_ratio: self.grad_ratio,
            left: self.left,
            right: self.right,
            width: self.width,
            center_x: self.center_x,
            top: self.top,
            bottom: self.bottom,
            height: self.height,
            center_y: self.center_y,
            z: self.z,
            theta: self.theta,
            ..blank_params()
        }
    }

    fn kind() -> (k: ShapeKind) {
        ShapeKind::Rect
    }

    fn start() -> (r: MultiParametricRect) {
        MultiParametricRect::default()
    }

    fn set_by_param_name_and_word(&mut self, param_name: &str, word: &Word, ctx: &Context) -> (r:
        Result<(), Error>) {
        if str_eq(param_name, "groupID") {
            self.group_id = word.text.clone();
            Ok(())
        } else if str_eq(param_name, "name") {
            self.name = word.text.clone();
            Ok(())
        } else if str_eq(param_name, "color") {
            self.color = Some(Color::from_str_based_on(word.text.as_str())?);
            Ok(())
        } else if str_eq(param_name, "gradBegin") {
            self.grad_begin = Some(Color::from_str_based_on(word.text.as_str())?);
            Ok(())
        } else if str_eq(param_name, "gradEnd") {
            self.grad_end = Some(Color::from_str_based_on(word.text.as_str())?);
            Ok(())
        } else if str_eq(param_name, "gradRatio") {
            self.grad_ratio = Some(word.number_based_on(ctx)?);
            Ok(())
        } else if str_eq(param_name, "left") {
            self.left = Some(word.number_based_on(ctx)?);
            Ok(())
        } else if str_eq(param_name, "right") {
            self.right = Some(word.number_based_on(ctx)?);
            Ok(())
        } else if str_eq(param_name, "width") {
            self.width = Some(word.number_based_on(ctx)?);
            Ok(())
        } else if str_eq(param_name, "centerX") {
            self.center_x = Some(word.number_based_on(ctx)?);
            Ok(())
        } else if str_eq(param_name, "top") {
            self.top = Some(word.number_based_on(ctx)?);
            Ok(())
        } else if str_eq(param_name, "bottom") {
            self.bottom = Some(word.number_based_on(ctx)?);
            Ok(())
        } else if str_eq(param_name, "height") {
            self.height = Some(word.number_based_on(ctx)?);
            Ok(())
        } else if str_eq(param_name, "centerY") {
            self.center_y = Some(word.number_based_on(ctx)?);
            Ok(())
        } else if str_eq(param_name, "z") {
            self.z = Some(word.number_based_on(ctx)?);
            Ok(())
        } else if str_eq(param_name, "theta") {
            self.theta = Some(word.number_based_on(ctx)?);
            Ok(())
        } else {
            Err(Error::UnknownParam)
        }
    }

    fn set_points(&mut self, words: &Vec<Word>, pos: &mut usize, ctx: &Context) -> (r: Result<
        (),
        Error,
    >) {
        Err(Error::UnknownParam)
    }
}

impl Rect {
    /// Chooses, from the parameters that are set, how the start and the
    /// extent of the rectangle along each axis are computed, and its color.
    /// Fails where an axis has fewer than two of its parameters.
    pub fn try_from(value: MultiParametricRect) -> (r: Result<RectDraft, Error>)
        ensures
            match rect_draft_of(value.params()) {
                Ok(d) => r is Ok && r->Ok_0@ == d,
                Err(e) => r is Err && r->Err_0 == e,
            },
    {
        let (x, w) = match resolve_axis(value.left, value.right, value.width, value.center_x) {
            Some(xw) => xw,
            None => {
                return Err(Error::UndeterminedWidth);
            },
        };
        let (y, h) = match resolve_axis(value.top, value.bottom, value.height, value.center_y) {
            Some(yh) => yh,
            None => {
                return Err(Error::UndeterminedHeight);
            },
        };
        let blend = resolve_blend(value.grad_begin, value.grad_end, value.grad_ratio);
        Ok(
            RectDraft {
                unique_id: UID::unset(),
                group_id: value.group_id,
                name: value.name,
                color: match value.color {
                    Some(c) => c,
                    None => Color::default(),
                },
                blend,
                x,
                w,
                y,
                h,
                z: match value.z {
                    Some(n) => n,
                    None => Number::zero(),
                },
                theta: match value.theta {
                    Some(n) => n,
                    None => Number::zero(),
                },
            },
        )
    }

    /// The difference that leads from `other` to `self`.
    pub fn extract_diff_from(&self, other: &Rect) -> (r: Rect)
        ensures
            r@ == self@.diff_against(other@),
    {
        Rect {
            unique_id: self.unique_id,
            group_id: diff_text(&self.group_id, &other.group_id),
            name: diff_text(&self.name, &other.name),
            color: diff_color(self.color, other.color),
            x: diff_number(self.x, other.x),
            y: diff_number(self.y, other.y),
            w: diff_number(self.w, other.w),
            h: diff_number(self.h, other.h),
            z: diff_number(self.z, other.z),
            theta: diff_number(self.theta, other.theta),
        }
    }
}

impl RectDraft {
    /// The rectangle with its color and its four numbers filled in.
    pub fn finish(self, color: Color, x: Number, w: Number, y: Number, h: Number) -> (r: Rect)
        ensures
            r@ == rect_of(self@, color, x, w, y, h),
            r@.is_snapshot(),
    {
        Rect {
            unique_id: self.unique_id,
            group_id: self.group_id,
            name: self.name,
            color: Some(color),
            x: Some(x),
            y: Some(y),
            w: Some(w),
            h: Some(h),
            z: Some(self.z),
            theta: Some(self.theta),
        }
    }
}

} // verus!
