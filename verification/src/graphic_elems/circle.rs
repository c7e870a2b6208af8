//! Circles.
use crate::color::Color;
use crate::context::Context;
use crate::error::Error;
use crate::graphic_elems::draft::{base_color, blend_of, or_number, resolve_blend, Blend};
use crate::graphic_elems::view::{ElemKind, ElemView};
use crate::graphic_elems::view_ops::{diff_color, diff_number, diff_text};
use crate::number::{Number, ONE_BITS};
use crate::setting::ShapeKind;
use crate::text::str_eq;
use crate::traits::{blank_params, Params, Visualizable};
use crate::unique_id_generator::UID;
use crate::words::Word;
use vstd::prelude::*;

verus! {

/// A circle, or the difference of two circles.
#[derive(Clone, Debug)]
pub struct Circle {
    pub unique_id: UID,
    pub group_id: String,
    pub name: String,
    pub color: Option<Color>,
    pub r: Option<Number>,
    pub x: Option<Number>,
    pub y: Option<Number>,
    pub z: Option<Number>,
    pub theta: Option<Number>,
}

/// A circle under construction.
#[derive(Clone, Debug)]
pub struct MultiParametricCircle {
    pub group_id: String,
    pub name: String,
    pub color: Option<Color>,
    pub grad_begin: Option<Color>,
    pub grad_end: Option<Color>,
    pub grad_ratio: Option<Number>,
    pub r: Option<Number>,
    pub x: Option<Number>,
    pub y: Option<Number>,
    pub z: Option<Number>,
    pub theta: Option<Number>,
}

impl View for Circle {
    type V = ElemView;

    open spec fn view(&self) -> ElemView {
        ElemView {
            kind: ElemKind::Circle,
            unique_id: self.unique_id,
            group_id: self.group_id@,
            name: self.name@,
            color: self.color,
            x: self.x,
            y: self.y,
            w: None,
            h: None,
            r: self.r,
            z: self.z,
            theta: self.theta,
            points: None,
        }
    }
}

/// The circle that a record of parameters describes, before its gradient is
/// applied: radius 1 at the origin, flat and unturned, where nothing else is
/// set.
pub open spec fn circle_of(p: Params) -> ElemView {
    ElemView {
        kind: ElemKind::Circle,
        unique_id: UID { value: 0 },
        group_id: p.group_id,
        name: p.name,
        color: Some(base_color(p)),
        x: Some(or_number(p.x, 0)),
        y: Some(or_number(p.y, 0)),
        w: None,
        h: None,
        r: Some(or_number(p.r, ONE_BITS)),
        z: Some(or_number(p.z, 0)),
        theta: Some(or_number(p.theta, 0)),
        points: None,
    }
}

impl Default for Circle {
    /// The circle `circle0` of radius 1 at the origin, in the default color, in
    /// `group0`.
    fn default() -> (c: Circle)
        ensures
            c@ == circle_of(crate::traits::initial_params(ShapeKind::Circle)),
    {
        Circle {
            unique_id: UID::unset(),
            group_id: String::from_str("group0"),
            name: String::from_str("circle0"),
            color: Some(Color::default()),
            r: Some(Number::one()),
            x: Some(Number::zero()),
            y: Some(Number::zero()),
            z: Some(Number::zero()),
            theta: Some(Number::zero()),
        }
    }
}

impl Default for MultiParametricCircle {
    fn default() -> (c: MultiParametricCircle)
        ensures
            c.params() == crate::traits::initial_params(ShapeKind::Circle),
    {
        MultiParametricCircle {
            group_id: String::from_str("group0"),
            name: String::from_str("circle0"),
            color: None,
            grad_begin: None,
            grad_end: None,
            grad_ratio: None,
            r: None,
            x: None,
            y: None,
            z: None,
            theta: None,
        }
    }
}

impl Visualizable for MultiParametricCircle {
    open spec fn shape() -> ShapeKind {
        ShapeKind::Circle
    }

    open spec fn params(&self) -> Params {
        Params {
            group_id: self.group_id@,
            name: self.name@,
            color: self.color,
            grad_begin: self.grad_begin,
            grad_end: self.grad_end,
            grad_ratio: self.grad_ratio,
            r: self.r,
            x: self.x,
            y: self.y,
            z: self.z,
            theta: self.theta,
            ..blank_params()
        }
    }

    fn kind() -> (k: ShapeKind) {
        ShapeKind::Circle
    }

    fn start() -> (r: MultiParametricCircle) {
        MultiParametricCircle::default()
    }

    fn set_by_param_name_and_word(&mut self, param_name: &str, word: &Word, ctx: &Context) -> (r:
        Result<(), Error>) {
        if str_eq(param_name, "groupID") {
            self.group_id = word.text.clone();
            Ok(())
        } else if str_eq(param_name, "name") || str_eq(param_name, "elemID") {
            self.name = word.text.clone();
            Ok(())
        } else if str_eq(param_name, "color") {
            self.color = Some(Color::from_str_based_on(word.text.as_str())?);
            Ok(())
        } else if str_eq(param_name, "gradBegin") {
            self.grad_begin = Some(Color::from_str_based_on(word.text.as_str())?);
            Ok(())
        } else if str_eq(param_name, "gradEnd") {
            self.grad_end = Some(Color::from_str_based_on(word.text.as_str())?);
            Ok(())
        } else if str_eq(param_name, "gradRatio") {
            self.grad_ratio = Some(word.number_based_on(ctx)?);
            Ok(())
        } else if str_eq(param_name, "r") {
            self.r = Some(word.number_based_on(ctx)?);
            Ok(())
        } else if str_eq(param_name, "x") {
            self.x = Some(word.number_based_on(ctx)?);
            Ok(())
        } else if str_eq(param_name, "y") {
            self.y = Some(word.number_based_on(ctx)?);
            Ok(())
        } else if str_eq(param_name, "z") {
            self.z = Some(word.number_based_on(ctx)?);
            Ok(())
        } else if str_eq(param_name, "theta") {
            self.theta = Some(word.number_based_on(ctx)?);
            Ok(())
        } else {
            Err(Error::UnknownParam)
        }
    }

    fn set_points(&mut self, words: &Vec<Word>, pos: &mut usize, ctx: &Context) -> (r: Result<
        (),
        Error,
    >) {
        Err(Error::UnknownParam)
    }
}

impl Circle {
    /// The circle that the parameters describe, and the gradient that is
    /// still to be applied to its color, if there is one.
    pub fn try_from(value: MultiParametricCircle) -> (r: (Circle, Option<Blend>))
        ensures
            r.0@ == circle_of(value.params()),
            r.1 == blend_of(value.params()),
            r.0@.is_snapshot(),
    {
        let blend = resolve_blend(value.grad_begin, value.grad_end, value.grad_ratio);
        let c = Circle {
            unique_id: UID::unset(),
            group_id: value.group_id,
            name: value.name,
            color: Some(
                match value.color {
                    Some(c) => c,
                    None => Color::default(),
                },
            ),
            r: Some(
                match value.r {
                    Some(n) => n,
                    None => Number::one(),
                },
            ),
            x: Some(
                match value.x {
                    Some(n) => n,
                    None => Number::zero(),
                },
            ),
            y: Some(
                match value.y {
                    Some(n) => n,
                    None => Number::zero(),
                },
            ),
            z: Some(
                match value.z {
                    Some(n) => n,
                    None => Number::zero(),
                },
            ),
            theta: Some(
                match value.theta {
                    Some(n) => n,
                    None => Number::zero(),
                },
            ),
        };
        (c, blend)
    }

    /// The difference that leads from `other` to `self`.
    pub fn extract_diff_from(&self, other: &Circle) -> (r: Circle)
        ensures
            r@ == self@.diff_against(other@),
    {
        Circle {
            unique_id: self.unique_id,
            group_id: diff_text(&self.group_id, &other.group_id),
            name: diff_text(&self.name, &other.name),
            color: diff_color(self.color, other.color),
            r: diff_number(self.r, other.r),
            x: diff_number(self.x, other.x),
            y: diff_number(self.y, other.y),
            z: diff_number(self.z, other.z),
            theta: diff_number(self.theta, other.theta),
        }
    }
}

} // verus!
