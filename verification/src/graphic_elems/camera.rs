//! The camera: the part of the plane that a group shows.
use crate::context::Context;
use crate::error::Error;
use crate::graphic_elems::draft::or_number;
use crate::graphic_elems::view::{ElemKind, ElemView};
use crate::graphic_elems::view_ops::{diff_number, diff_text};
use crate::number::{Number, THOUSAND_BITS};
use crate::setting::ShapeKind;
use crate::text::str_eq;
use crate::traits::{blank_params, Params, Visualizable};
use crate::unique_id_generator::UID;
use crate::words::Word;
use vstd::prelude::*;

verus! {

/// A camera, or the difference of two cameras.
#[derive(Clone, Debug)]
pub struct Camera {
    pub unique_id: UID,
    pub group_id: String,
    pub x: Option<Number>,
    pub y: Option<Number>,
    pub w: Option<Number>,
    pub h: Option<Number>,
}

impl View for Camera {
    type V = ElemView;

    open spec fn view(&self) -> ElemView {
        ElemView {
            kind: ElemKind::Camera,
            unique_id: self.unique_id,
            group_id: self.group_id@,
            name: Seq::empty(),
            color: None,
            x: self.x,
            y: self.y,
            w: self.w,
            h: self.h,
            r: None,
            z: None,
            theta: None,
            points: None,
        }
    }
}

impl Default for Camera {
    /// The camera of the group `group0` that shows the square of side 1000
    /// at the origin.
    fn default() -> (c: Camera)
        ensures
            c.unique_id.value == 0,
            c.group_id@ == "group0"@,
            c.x == Some(Number { bits: 0 }),
            c.y == Some(Number { bits: 0 }),
            c.w == Some(Number { bits: THOUSAND_BITS }),
            c.h == Some(Number { bits: THOUSAND_BITS }),
    {
        Camera {
            unique_id: UID::unset(),
            group_id: String::from_str("group0"),
            x: Some(Number::zero()),
            y: Some(Number::zero()),
            w: Some(Number::thousand()),
            h: Some(Number::thousand()),
        }
    }
}

impl Visualizable for Camera {
    open spec fn shape() -> ShapeKind {
        ShapeKind::Camera
    }

    open spec fn params(&self) -> Params {
        Params { group_id: self.group_id@, x: self.x, y: self.y, w: self.w, h: self.h, ..blank_params() }
    }

    fn kind() -> (k: ShapeKind) {
        ShapeKind::Camera
    }

    fn start() -> (r: Camera) {
        Camera::default()
    }

    fn set_by_param_name_and_word(&mut self, param_name: &str, word: &Word, ctx: &Context) -> (r:
        Result<(), Error>) {
        if str_eq(param_name, "groupID") {
            self.group_id = word.text.clone();
            Ok(())
        } else if str_eq(param_name, "x") {
            self.x = Some(word.number_based_on(ctx)?);
            Ok(())
        } else if str_eq(param_name, "y") {
            self.y = Some(word.number_based_on(ctx)?);
            Ok(())
        } else if str_eq(param_name, "w") {
            self.w = Some(word.number_based_on(ctx)?);
            Ok(())
        } else if str_eq(param_name, "h") {
            self.h = Some(word.number_based_on(ctx)?);
            Ok(())
        } else {
            Err(Error::UnknownParam)
        }
    }

    fn set_points(&mut self, words: &Vec<Word>, pos: &mut usize, ctx: &Context) -> (r: Result<
        (),
        Error,
    >) {
        Err(Error::UnknownParam)
    }
}

/// The camera that a record of parameters describes.
pub open spec fn camera_of(p: Params) -> ElemView {
    ElemView {
        kind: ElemKind::Camera,
        unique_id: UID { value: 0 },
        group_id: p.group_id,
        name: Seq::empty(),
        color: None,
        x: Some(or_number(p.x, 0)),
        y: Some(or_number(p.y, 0)),
        w: Some(or_number(p.w, THOUSAND_BITS)),
        h: Some(or_number(p.h, THOUSAND_BITS)),
        r: None,
        z: None,
        theta: None,
        points: None,
    }
}

impl Camera {
    /// The camera with no identifier and with every number in place: a
    /// number that is not set is 0 for the corner and 1000 for the size.
    pub fn completed(self) -> (c: Camera)
        ensures
            c@ == camera_of(self.params()),
            c@.is_snapshot(),
    {
        Camera {
            unique_id: UID::unset(),
            group_id: self.group_id,
            x: Some(
                match self.x {
                    Some(n) => n,
                    None => Number::zero(),
                },
            ),
            y: Some(
                match self.y {
                    Some(n) => n,
                    None => Number::zero(),
                },
            ),
            w: Some(
                match self.w {
                    Some(n) => n,
                    None => Number::thousand(),
                },
            ),
            h: Some(
                match self.h {
                    Some(n) => n,
                    None => Number::thousand(),
                },
            ),
        }
    }

    /// The difference that leads from `other` to `self`.
    pub fn extract_diff_from(&self, other: &Camera) -> (r: Camera)
        ensures
            r@ == self@.diff_against(other@),
    {
        Camera {
            unique_id: self.unique_id,
            group_id: diff_text(&self.group_id, &other.group_id),
            x: diff_number(self.x, other.x),
            y: diff_number(self.y, other.y),
            w: diff_number(self.w, other.w),
            h: diff_number(self.h, other.h),
        }
    }
}

} // verus!
