//! Open polylines.
use crate::color::Color;
use crate::context::Context;
use crate::error::Error;
use crate::graphic_elems::draft::{base_color, blend_of, or_number, resolve_blend, Blend};
use crate::graphic_elems::view::{ElemKind, ElemView};
use crate::graphic_elems::view_ops::{diff_color, diff_number, diff_points, diff_text, points_view};
use crate::number::Number;
use crate::point::Point;
use crate::setting::ShapeKind;
use crate::text::str_eq;
use crate::traits::{blank_params, read_points, Params, Visualizable};
use crate::unique_id_generator::UID;
use crate::words::{word_views, Word};
use vstd::prelude::*;

verus! {

/// A polyline, or the difference of two polylines.
#[derive(Clone, Debug)]
pub struct Path {
    pub unique_id: UID,
    pub group_id: String,
    pub name: String,
    pub color: Option<Color>,
    pub z: Option<Number>,
    pub points: Option<Vec<Point>>,
}

/// A polyline under construction.
#[derive(Clone, Debug)]
pub struct MultiParametricPath {
    pub group_id: String,
    pub name: String,
    pub color: Option<Color>,
    pub grad_begin: Option<Color>,
    pub grad_end: Option<Color>,
    pub grad_ratio: Option<Number>,
    pub z: Option<Number>,
    pub n: Option<Number>,
    pub points: Vec<Point>,
}

impl View for Path {
    type V = ElemView;

    open spec fn view(&self) -> ElemView {
        ElemView {
            kind: ElemKind::Path,
            unique_id: self.unique_id,
            group_id: self.group_id@,
            name: self.name@,
            color: self.color,
            x: None,
            y: None,
            w: None,
            h: None,
            r: None,
            z: self.z,
            theta: None,
            points: points_view(self.points),
        }
    }
}

/// The polyline that a record of parameters describes, before its gradient
/// is applied: the points as they were read, flat where `z` is not set.
pub open spec fn path_of(p: Params) -> ElemView {
    ElemView {
        kind: ElemKind::Path,
        unique_id: UID { value: 0 },
        group_id: p.group_id,
        name: p.name,
        color: Some(base_color(p)),
        x: None,
        y: None,
        w: None,
        h: None,
        r: None,
        z: Some(or_number(p.z, 0)),
        theta: None,
        points: Some(p.points),
    }
}

impl Default for Path {
    /// The polyline `path0` without points, in the default color, in `group0`.
    fn default() -> (p: Path)
        ensures
            p@ == path_of(crate::traits::initial_params(ShapeKind::Path)),
    {
        Path {
            unique_id: UID::unset(),
            group_id: String::from_str("group0"),
            name: String::from_str("path0"),
            color: Some(Color::default()),
            z: Some(Number::zero()),
            points: Some(Vec::new()),
        }
    }
}

impl Default for MultiParametricPath {
    fn default() -> (p: MultiParametricPath)
        ensures
            p.params() == crate::traits::initial_params(ShapeKind::Path),
    {
        MultiParametricPath {
            group_id: String::from_str("group0"),
            name: String::from_str("path0"),
            color: None,
            grad_begin: None,
            grad_end: None,
            grad_ratio: None,
            z: None,
            n: None,
            points: Vec::new(),
        }
    }
}

impl Visualizable for MultiParametricPath {
    open spec fn shape() -> ShapeKind {
        ShapeKind::Path
    }

    open spec fn params(&self) -> Params {
        Params {
            group_id: self.group_id@,
            name: self.name@,
            color: self.color,
            grad_begin: self.grad_begin,
            grad_end: self.grad_end,
            grad_ratio: self.grad_ratio,
            z: self.z,
            n: self.n,
            points: self.points@,
            ..blank_params()
        }
    }

    fn kind() -> (k: ShapeKind) {
        ShapeKind::Path
    }

    fn start() -> (r: MultiParametricPath) {
        MultiParametricPath::default()
    }

    fn set_by_param_name_and_word(&mut self, param_name: &str, word: &Word, ctx: &Context) -> (r:
        Result<(), Error>) {
        if str_eq(param_name, "groupID") {
            self.group_id = word.text.clone();
            Ok(())
        } else if str_eq(param_name, "name") {
            self.name = word.text.clone();
            Ok(())
        } else if str_eq(param_name, "color") {
            self.color = Some(Color::from_str_based_on(word.text.as_str())?);
            Ok(())
        } else if str_eq(param_name, "gradBegin") {
            self.grad_begin = Some(Color::from_str_based_on(word.text.as_str())?);
            Ok(())
        } else if str_eq(param_name, "gradEnd") {
            self.grad_end = Some(Color::from_str_based_on(word.text.as_str())?);
            Ok(())
        } else if str_eq(param_name, "gradRatio") {
            self.grad_ratio = Some(word.number_based_on(ctx)?);
            Ok(())
        } else if str_eq(param_name, "z") {
            self.z = Some(word.number_based_on(ctx)?);
            Ok(())
        } else if str_eq(param_name, "n") {
            self.n = Some(word.number_based_on(ctx)?);
            Ok(())
        } else {
            Err(Error::UnknownParam)
        }
    }

    fn set_points(&mut self, words: &Vec<Word>, pos: &mut usize, ctx: &Context) -> (r: Result<
        (),
        Error,
    >) {
        let n: u64 = match self.n {
            None => {
                return Err(Error::PointsBeforeCount);
            },
            Some(n) => n.to_count(),
        };
        let ghost start = self.points@;
        let ghost all = word_views(words@);
        let ghost goal = read_points(start, all, *pos as int, n as nat, *ctx);
        // The points are gathered first: a refusal must leave the path as it was.
        let mut fresh: Vec<Point> = Vec::new();
        let mut at: usize = *pos;
        let mut k: u64 = 0;
        assert(start + fresh@ =~= start);
        while k < n
            invariant
                k <= n,
                at <= words.len(),
                all == word_views(words@),
                *pos == *old(pos),
                *old(pos) <= words.len(),
                self.params() == old(self).params(),
                old(self).params().n is Some && old(self).params().n->0.count() == n,
                start == old(self).params().points,
                goal == read_points(start, all, *old(pos) as int, n as nat, *ctx),
                goal == read_points(start + fresh@, all, at as int, (n - k) as nat, *ctx),
            decreases n - k,
        {
            if at >= words.len() {
                return Err(Error::MissingWord { input: 0 });
            }
            assert(all[at as int] == words[at as int]@);
            let x: Number = match words[at].number_based_on(ctx) {
                Ok(x) => x,
                Err(e) => {
                    return Err(e);
                },
            };
            if at + 1 >= words.len() {
                return Err(Error::MissingWord { input: 0 });
            }
            assert(all[at + 1] == words[at + 1]@);
            let y: Number = match words[at + 1].number_based_on(ctx) {
                Ok(y) => y,
                Err(e) => {
                    return Err(e);
                },
            };
            let ghost before = fresh@;
            fresh.push(Point { x, y });
            assert(start + fresh@ =~= (start + before).push(Point { x, y }));
            at = at + 2;
            k = k + 1;
        }
        let mut i: usize = 0;
        assert(start + fresh@.take(0) =~= start);
        while i < fresh.len()
            invariant
                i <= fresh.len(),
                self.points@ == start + fresh@.take(i as int),
                self.params() == (Params { points: self.points@, ..old(self).params() }),
            decreases fresh.len() - i,
        {
            self.points.push(fresh[i]);
            assert(self.points@ =~= start + fresh@.take(i + 1));
            i = i + 1;
        }
        assert(fresh@.take(fresh.len() as int) =~= fresh@);
        *pos = at;
        Ok(())
    }
}

impl Path {
    /// The polyline that the parameters describe, and the gradient that is
    /// still to be applied to its color, if there is one.
    pub fn try_from(value: MultiParametricPath) -> (r: (Path, Option<Blend>))
        ensures
            r.0@ == path_of(value.params()),
            r.1 == blend_of(value.params()),
            r.0@.is_snapshot(),
    {
        let blend = resolve_blend(value.grad_begin, value.grad_end, value.grad_ratio);
        let p = Path {
            unique_id: UID::unset(),
            group_id: value.group_id,
            name: value.name,
            color: Some(
                match value.color {
                    Some(c) => c,
                    None => Color::default(),
                },
            ),
            z: Some(
                match value.z {
                    Some(n) => n,
                    None => Number::zero(),
                },
            ),
            points: Some(value.points),
        };
        (p, blend)
    }

    /// The difference that leads from `other` to `self`.
    pub fn extract_diff_from(&self, other: &Path) -> (r: Path)
        ensures
            r@ == self@.diff_against(other@),
    {
        Path {
            unique_id: self.unique_id,
            group_id: diff_text(&self.group_id, &other.group_id),
            name: diff_text(&self.name, &other.name),
            color: diff_color(self.color, other.color),
            z: diff_number(self.z, other.z),
            points: diff_points(&self.points, &other.points),
        }
    }
}

} // verus!
