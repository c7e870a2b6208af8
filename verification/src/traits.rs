//! How a command fills the parameters of an element.
//!
//! An element under construction is a record of optional parameters. A
//! command first applies the defaults of its setting, then reads one word of
//! the stream for each input parameter; the parameter `points` of a path
//! reads two words for each of the `n` points instead.
use crate::color::{parse_color, Color};
use crate::context::Context;
use crate::error::Error;
use crate::number::{Number, THOUSAND_BITS};
use crate::point::Point;
use crate::setting::{DefaultView, GraphicPartsSetting, ShapeKind};
use crate::text::str_eq;
use crate::words::{read_number, word_views, Word, WordView};
use vstd::prelude::*;

verus! {

/// The parameters that a word can set.
#[derive(Clone, Copy, Debug, PartialEq, Eq, Structural)]
pub enum Field {
    GroupId,
    Name,
    Color,
    GradBegin,
    GradEnd,
    GradRatio,
    X,
    Y,
    W,
    H,
    R,
    Z,
    Theta,
    Left,
    Right,
    Width,
    CenterX,
    Top,
    Bottom,
    Height,
    CenterY,
    N,
}

/// An element under construction, as a value: every parameter of every
/// shape, absent until it is set.
pub struct Params {
    pub group_id: Seq<char>,
    pub name: Seq<char>,
    pub color: Option<Color>,
    pub grad_begin: Option<Color>,
    pub grad_end: Option<Color>,
    pub grad_ratio: Option<Number>,
    pub x: Option<Number>,
    pub y: Option<Number>,
    pub w: Option<Number>,
    pub h: Option<Number>,
    pub r: Option<Number>,
    pub z: Option<Number>,
    pub theta: Option<Number>,
    pub left: Option<Number>,
    pub right: Option<Number>,
    pub width: Option<Number>,
    pub center_x: Option<Number>,
    pub top: Option<Number>,
    pub bottom: Option<Number>,
    pub height: Option<Number>,
    pub center_y: Option<Number>,
    pub n: Option<Number>,
    pub points: Seq<Point>,
}

/// The record in which nothing is set and the names are empty.
pub open spec fn blank_params() -> Params {
    Params {
        group_id: Seq::empty(),
        name: Seq::empty(),
        color: None,
        grad_begin: None,
        grad_end: None,
        grad_ratio: None,
        x: None,
        y: None,
        w: None,
        h: None,
        r: None,
        z: None,
        theta: None,
        left: None,
        right: None,
        width: None,
        center_x: None,
        top: None,
        bottom: None,
        height: None,
        center_y: None,
        n: None,
        points: Seq::empty(),
    }
}

/// What a shape starts from: its group and name have their defaults, a
/// camera looks at the square of side 1000 at the origin, and nothing else
/// is set.
pub open spec fn initial_params(kind: ShapeKind) -> Params {
    match kind {
        ShapeKind::Camera => Params {
            group_id: "group0"@,
            x: Some(Number { bits: 0 }),
            y: Some(Number { bits: 0 }),
            w: Some(Number { bits: THOUSAND_BITS }),
            h: Some(Number { bits: THOUSAND_BITS }),
            ..blank_params()
        },
        ShapeKind::Chart => Params { group_id: "group0"@, name: "line0"@, ..blank_params() },
        ShapeKind::Circle => Params { group_id: "group0"@, name: "circle0"@, ..blank_params() },
        ShapeKind::Path => Params { group_id: "group0"@, name: "path0"@, ..blank_params() },
        ShapeKind::Rect => Params { group_id: "group0"@, name: "rect0"@, ..blank_params() },
    }
}

/// The gradient and color parameters, which circles, rectangles and paths
/// share.
pub open spec fn paint_field(name: Seq<char>) -> Option<Field> {
    if name == "color"@ {
        Some(Field::Color)
    } else if name == "gradBegin"@ {
        Some(Field::GradBegin)
    } else if name == "gradEnd"@ {
        Some(Field::GradEnd)
    } else if name == "gradRatio"@ {
        Some(Field::GradRatio)
    } else {
        None
    }
}

/// The parameter that a name means for a shape, if the shape has it.
pub open spec fn field_of(kind: ShapeKind, name: Seq<char>) -> Option<Field> {
    if name == "groupID"@ {
        Some(Field::GroupId)
    } else {
        match kind {
            ShapeKind::Camera => {
                if name == "x"@ {
                    Some(Field::X)
                } else if name == "y"@ {
                    Some(Field::Y)
                } else if name == "w"@ {
                    Some(Field::W)
                } else if name == "h"@ {
                    Some(Field::H)
                } else {
                    None
                }
            },
            ShapeKind::Chart => {
                if name == "lineID"@ {
                    Some(Field::Name)
                } else if name == "color"@ {
                    Some(Field::Color)
                } else if name == "x"@ {
                    Some(Field::X)
                } else if name == "y"@ {
                    Some(Field::Y)
                } else {
                    None
                }
            },
            ShapeKind::Circle => {
                if name == "name"@ || name == "elemID"@ {
                    Some(Field::Name)
                } else if paint_field(name) is Some {
                    paint_field(name)
                } else if name == "r"@ {
                    Some(Field::R)
                } else if name == "x"@ {
                    Some(Field::X)
                } else if name == "y"@ {
                    Some(Field::Y)
                } else if name == "z"@ {
                    Some(Field::Z)
                } else if name == "theta"@ {
                    Some(Field::Theta)
                } else {
                    None
                }
            },
            ShapeKind::Path => {
                if name == "name"@ {
                    Some(Field::Name)
                } else if paint_field(name) is Some {
                    paint_field(name)
                } else if name == "z"@ {
                    Some(Field::Z)
                } else if name == "n"@ {
                    Some(Field::N)
                } else {
                    None
                }
            },
            ShapeKind::Rect => {
                if name == "name"@ {
                    Some(Field::Name)
                } else if paint_field(name) is Some {
                    paint_field(name)
                } else if name == "left"@ {
                    Some(Field::Left)
                } else if name == "right"@ {
                    Some(Field::Right)
                } else if name == "width"@ {
                    Some(Field::Width)
                } else if name == "centerX"@ {
                    Some(Field::CenterX)
                } else if name == "top"@ {
                    Some(Field::Top)
                } else if name == "bottom"@ {
                    Some(Field::Bottom)
                } else if name == "height"@ {
                    Some(Field::Height)
                } else if name == "centerY"@ {
                    Some(Field::CenterY)
                } else if name == "z"@ {
                    Some(Field::Z)
                } else if name == "theta"@ {
                    Some(Field::Theta)
                } else {
                    None
                }
            },
        }
    }
}

/// The record with one numeric parameter set.
pub open spec fn with_number(p: Params, f: Field, n: Number) -> Params {
    match f {
        Field::GradRatio => Params { grad_ratio: Some(n), ..p },
        Field::X => Params { x: Some(n), ..p },
        Field::Y => Params { y: Some(n), ..p },
        Field::W => Params { w: Some(n), ..p },
        Field::H => Params { h: Some(n), ..p },
        Field::R => Params { r: Some(n), ..p },
        Field::Z => Params { z: Some(n), ..p },
        Field::Theta => Params { theta: Some(n), ..p },
        Field::Left => Params { left: Some(n), ..p },
        Field::Right => Params { right: Some(n), ..p },
        Field::Width => Params { width: Some(n), ..p },
        Field::CenterX => Params { center_x: Some(n), ..p },
        Field::Top => Params { top: Some(n), ..p },
        Field::Bottom => Params { bottom: Some(n), ..p },
        Field::Height => Params { height: Some(n), ..p },
        Field::CenterY => Params { center_y: Some(n), ..p },
        Field::N => Params { n: Some(n), ..p },
        _ => p,
    }
}

/// The record with one color parameter set.
pub open spec fn with_color(p: Params, f: Field, c: Color) -> Params {
    match f {
        Field::Color => Params { color: Some(c), ..p },
        Field::GradBegin => Params { grad_begin: Some(c), ..p },
        Field::GradEnd => Params { grad_end: Some(c), ..p },
        _ => p,
    }
}

/// What setting a parameter from a word gives: a name is copied as it
/// stands, a color and a number are read from the word.
pub open spec fn assign(p: Params, f: Field, w: WordView, ctx: Context) -> Result<Params, Error> {
    match f {
        Field::GroupId => Ok(Params { group_id: w.text, ..p }),
        Field::Name => Ok(Params { name: w.text, ..p }),
        Field::Color | Field::GradBegin | Field::GradEnd => match parse_color(w.text) {
            Some(c) => Ok(with_color(p, f, c)),
            None => Err(Error::BadColor),
        },
        _ => match read_number(w, ctx) {
            Ok(n) => Ok(with_number(p, f, n)),
            Err(e) => Err(e),
        },
    }
}

/// What setting the parameter of the given name from a word gives. A name
/// that the shape does not have is refused; `points` is no parameter that
/// one word can set.
pub open spec fn set_param(
    kind: ShapeKind,
    p: Params,
    name: Seq<char>,
    w: WordView,
    ctx: Context,
) -> Result<Params, Error> {
    match field_of(kind, name) {
        Some(f) => assign(p, f, w, ctx),
        None => Err(Error::UnknownParam),
    }
}

/// Reads `n` points from the words at `pos` on, two words for each, and
/// appends them to `points`. Gives the points and the place behind the last
/// word read.
pub open spec fn read_points(
    points: Seq<Point>,
    words: Seq<WordView>,
    pos: int,
    n: nat,
    ctx: Context,
) -> Result<(Seq<Point>, int), Error>
    decreases n,
{
    if n == 0 {
        Ok((points, pos))
    } else if pos >= words.len() {
        Err(Error::MissingWord { input: 0 })
    } else {
        match read_number(words[pos], ctx) {
            Err(e) => Err(e),
            Ok(x) => if pos + 1 >= words.len() {
                Err(Error::MissingWord { input: 0 })
            } else {
                match read_number(words[pos + 1], ctx) {
                    Err(e) => Err(e),
                    Ok(y) => read_points(
                        points.push(Point { x, y }),
                        words,
                        pos + 2,
                        (n - 1) as nat,
                        ctx,
                    ),
                }
            },
        }
    }
}

/// What the parameter `points` does: it needs `n` to be set, and reads that
/// many points. Only a path has it.
pub open spec fn set_points_of(
    kind: ShapeKind,
    p: Params,
    words: Seq<WordView>,
    pos: int,
    ctx: Context,
) -> Result<(Params, int), Error> {
    if kind != ShapeKind::Path {
        Err(Error::UnknownParam)
    } else {
        match p.n {
            None => Err(Error::PointsBeforeCount),
            Some(n) => match read_points(p.points, words, pos, n.count(), ctx) {
                Ok((points, end)) => Ok((Params { points, ..p }, end)),
                Err(e) => Err(e),
            },
        }
    }
}

/// The error of reading the parameter at the place `i` of its list: where
/// words were missing, the error names that place.
pub open spec fn at_input(e: Error, i: int) -> Error {
    match e {
        Error::MissingWord { .. } => Error::MissingWord { input: i as usize },
        _ => e,
    }
}

/// Whether a parameter name is the `points` of a path.
pub open spec fn is_points(kind: ShapeKind, name: Seq<char>) -> bool {
    kind == ShapeKind::Path && name == "points"@
}

/// Applies the defaults from the `i`-th on, in order.
pub open spec fn apply_defaults(
    kind: ShapeKind,
    p: Params,
    defaults: Seq<DefaultView>,
    i: int,
    ctx: Context,
) -> Result<Params, Error>
    decreases defaults.len() - i,
{
    if i < 0 || i >= defaults.len() {
        Ok(p)
    } else if is_points(kind, defaults[i].name) {
        match set_points_of(kind, p, defaults[i].parts, 0, ctx) {
            Ok((q, _)) => apply_defaults(kind, q, defaults, i + 1, ctx),
            Err(e) => Err(at_input(e, i)),
        }
    } else {
        match set_param(kind, p, defaults[i].name, defaults[i].word, ctx) {
            Ok(q) => apply_defaults(kind, q, defaults, i + 1, ctx),
            Err(e) => Err(e),
        }
    }
}

/// Reads the input parameters from the `i`-th on: one word of the stream
/// for each, from `pos` on. Gives the record and the place behind the last
/// word read.
pub open spec fn apply_inputs(
    kind: ShapeKind,
    p: Params,
    inputs: Seq<Seq<char>>,
    i: int,
    words: Seq<WordView>,
    pos: int,
    ctx: Context,
) -> Result<(Params, int), Error>
    decreases inputs.len() - i,
{
    if i < 0 || i >= inputs.len() {
        Ok((p, pos))
    } else if is_points(kind, inputs[i]) {
        match set_points_of(kind, p, words, pos, ctx) {
            Ok((q, end)) => apply_inputs(kind, q, inputs, i + 1, words, end, ctx),
            Err(e) => Err(at_input(e, i)),
        }
    } else if pos >= words.len() {
        Err(Error::MissingWord { input: i as usize })
    } else {
        match set_param(kind, p, inputs[i], words[pos], ctx) {
            Ok(q) => apply_inputs(kind, q, inputs, i + 1, words, pos + 1, ctx),
            Err(e) => Err(e),
        }
    }
}

/// What a command builds from its setting and the words at `pos` on.
pub open spec fn build(
    kind: ShapeKind,
    defaults: Seq<DefaultView>,
    inputs: Seq<Seq<char>>,
    words: Seq<WordView>,
    pos: int,
    ctx: Context,
) -> Result<(Params, int), Error> {
    match apply_defaults(kind, initial_params(kind), defaults, 0, ctx) {
        Ok(p) => apply_inputs(kind, p, inputs, 0, words, pos, ctx),
        Err(e) => Err(e),
    }
}

/// Reading never moves backward, and never beyond the last word.
pub proof fn lemma_read_points_advances(
    points: Seq<Point>,
    words: Seq<WordView>,
    pos: int,
    n: nat,
    ctx: Context,
)
    requires
        0 <= pos <= words.len(),
    ensures
        read_points(points, words, pos, n, ctx) matches Ok((_, end)) ==> pos <= end <= words.len(),
    decreases n,
{
    if n > 0 && pos + 1 < words.len() {
        match (read_number(words[pos], ctx), read_number(words[pos + 1], ctx)) {
            (Ok(x), Ok(y)) => {
                lemma_read_points_advances(
                    points.push(Point { x, y }),
                    words,
                    pos + 2,
                    (n - 1) as nat,
                    ctx,
                );
            },
            _ => {},
        }
    }
}

/// Reading the inputs never moves backward, and never beyond the last
/// word.
pub proof fn lemma_apply_inputs_advances(
    kind: ShapeKind,
    p: Params,
    inputs: Seq<Seq<char>>,
    i: int,
    words: Seq<WordView>,
    pos: int,
    ctx: Context,
)
    requires
        0 <= pos <= words.len(),
    ensures
        apply_inputs(kind, p, inputs, i, words, pos, ctx) matches Ok((_, end)) ==> pos <= end
            <= words.len(),
    decreases inputs.len() - i,
{
    if 0 <= i < inputs.len() {
        if is_points(kind, inputs[i]) {
            match p.n {
                Some(n) => {
                    lemma_read_points_advances(p.points, words, pos, n.count(), ctx);
                },
                None => {},
            }
            match set_points_of(kind, p, words, pos, ctx) {
                Ok((q, end)) => {
                    lemma_apply_inputs_advances(kind, q, inputs, i + 1, words, end, ctx);
                },
                Err(_) => {},
            }
        } else if pos < words.len() {
            match set_param(kind, p, inputs[i], words[pos], ctx) {
                Ok(q) => {
                    lemma_apply_inputs_advances(kind, q, inputs, i + 1, words, pos + 1, ctx);
                },
                Err(_) => {},
            }
        }
    }
}

/// An element that a command can build.
pub trait Visualizable: Sized {
    /// The shape that the type builds.
    spec fn shape() -> ShapeKind;

    /// The element as a record of parameters.
    spec fn params(&self) -> Params;

    /// The shape that the type builds.
    fn kind() -> (k: ShapeKind)
        ensures
            k == Self::shape(),
    ;

    /// The element that the shape starts from.
    fn start() -> (r: Self)
        ensures
            r.params() == initial_params(Self::shape()),
    ;

    /// Sets the parameter of the given name from a word. Where the name or
    /// the word is refused, the element stays as it was.
    fn set_by_param_name_and_word(&mut self, param_name: &str, word: &Word, ctx: &Context) -> (r:
        Result<(), Error>)
        ensures
            match set_param(Self::shape(), old(self).params(), param_name@, word@, *ctx) {
                Ok(p) => r is Ok && final(self).params() == p,
                Err(e) => r == Err::<(), Error>(e) && final(self).params() == old(self).params(),
            },
    ;

    /// Sets the points of a path: reads as many points as the parameter
    /// `n` says from the words at `pos` on, and moves `pos` behind them.
    /// Where the points are refused, no word is read and the element stays
    /// as it was.
    fn set_points(&mut self, words: &Vec<Word>, pos: &mut usize, ctx: &Context) -> (r: Result<
        (),
        Error,
    >)
        requires
            *old(pos) <= words.len(),
        ensures
            match set_points_of(
                Self::shape(),
                old(self).params(),
                word_views(words@),
                *old(pos) as int,
                *ctx,
            ) {
                Ok((p, end)) => r is Ok && final(self).params() == p && *final(pos) == end,
                Err(e) => r == Err::<(), Error>(e) && final(self).params() == old(self).params()
                    && *final(pos) == *old(pos),
            },
            *final(pos) <= words.len(),
    ;
}

/// The error of reading the parameter at the place `i` of its list.
pub fn error_at_input(e: Error, i: usize) -> (r: Error)
    ensures
        r == at_input(e, i as int),
{
    match e {
        Error::MissingWord { .. } => Error::MissingWord { input: i },
        _ => e,
    }
}

/// Whether a parameter name is the `points` of a path.
pub fn names_points(kind: ShapeKind, name: &str) -> (r: bool)
    ensures
        r == is_points(kind, name@),
{
    match kind {
        ShapeKind::Path => str_eq(name, "points"),
        _ => false,
    }
}

/// The shape's starting element with the defaults of the setting applied.
pub fn default_by_setting<T: Visualizable>(setting: &GraphicPartsSetting, ctx: &Context) -> (r:
    Result<T, Error>)
    ensures
        match apply_defaults(T::shape(), initial_params(T::shape()), setting@.default_values, 0, *ctx) {
            Ok(p) => r is Ok && r->Ok_0.params() == p,
            Err(e) => r is Err && r->Err_0 == e,
        },
{
    let mut elem: T = T::start();
    let kind: ShapeKind = T::kind();
    let mut i: usize = 0;
    let ghost defaults = setting@.default_values;
    let ghost goal = apply_defaults(T::shape(), initial_params(T::shape()), defaults, 0, *ctx);
    while i < setting.default_values.len()
        invariant
            i <= setting.default_values.len(),
            defaults == setting@.default_values,
            defaults.len() == setting.default_values.len(),
            kind == T::shape(),
            goal == apply_defaults(T::shape(), initial_params(T::shape()), defaults, 0, *ctx),
            goal == apply_defaults(T::shape(), elem.params(), defaults, i as int, *ctx),
        decreases setting.default_values.len() - i,
    {
        let d = &setting.default_values[i];
        assert(defaults[i as int] == d@);
        if names_points(kind, d.name.as_str()) {
            let mut at: usize = 0;
            match elem.set_points(&d.parts, &mut at, ctx) {
                Ok(()) => {},
                Err(e) => {
                    return Err(error_at_input(e, i));
                },
            }
        } else {
            match elem.set_by_param_name_and_word(d.name.as_str(), &d.word, ctx) {
                Ok(()) => {},
                Err(e) => {
                    return Err(e);
                },
            }
        }
        i = i + 1;
    }
    Ok(elem)
}

/// The element that a command builds: the defaults of its setting, then
/// one word of the stream, from `pos` on, for each input parameter. Moves
/// `pos` behind the last word read.
pub fn from_words_and_setting<T: Visualizable>(
    words: &Vec<Word>,
    pos: &mut usize,
    setting: &GraphicPartsSetting,
    ctx: &Context,
) -> (r: Result<T, Error>)
    requires
        *old(pos) <= words.len(),
    ensures
        match build(
            T::shape(),
            setting@.default_values,
            setting@.input_params,
            word_views(words@),
            *old(pos) as int,
            *ctx,
        ) {
            Ok((p, end)) => r is Ok && r->Ok_0.params() == p && *final(pos) == end,
            Err(e) => r is Err && r->Err_0 == e,
        },
        *final(pos) <= words.len(),
{
    let kind: ShapeKind = T::kind();
    let mut elem: T = match default_by_setting::<T>(setting, ctx) {
        Ok(elem) => elem,
        Err(e) => {
            return Err(e);
        },
    };
    let ghost inputs = setting@.input_params;
    let ghost all = word_views(words@);
    let ghost goal = apply_inputs(T::shape(), elem.params(), inputs, 0, all, *pos as int, *ctx);
    let ghost whole = build(
        T::shape(),
        setting@.default_values,
        inputs,
        all,
        *pos as int,
        *ctx,
    );
    let mut i: usize = 0;
    while i < setting.input_params.len()
        invariant
            i <= setting.input_params.len(),
            inputs == setting@.input_params,
            inputs.len() == setting.input_params.len(),
            all == word_views(words@),
            kind == T::shape(),
            *pos <= words.len(),
            whole == goal,
            whole == build(
                T::shape(),
                setting@.default_values,
                inputs,
                all,
                *old(pos) as int,
                *ctx,
            ),
            goal == apply_inputs(T::shape(), elem.params(), inputs, i as int, all, *pos as int, *ctx),
        decreases setting.input_params.len() - i,
    {
        let name: &str = setting.input_params[i].as_str();
        assert(inputs[i as int] == name@);
        if names_points(kind, name) {
            match elem.set_points(words, pos, ctx) {
                Ok(()) => {},
                Err(e) => {
                    return Err(error_at_input(e, i));
                },
            }
        } else {
            if *pos >= words.len() {
                return Err(Error::MissingWord { input: i });
            }
            assert(all[*pos as int] == words[*pos as int]@);
            match elem.set_by_param_name_and_word(name, &words[*pos], ctx) {
                Ok(()) => {},
                Err(e) => {
                    return Err(e);
                },
            }
            *pos = *pos + 1;
        }
        i = i + 1;
    }
    Ok(elem)
}

} // verus!
