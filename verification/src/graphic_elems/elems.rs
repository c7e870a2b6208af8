//! The closed sum of the four shapes.
use crate::color::Color;
use crate::graphic_elems::camera::Camera;
use crate::graphic_elems::circle::Circle;
use crate::graphic_elems::deleter::ElemDeleter;
use crate::graphic_elems::draft::{Blend, Scalar};
use crate::graphic_elems::path::Path;
use crate::graphic_elems::rect::{rect_of, Rect, RectDraft, RectDraftView};
use crate::graphic_elems::view::{ElemKind, ElemView};
use crate::number::Number;
use crate::point::copy_points;
use crate::unique_id_generator::UID;
use vstd::prelude::*;

verus! {

/// An element of a graphic, or the difference of two elements of one shape.
#[derive(Clone, Debug)]
pub enum Elem {
    Camera(Camera),
    Circle(Circle),
    Path(Path),
    Rect(Rect),
}

/// An element whose parameters are chosen, with what is still to be
/// computed for it.
#[derive(Clone, Debug)]
pub enum Draft {
    Camera(Camera),
    Circle(Circle, Option<Blend>),
    Path(Path, Option<Blend>),
    Rect(RectDraft),
}

impl View for Elem {
    type V = ElemView;

    open spec fn view(&self) -> ElemView {
        match self {
            Elem::Camera(x) => x@,
            Elem::Circle(x) => x@,
            Elem::Path(x) => x@,
            Elem::Rect(x) => x@,
        }
    }
}

/// The name of a shape, as the key of an element holds it.
pub open spec fn kind_name(kind: ElemKind) -> Seq<char> {
    match kind {
        ElemKind::Camera => "Camera"@,
        ElemKind::Circle => "Circle"@,
        ElemKind::Path => "Path"@,
        ElemKind::Rect => "Rect"@,
    }
}

/// A shape that can stand as an element.
pub trait ElementTrait: Sized {
    /// The shape as an element, as a value.
    spec fn elem_view(&self) -> ElemView;

    fn convert_to_elem(self) -> (e: Elem)
        ensures
            e@ == self.elem_view(),
    ;
}

impl ElementTrait for Camera {
    open spec fn elem_view(&self) -> ElemView {
        self@
    }

    fn convert_to_elem(self) -> (e: Elem) {
        Elem::Camera(self)
    }
}

impl ElementTrait for Circle {
    open spec fn elem_view(&self) -> ElemView {
        self@
    }

    fn convert_to_elem(self) -> (e: Elem) {
        Elem::Circle(self)
    }
}

impl ElementTrait for Path {
    open spec fn elem_view(&self) -> ElemView {
        self@
    }

    fn convert_to_elem(self) -> (e: Elem) {
        Elem::Path(self)
    }
}

impl ElementTrait for Rect {
    open spec fn elem_view(&self) -> ElemView {
        self@
    }

    fn convert_to_elem(self) -> (e: Elem) {
        Elem::Rect(self)
    }
}

impl ElementTrait for Elem {
    open spec fn elem_view(&self) -> ElemView {
        self@
    }

    fn convert_to_elem(self) -> (e: Elem) {
        self
    }
}

impl Elem {
    pub fn get_unique_id(&self) -> (u: UID)
        ensures
            u == self@.unique_id,
    {
        match self {
            Elem::Camera(x) => x.unique_id,
            Elem::Circle(x) => x.unique_id,
            Elem::Path(x) => x.unique_id,
            Elem::Rect(x) => x.unique_id,
        }
    }

    pub fn set_unique_id(&mut self, uid: UID)
        ensures
            final(self)@ == (ElemView { unique_id: uid, ..old(self)@ }),
    {
        match self {
            Elem::Camera(x) => {
                x.unique_id = uid;
            },
            Elem::Circle(x) => {
                x.unique_id = uid;
            },
            Elem::Path(x) => {
                x.unique_id = uid;
            },
            Elem::Rect(x) => {
                x.unique_id = uid;
            },
        }
    }

    /// The shape of the element.
    pub fn kind(&self) -> (k: ElemKind)
        ensures
            k == self@.kind,
    {
        match self {
            Elem::Camera(_) => ElemKind::Camera,
            Elem::Circle(_) => ElemKind::Circle,
            Elem::Path(_) => ElemKind::Path,
            Elem::Rect(_) => ElemKind::Rect,
        }
    }

    /// The name of the element; a camera has the empty name.
    pub fn name(&self) -> (n: &str)
        ensures
            n@ == self@.name,
    {
        match self {
            Elem::Camera(_) => {
                let n: &str = "";
                proof {
                    reveal_strlit("");
                }
                assert(n@ =~= Seq::<char>::empty());
                n
            },
            Elem::Circle(x) => x.name.as_str(),
            Elem::Path(x) => x.name.as_str(),
            Elem::Rect(x) => x.name.as_str(),
        }
    }

    /// The group of the element.
    pub fn group_id(&self) -> (g: &str)
        ensures
            g@ == self@.group_id,
    {
        match self {
            Elem::Camera(x) => x.group_id.as_str(),
            Elem::Circle(x) => x.group_id.as_str(),
            Elem::Path(x) => x.group_id.as_str(),
            Elem::Rect(x) => x.group_id.as_str(),
        }
    }

    /// The key under which the element is found again within its group:
    /// the name of its shape, and its own name.
    pub fn get_elem_id(&self) -> (id: (&str, &str))
        ensures
            id.0@ == kind_name(self@.kind),
            id.1@ == self@.name,
    {
        match self {
            Elem::Camera(_) => ("Camera", self.name()),
            Elem::Circle(_) => ("Circle", self.name()),
            Elem::Path(_) => ("Path", self.name()),
            Elem::Rect(_) => ("Rect", self.name()),
        }
    }

    pub fn get_this_elem_deleter(&self) -> (d: ElemDeleter)
        ensures
            d.unique_id == self@.unique_id,
    {
        ElemDeleter { unique_id: self.get_unique_id() }
    }

    /// The difference that leads from `other` to `self`. Both are of one
    /// shape.
    pub fn extract_diff_from(&self, other: &Elem) -> (r: Elem)
        requires
            self@.kind == other@.kind,
        ensures
            r@ == self@.diff_against(other@),
    {
        match (self, other) {
            (Elem::Camera(a), Elem::Camera(b)) => Elem::Camera(a.extract_diff_from(b)),
            (Elem::Circle(a), Elem::Circle(b)) => Elem::Circle(a.extract_diff_from(b)),
            (Elem::Path(a), Elem::Path(b)) => Elem::Path(a.extract_diff_from(b)),
            (Elem::Rect(a), Elem::Rect(b)) => Elem::Rect(a.extract_diff_from(b)),
            _ => {
                assert(false);
                Elem::Camera(Camera::default())
            },
        }
    }

    /// A copy of the element.
    pub fn duplicate(&self) -> (r: Elem)
        ensures
            r@ == self@,
    {
        match self {
            Elem::Camera(a) => Elem::Camera(
                Camera {
                    unique_id: a.unique_id,
                    group_id: a.group_id.clone(),
                    x: a.x,
                    y: a.y,
                    w: a.w,
                    h: a.h,
                },
            ),
            Elem::Circle(a) => Elem::Circle(
                Circle {
                    unique_id: a.unique_id,
                    group_id: a.group_id.clone(),
                    name: a.name.clone(),
                    color: a.color,
                    r: a.r,
                    x: a.x,
                    y: a.y,
                    z: a.z,
                    theta: a.theta,
                },
            ),
            Elem::Path(a) => Elem::Path(
                Path {
                    unique_id: a.unique_id,
                    group_id: a.group_id.clone(),
                    name: a.name.clone(),
                    color: a.color,
                    z: a.z,
                    points: match &a.points {
                        Some(p) => Some(copy_points(p)),
                        None => None,
                    },
                },
            ),
            Elem::Rect(a) => Elem::Rect(
                Rect {
                    unique_id: a.unique_id,
                    group_id: a.group_id.clone(),
                    name: a.name.clone(),
                    color: a.color,
                    x: a.x,
                    y: a.y,
                    w: a.w,
                    h: a.h,
                    z: a.z,
                    theta: a.theta,
                },
            ),
        }
    }
}

/// The color is what the draft asks for: the base color where there is no
/// gradient, and else what the blender made of the gradient.
pub open spec fn colored<B: Fn(Color, Color, Number) -> Color>(
    base: Option<Color>,
    blend: Option<Blend>,
    mix: &B,
    color: Option<Color>,
) -> bool {
    match blend {
        None => color == base,
        Some(b) => color is Some && mix.ensures((b.begin, b.end, b.ratio), color->0),
    }
}

/// The number is what the scalar asks for: the given number, or what the
/// evaluator made of the formula.
pub open spec fn computed<E: Fn(Scalar) -> Number>(s: Scalar, eval: &E, n: Option<Number>) -> bool {
    match s {
        Scalar::Given(v) => n == Some(v),
        _ => n is Some && eval.ensures((s,), n->0),
    }
}

/// A draft as a value.
pub enum DraftView {
    Camera(ElemView),
    Circle(ElemView, Option<Blend>),
    Path(ElemView, Option<Blend>),
    Rect(RectDraftView),
}

impl View for Draft {
    type V = DraftView;

    open spec fn view(&self) -> DraftView {
        match self {
            Draft::Camera(c) => DraftView::Camera(c@),
            Draft::Circle(c, b) => DraftView::Circle(c@, *b),
            Draft::Path(p, b) => DraftView::Path(p@, *b),
            Draft::Rect(r) => DraftView::Rect(r@),
        }
    }
}

impl DraftView {
    /// The group of the element.
    pub open spec fn group_id(self) -> Seq<char> {
        match self {
            DraftView::Camera(c) => c.group_id,
            DraftView::Circle(c, _) => c.group_id,
            DraftView::Path(p, _) => p.group_id,
            DraftView::Rect(r) => r.group_id,
        }
    }

    /// The element `e` is the draft with everything computed: numbers by
    /// `eval`, colors by `mix`.
    pub open spec fn resolves_to<E: Fn(Scalar) -> Number, B: Fn(Color, Color, Number) -> Color>(
        self,
        e: ElemView,
        eval: &E,
        mix: &B,
    ) -> bool {
        match self {
            DraftView::Camera(c) => e == c,
            DraftView::Circle(c, b) => e == (ElemView { color: e.color, ..c }) && colored(
                c.color,
                b,
                mix,
                e.color,
            ),
            DraftView::Path(p, b) => e == (ElemView { color: e.color, ..p }) && colored(
                p.color,
                b,
                mix,
                e.color,
            ),
            DraftView::Rect(r) => {
                &&& e.color is Some
                &&& e.x is Some
                &&& e.y is Some
                &&& e.w is Some
                &&& e.h is Some
                &&& e == rect_of(r, e.color->0, e.x->0, e.w->0, e.y->0, e.h->0)
                &&& colored(Some(r.color), r.blend, mix, e.color)
                &&& computed(r.x, eval, e.x)
                &&& computed(r.w, eval, e.w)
                &&& computed(r.y, eval, e.y)
                &&& computed(r.h, eval, e.h)
            },
        }
    }

    /// The draft holds full descriptions where it holds elements.
    pub open spec fn well_formed(self) -> bool {
        match self {
            DraftView::Camera(c) => c.is_snapshot(),
            DraftView::Circle(c, _) => c.is_snapshot(),
            DraftView::Path(p, _) => p.is_snapshot(),
            DraftView::Rect(_) => true,
        }
    }
}

impl Draft {
    /// Computes what the draft leaves open: each formula by `eval`, each
    /// gradient by `mix`.
    pub fn resolve<E: Fn(Scalar) -> Number, B: Fn(Color, Color, Number) -> Color>(
        self,
        eval: &E,
        mix: &B,
    ) -> (e: Elem)
        requires
            self@.well_formed(),
            forall|s: Scalar| #[trigger] eval.requires((s,)),
            forall|a: Color, b: Color, r: Number| #[trigger] mix.requires((a, b, r)),
        ensures
            self@.resolves_to(e@, eval, mix),
            e@.is_snapshot(),
            e@.group_id == self@.group_id(),
    {
        match self {
            Draft::Camera(c) => Elem::Camera(c),
            Draft::Circle(c, b) => {
                let mut c = c;
                match b {
                    Some(b) => {
                        c.color = Some(mix(b.begin, b.end, b.ratio));
                    },
                    None => {},
                }
                Elem::Circle(c)
            },
            Draft::Path(p, b) => {
                let mut p = p;
                match b {
                    Some(b) => {
                        p.color = Some(mix(b.begin, b.end, b.ratio));
                    },
                    None => {},
                }
                Elem::Path(p)
            },
            Draft::Rect(r) => {
                let color: Color = match r.blend {
                    Some(b) => mix(b.begin, b.end, b.ratio),
                    None => r.color,
                };
                let x: Number = compute(r.x, eval);
                let w: Number = compute(r.w, eval);
                let y: Number = compute(r.y, eval);
                let h: Number = compute(r.h, eval);
                Elem::Rect(r.finish(color, x, w, y, h))
            },
        }
    }
}

/// The number of a scalar: the given number, or what the evaluator makes
/// of the formula.
pub fn compute<E: Fn(Scalar) -> Number>(s: Scalar, eval: &E) -> (n: Number)
    requires
        forall|s: Scalar| #[trigger] eval.requires((s,)),
    ensures
        computed(s, eval, Some(n)),
{
    match s {
        Scalar::Given(v) => v,
        _ => eval(s),
    }
}

} // verus!
