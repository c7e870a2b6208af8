use vis_parser::color::Color;
use vis_parser::context::Context;
use vis_parser::error::Error;
use vis_parser::graphic_elems::camera::Camera;
use vis_parser::graphic_elems::circle::{Circle, MultiParametricCircle};
use vis_parser::graphic_elems::draft::{resolve_axis, resolve_blend, Blend, Scalar};
use vis_parser::graphic_elems::elems::{compute, Draft, Elem, ElementTrait};
use vis_parser::graphic_elems::path::{MultiParametricPath, Path};
use vis_parser::graphic_elems::rect::{MultiParametricRect, Rect};
use vis_parser::graphic_elems::view::ElemKind;
use vis_parser::number::Number;
use vis_parser::point::{copy_points, same_points, Point};
use vis_parser::traits::Visualizable;
use vis_parser::unique_id_generator::UID;
use vis_parser::words::Word;

fn n(v: f64) -> Number {
    Number::from_bits(v.to_bits())
}

fn f(v: Number) -> f64 {
    f64::from_bits(v.to_bits())
}

fn w(text: &str) -> Word {
    Word::new(text.to_string(), text.parse::<f64>().ok().map(n))
}

fn eval(s: Scalar) -> Number {
    match s {
        Scalar::Given(a) => a,
        Scalar::Difference(a, b) => n(f(a) - f(b)),
        Scalar::TwiceDifference(a, b) => n((f(a) - f(b)) * 2.0),
        Scalar::TwiceMinus(a, b) => n(2.0 * f(a) - f(b)),
        Scalar::MinusHalf(a, b) => n(f(a) - f(b) / 2.0),
    }
}

fn mix(begin: Color, end: Color, ratio: Number) -> Color {
    let r = f(ratio);
    Color::new(
        (begin.r as f64 + (end.r as f64 - begin.r as f64) * r) as u8,
        (begin.g as f64 + (end.g as f64 - begin.g as f64) * r) as u8,
        (begin.b as f64 + (end.b as f64 - begin.b as f64) * r) as u8,
    )
}

fn circle(name: &str, x: f64, y: f64) -> Circle {
    Circle {
        unique_id: UID::unset(),
        group_id: "g".to_string(),
        name: name.to_string(),
        color: Some(Color::default()),
        r: Some(n(1.0)),
        x: Some(n(x)),
        y: Some(n(y)),
        z: Some(n(0.0)),
        theta: Some(n(0.0)),
    }
}

#[test]
fn axis_rules_in_order() {
    let l = n(1.0);
    let r = n(11.0);
    let wd = n(4.0);
    let c = n(6.0);
    assert_eq!(
        resolve_axis(Some(l), Some(r), Some(wd), Some(c)),
        Some((Scalar::Given(l), Scalar::Difference(r, l)))
    );
    assert_eq!(
        resolve_axis(Some(l), None, Some(wd), Some(c)),
        Some((Scalar::Given(l), Scalar::Given(wd)))
    );
    assert_eq!(
        resolve_axis(Some(l), None, None, Some(c)),
        Some((Scalar::Given(l), Scalar::TwiceDifference(c, l)))
    );
    assert_eq!(
        resolve_axis(None, Some(r), Some(wd), Some(c)),
        Some((Scalar::Difference(r, wd), Scalar::Given(wd)))
    );
    assert_eq!(
        resolve_axis(None, Some(r), None, Some(c)),
        Some((Scalar::TwiceMinus(c, r), Scalar::TwiceDifference(r, c)))
    );
    assert_eq!(
        resolve_axis(None, None, Some(wd), Some(c)),
        Some((Scalar::MinusHalf(c, wd), Scalar::Given(wd)))
    );
}

#[test]
fn axis_needs_two_parameters() {
    let v = n(3.0);
    assert_eq!(resolve_axis(None, None, None, None), None);
    assert_eq!(resolve_axis(Some(v), None, None, None), None);
    assert_eq!(resolve_axis(None, Some(v), None, None), None);
    assert_eq!(resolve_axis(None, None, Some(v), None), None);
    assert_eq!(resolve_axis(None, None, None, Some(v)), None);
}

#[test]
fn axis_is_determined_by_any_two() {
    let vals = [Some(n(1.0)), None];
    for a in vals.iter() {
        for b in vals.iter() {
            for c in vals.iter() {
                for d in vals.iter() {
                    let set = [a, b, c, d].iter().filter(|x| x.is_some()).count();
                    assert_eq!(resolve_axis(*a, *b, *c, *d).is_some(), set >= 2);
                }
            }
        }
    }
}

#[test]
fn axis_formulas_evaluate_to_start_and_extent() {
    // left 2, right 12, width 10, center 7 all describe the same span.
    let (l, r, wd, c) = (Some(n(2.0)), Some(n(12.0)), Some(n(10.0)), Some(n(7.0)));
    let cases = [
        resolve_axis(l, r, None, None),
        resolve_axis(l, None, wd, None),
        resolve_axis(l, None, None, c),
        resolve_axis(None, r, wd, None),
        resolve_axis(None, r, None, c),
        resolve_axis(None, None, wd, c),
    ];
    for case in cases.iter() {
        let (x, ext) = case.unwrap();
        assert_eq!(f(compute(x, &eval)), 2.0);
        assert_eq!(f(compute(ext, &eval)), 10.0);
    }
}

#[test]
fn given_scalar_is_not_evaluated() {
    let wrong = |_s: Scalar| n(99.0);
    assert_eq!(compute(Scalar::Given(n(5.0)), &wrong), n(5.0));
    assert_eq!(compute(Scalar::Difference(n(5.0), n(1.0)), &wrong), n(99.0));
}

#[test]
fn blend_needs_both_ends_and_the_ratio() {
    let a = Color::new(0, 0, 0);
    let b = Color::new(255, 255, 255);
    assert_eq!(
        resolve_blend(Some(a), Some(b), Some(n(0.5))),
        Some(Blend { begin: a, end: b, ratio: n(0.5) })
    );
    assert_eq!(resolve_blend(None, Some(b), Some(n(0.5))), None);
    assert_eq!(resolve_blend(Some(a), None, Some(n(0.5))), None);
    assert_eq!(resolve_blend(Some(a), Some(b), None), None);
}

#[test]
fn rect_is_reduced_from_left_top_width_height() {
    let ctx = Context::default();
    let mut p = MultiParametricRect::default();
    p.set_by_param_name_and_word("left", &w("1"), &ctx).unwrap();
    p.set_by_param_name_and_word("top", &w("2"), &ctx).unwrap();
    p.set_by_param_name_and_word("width", &w("3"), &ctx).unwrap();
    p.set_by_param_name_and_word("height", &w("4"), &ctx).unwrap();
    let draft = Rect::try_from(p).unwrap();
    assert_eq!(draft.x, Scalar::Given(n(1.0)));
    assert_eq!(draft.w, Scalar::Given(n(3.0)));
    assert_eq!(draft.y, Scalar::Given(n(2.0)));
    assert_eq!(draft.h, Scalar::Given(n(4.0)));
    assert_eq!(draft.z, n(0.0));
    assert_eq!(draft.theta, n(0.0));
    assert_eq!(draft.color, Color::default());
    assert_eq!(draft.blend, None);
    assert_eq!(draft.group_id, "group0");
    assert_eq!(draft.name, "rect0");
    let rect = draft.finish(Color::default(), n(1.0), n(3.0), n(2.0), n(4.0));
    assert_eq!(rect.x, Some(n(1.0)));
    assert_eq!(rect.y, Some(n(2.0)));
    assert_eq!(rect.w, Some(n(3.0)));
    assert_eq!(rect.h, Some(n(4.0)));
}

#[test]
fn rect_with_center_and_far_edges() {
    let ctx = Context::default();
    let mut p = MultiParametricRect::default();
    p.set_by_param_name_and_word("right", &w("10"), &ctx).unwrap();
    p.set_by_param_name_and_word("centerX", &w("6"), &ctx).unwrap();
    p.set_by_param_name_and_word("height", &w("4"), &ctx).unwrap();
    p.set_by_param_name_and_word("centerY", &w("5"), &ctx).unwrap();
    p.set_by_param_name_and_word("z", &w("2"), &ctx).unwrap();
    p.set_by_param_name_and_word("theta", &w("0.25"), &ctx).unwrap();
    let elem = Draft::Rect(Rect::try_from(p).unwrap()).resolve(&eval, &mix);
    match elem {
        Elem::Rect(r) => {
            assert_eq!(r.x, Some(n(2.0)));
            assert_eq!(r.w, Some(n(8.0)));
            assert_eq!(r.y, Some(n(3.0)));
            assert_eq!(r.h, Some(n(4.0)));
            assert_eq!(r.z, Some(n(2.0)));
            assert_eq!(r.theta, Some(n(0.25)));
        }
        _ => panic!("not a rect"),
    }
}

#[test]
fn underdetermined_rect_is_refused() {
    let ctx = Context::default();
    let p = MultiParametricRect::default();
    assert_eq!(Rect::try_from(p).err(), Some(Error::UndeterminedWidth));
    let mut p = MultiParametricRect::default();
    p.set_by_param_name_and_word("width", &w("3"), &ctx).unwrap();
    p.set_by_param_name_and_word("top", &w("3"), &ctx).unwrap();
    p.set_by_param_name_and_word("bottom", &w("3"), &ctx).unwrap();
    assert_eq!(Rect::try_from(p).err(), Some(Error::UndeterminedWidth));
    let mut p = MultiParametricRect::default();
    p.set_by_param_name_and_word("left", &w("3"), &ctx).unwrap();
    p.set_by_param_name_and_word("right", &w("3"), &ctx).unwrap();
    p.set_by_param_name_and_word("centerY", &w("3"), &ctx).unwrap();
    assert_eq!(Rect::try_from(p).err(), Some(Error::UndeterminedHeight));
}

#[test]
fn gradient_overwrites_color() {
    let ctx = Context::default();
    let mut p = MultiParametricRect::default();
    for (name, word) in [
        ("color", "blue"),
        ("gradBegin", "#000000"),
        ("gradEnd", "#ffffff"),
        ("gradRatio", "0.5"),
        ("left", "0"),
        ("width", "1"),
        ("top", "0"),
        ("height", "1"),
    ] {
        p.set_by_param_name_and_word(name, &w(word), &ctx).unwrap();
    }
    let draft = Rect::try_from(p).unwrap();
    assert_eq!(draft.color, Color::new(0, 149, 217));
    assert_eq!(
        draft.blend,
        Some(Blend { begin: Color::new(0, 0, 0), end: Color::new(255, 255, 255), ratio: n(0.5) })
    );
    match Draft::Rect(draft).resolve(&eval, &mix) {
        Elem::Rect(r) => {
            assert_eq!(r.color, Some(Color::new(127, 127, 127)));
            assert_eq!(r.color.unwrap().to_hex(), "#7f7f7f");
        }
        _ => panic!("not a rect"),
    }
}

#[test]
fn explicit_color_without_gradient_stays() {
    let ctx = Context::default();
    let mut p = MultiParametricCircle::default();
    p.set_by_param_name_and_word("color", &w("red"), &ctx).unwrap();
    p.set_by_param_name_and_word("gradBegin", &w("#000000"), &ctx).unwrap();
    p.set_by_param_name_and_word("gradRatio", &w("0.5"), &ctx).unwrap();
    let (c, blend) = Circle::try_from(p);
    assert_eq!(blend, None);
    assert_eq!(c.color, Some(Color::new(230, 0, 51)));
    match Draft::Circle(c, blend).resolve(&eval, &mix) {
        Elem::Circle(c) => assert_eq!(c.color, Some(Color::new(230, 0, 51))),
        _ => panic!("not a circle"),
    }
}

#[test]
fn circle_defaults() {
    let (c, blend) = Circle::try_from(MultiParametricCircle::default());
    assert_eq!(blend, None);
    assert_eq!(c.unique_id, UID::unset());
    assert_eq!(c.group_id, "group0");
    assert_eq!(c.name, "circle0");
    assert_eq!(c.color, Some(Color::new(255, 255, 255)));
    assert_eq!(c.r, Some(n(1.0)));
    assert_eq!(c.x, Some(n(0.0)));
    assert_eq!(c.y, Some(n(0.0)));
    assert_eq!(c.z, Some(n(0.0)));
    assert_eq!(c.theta, Some(n(0.0)));
    let d = Circle::default();
    assert_eq!(d.name, "circle0");
    assert_eq!(d.r, Some(n(1.0)));
}

#[test]
fn circle_parameters_override_defaults() {
    let ctx = Context::default();
    let mut p = MultiParametricCircle::default();
    for (name, word) in [
        ("groupID", "g"),
        ("name", "c"),
        ("r", "2"),
        ("x", "3"),
        ("y", "4"),
        ("z", "5"),
        ("theta", "6"),
        ("color", "#010203"),
    ] {
        p.set_by_param_name_and_word(name, &w(word), &ctx).unwrap();
    }
    let (c, _) = Circle::try_from(p);
    assert_eq!(c.group_id, "g");
    assert_eq!(c.name, "c");
    assert_eq!(c.r, Some(n(2.0)));
    assert_eq!(c.x, Some(n(3.0)));
    assert_eq!(c.y, Some(n(4.0)));
    assert_eq!(c.z, Some(n(5.0)));
    assert_eq!(c.theta, Some(n(6.0)));
    assert_eq!(c.color, Some(Color::new(1, 2, 3)));
}

#[test]
fn circle_takes_elem_id_for_its_name() {
    let ctx = Context::default();
    let mut p = MultiParametricCircle::default();
    p.set_by_param_name_and_word("elemID", &w("ball"), &ctx).unwrap();
    assert_eq!(p.name, "ball");
}

#[test]
fn unknown_parameter_is_refused() {
    let ctx = Context::default();
    assert_eq!(
        MultiParametricCircle::default().set_by_param_name_and_word("left", &w("1"), &ctx),
        Err(Error::UnknownParam)
    );
    assert_eq!(
        MultiParametricRect::default().set_by_param_name_and_word("r", &w("1"), &ctx),
        Err(Error::UnknownParam)
    );
    assert_eq!(
        MultiParametricPath::default().set_by_param_name_and_word("x", &w("1"), &ctx),
        Err(Error::UnknownParam)
    );
    assert_eq!(
        Camera::default().set_by_param_name_and_word("z", &w("1"), &ctx),
        Err(Error::UnknownParam)
    );
    assert_eq!(
        MultiParametricPath::default().set_by_param_name_and_word("points", &w("1"), &ctx),
        Err(Error::UnknownParam)
    );
}

#[test]
fn bad_number_and_bad_color_are_refused() {
    let ctx = Context::default();
    assert_eq!(
        MultiParametricCircle::default().set_by_param_name_and_word("x", &w("abc"), &ctx),
        Err(Error::BadNumber)
    );
    assert_eq!(
        MultiParametricCircle::default().set_by_param_name_and_word("color", &w("nocolor"), &ctx),
        Err(Error::BadColor)
    );
}

#[test]
fn time_word_reads_the_clock() {
    let mut ctx = Context::default();
    ctx.update_time(n(4.0));
    let mut p = MultiParametricCircle::default();
    p.set_by_param_name_and_word("x", &w("$time"), &ctx).unwrap();
    assert_eq!(p.x, Some(n(4.0)));
    assert_eq!(w("$time").number_based_on(&ctx), Ok(n(4.0)));
    assert_eq!(w("2.5").number_based_on(&ctx), Ok(n(2.5)));
    assert_eq!(w("x").number_based_on(&ctx), Err(Error::BadNumber));
}

#[test]
fn path_points_need_the_count() {
    let ctx = Context::default();
    let words = vec![w("1"), w("2"), w("3"), w("4"), w("5")];
    let mut pos = 0usize;
    let mut p = MultiParametricPath::default();
    assert_eq!(p.set_points(&words, &mut pos, &ctx), Err(Error::PointsBeforeCount));
    p.set_by_param_name_and_word("n", &w("2"), &ctx).unwrap();
    assert_eq!(p.set_points(&words, &mut pos, &ctx), Ok(()));
    assert_eq!(pos, 4);
    assert_eq!(p.points, vec![Point { x: n(1.0), y: n(2.0) }, Point { x: n(3.0), y: n(4.0) }]);
    let (path, blend) = Path::try_from(p);
    assert_eq!(blend, None);
    assert_eq!(path.points.as_ref().unwrap().len(), 2);
    assert_eq!(path.z, Some(n(0.0)));
    assert_eq!(path.name, "path0");
}

#[test]
fn path_points_run_out_of_words() {
    let ctx = Context::default();
    let words = vec![w("1"), w("2"), w("3")];
    let mut pos = 0usize;
    let mut p = MultiParametricPath::default();
    p.set_by_param_name_and_word("n", &w("2"), &ctx).unwrap();
    assert_eq!(p.set_points(&words, &mut pos, &ctx), Err(Error::MissingWord { input: 0 }));
    assert_eq!(pos, 0);
    assert!(p.points.is_empty());
    let words = vec![w("1"), w("x")];
    let mut pos = 0usize;
    let mut p = MultiParametricPath::default();
    p.set_by_param_name_and_word("n", &w("1"), &ctx).unwrap();
    assert_eq!(p.set_points(&words, &mut pos, &ctx), Err(Error::BadNumber));
}

#[test]
fn only_a_path_has_points() {
    let ctx = Context::default();
    let words = vec![w("1"), w("2")];
    let mut pos = 0usize;
    assert_eq!(
        MultiParametricCircle::default().set_points(&words, &mut pos, &ctx),
        Err(Error::UnknownParam)
    );
    assert_eq!(
        MultiParametricRect::default().set_points(&words, &mut pos, &ctx),
        Err(Error::UnknownParam)
    );
    assert_eq!(Camera::default().set_points(&words, &mut pos, &ctx), Err(Error::UnknownParam));
    assert_eq!(pos, 0);
}

#[test]
fn camera_defaults_and_completion() {
    let c = Camera::default();
    assert_eq!(c.group_id, "group0");
    assert_eq!(c.x, Some(n(0.0)));
    assert_eq!(c.y, Some(n(0.0)));
    assert_eq!(c.w, Some(n(1000.0)));
    assert_eq!(c.h, Some(n(1000.0)));
    let bare = Camera { unique_id: UID { value: 7 }, group_id: "g".to_string(), x: None, y: Some(n(2.0)), w: None, h: None };
    let done = bare.completed();
    assert_eq!(done.unique_id, UID::unset());
    assert_eq!(done.x, Some(n(0.0)));
    assert_eq!(done.y, Some(n(2.0)));
    assert_eq!(done.w, Some(n(1000.0)));
    assert_eq!(done.h, Some(n(1000.0)));
}

#[test]
fn diff_keeps_only_what_changed() {
    let old = circle("a", 1.0, 2.0);
    let mut new = circle("a", 1.0, 5.0);
    new.unique_id = UID { value: 3 };
    new.color = Some(Color::new(1, 1, 1));
    let d = new.extract_diff_from(&old);
    assert_eq!(d.unique_id, UID { value: 3 });
    assert_eq!(d.group_id, "");
    assert_eq!(d.name, "");
    assert_eq!(d.color, Some(Color::new(1, 1, 1)));
    assert_eq!(d.r, None);
    assert_eq!(d.x, None);
    assert_eq!(d.y, Some(n(5.0)));
    assert_eq!(d.z, None);
    assert_eq!(d.theta, None);
    let back = old.extract_diff_from(&new);
    assert_eq!(back.y, Some(n(2.0)));
    assert_eq!(back.color, Some(Color::default()));
}

#[test]
fn diff_of_unchanged_element_carries_only_the_uid() {
    let mut a = circle("a", 1.0, 2.0);
    a.unique_id = UID { value: 9 };
    let b = a.clone();
    let d = Elem::Circle(a).extract_diff_from(&Elem::Circle(b));
    match d {
        Elem::Circle(c) => {
            assert_eq!(c.unique_id, UID { value: 9 });
            assert_eq!(c.group_id, "");
            assert_eq!(c.name, "");
            assert_eq!(c.color, None);
            assert_eq!((c.r, c.x, c.y, c.z, c.theta), (None, None, None, None, None));
        }
        _ => panic!("not a circle"),
    }
}

#[test]
fn diff_treats_the_two_zeros_as_equal_and_nan_as_changed() {
    let old = circle("a", 0.0, f64::NAN);
    let new = circle("a", -0.0, f64::NAN);
    let d = new.extract_diff_from(&old);
    assert_eq!(d.x, None);
    assert_eq!(d.y, Some(n(f64::NAN)));
}

#[test]
fn diff_of_names_and_groups() {
    let old = circle("a", 0.0, 0.0);
    let mut new = circle("b", 0.0, 0.0);
    new.group_id = "h".to_string();
    let d = new.extract_diff_from(&old);
    assert_eq!(d.name, "b");
    assert_eq!(d.group_id, "h");
}

#[test]
fn path_diff_compares_points() {
    let pts = vec![Point { x: n(0.0), y: n(1.0) }, Point { x: n(2.0), y: n(3.0) }];
    let a = Path {
        unique_id: UID::unset(),
        group_id: "g".to_string(),
        name: "p".to_string(),
        color: Some(Color::default()),
        z: Some(n(0.0)),
        points: Some(pts.clone()),
    };
    let mut b = a.clone();
    assert_eq!(a.extract_diff_from(&b).points, None);
    b.points = Some(vec![Point { x: n(0.0), y: n(1.0) }]);
    assert_eq!(a.extract_diff_from(&b).points, Some(pts.clone()));
    b.points = None;
    assert_eq!(a.extract_diff_from(&b).points, Some(pts.clone()));
    assert!(same_points(&pts, &copy_points(&pts)));
    assert!(!same_points(&pts, &vec![Point { x: n(0.0), y: n(1.0) }]));
}

#[test]
fn rect_and_camera_diffs() {
    let a = Rect::default();
    let mut b = Rect::default();
    b.w = Some(n(2.0));
    let d = b.extract_diff_from(&a);
    assert_eq!(d.w, Some(n(2.0)));
    assert_eq!((d.x, d.y, d.h, d.z, d.theta), (None, None, None, None, None));
    assert_eq!(d.color, None);
    let c = Camera::default();
    let mut e = Camera::default();
    e.h = Some(n(5.0));
    let d = e.extract_diff_from(&c);
    assert_eq!(d.h, Some(n(5.0)));
    assert_eq!((d.x, d.y, d.w), (None, None, None));
    assert_eq!(d.group_id, "");
}

#[test]
fn elem_accessors() {
    let mut e = circle("a", 1.0, 2.0).convert_to_elem();
    assert_eq!(e.get_unique_id(), UID::unset());
    e.set_unique_id(UID { value: 5 });
    assert_eq!(e.get_unique_id(), UID { value: 5 });
    assert_eq!(e.get_this_elem_deleter().unique_id, UID { value: 5 });
    assert_eq!(e.get_elem_id(), ("Circle", "a"));
    assert_eq!(e.kind(), ElemKind::Circle);
    assert_eq!(e.name(), "a");
    assert_eq!(e.group_id(), "g");
    assert_eq!(Camera::default().convert_to_elem().get_elem_id(), ("Camera", ""));
    assert_eq!(Path::default().convert_to_elem().get_elem_id(), ("Path", "path0"));
    assert_eq!(Rect::default().convert_to_elem().get_elem_id(), ("Rect", "rect0"));
    let copy = e.duplicate();
    assert_eq!(copy.get_unique_id(), UID { value: 5 });
    assert_eq!(copy.name(), "a");
}

#[test]
fn refused_parameter_leaves_the_element_as_it_was() {
    let ctx = Context::default();
    let mut p = MultiParametricRect::default();
    p.set_by_param_name_and_word("name", &w("a"), &ctx).unwrap();
    p.set_by_param_name_and_word("left", &w("1"), &ctx).unwrap();
    assert_eq!(p.set_by_param_name_and_word("bogus", &w("2"), &ctx), Err(Error::UnknownParam));
    assert_eq!(p.set_by_param_name_and_word("left", &w("x"), &ctx), Err(Error::BadNumber));
    assert_eq!(p.set_by_param_name_and_word("color", &w("x"), &ctx), Err(Error::BadColor));
    assert_eq!(p.name, "a");
    assert_eq!(p.group_id, "group0");
    assert_eq!(p.left, Some(n(1.0)));
    assert_eq!(p.color, None);
    assert_eq!((p.right, p.width, p.top), (None, None, None));
}

#[test]
fn name_and_group_are_copied_as_they_stand() {
    let ctx = Context::default();
    let mut p = MultiParametricRect::default();
    p.set_by_param_name_and_word("name", &w("1.50"), &ctx).unwrap();
    p.set_by_param_name_and_word("groupID", &w("$time"), &ctx).unwrap();
    assert_eq!(p.name, "1.50");
    assert_eq!(p.group_id, "$time");
    assert_eq!((p.left, p.right, p.width, p.center_x), (None, None, None, None));
    assert_eq!((p.top, p.bottom, p.height, p.center_y), (None, None, None, None));
    assert_eq!((p.z, p.theta, p.color, p.grad_ratio), (None, None, None, None));
}

#[test]
fn refused_points_leave_the_path_and_the_cursor() {
    let ctx = Context::default();
    let words = vec![w("1"), w("2"), w("3"), w("x"), w("5"), w("6")];
    let mut p = MultiParametricPath::default();
    p.set_by_param_name_and_word("n", &w("1"), &ctx).unwrap();
    let mut pos = 0usize;
    p.set_points(&words, &mut pos, &ctx).unwrap();
    assert_eq!(pos, 2);
    p.set_by_param_name_and_word("n", &w("2"), &ctx).unwrap();
    assert_eq!(p.set_points(&words, &mut pos, &ctx), Err(Error::BadNumber));
    assert_eq!(pos, 2);
    assert_eq!(p.points, vec![Point { x: n(1.0), y: n(2.0) }]);
    let mut q = MultiParametricPath::default();
    let mut pos = 1usize;
    assert_eq!(q.set_points(&words, &mut pos, &ctx), Err(Error::PointsBeforeCount));
    assert_eq!(pos, 1);
    assert!(q.points.is_empty());
}

#[test]
fn number_of_a_word() {
    let mut ctx = Context::default();
    ctx.update_time(n(7.0));
    assert_eq!(Number::from_str_based_on(&w("$time"), &ctx), Ok(n(7.0)));
    assert_eq!(Number::from_str_based_on(&w("-2.5"), &ctx), Ok(n(-2.5)));
    assert_eq!(Number::from_str_based_on(&w("two"), &ctx), Err(Error::BadNumber));
    assert_eq!(Number::from_str_based_on(&w(""), &ctx), Err(Error::BadNumber));
}
