use vis_parser::color::Color;
use vis_parser::context::Context;
use vis_parser::dispatcher::{run, Failure};
use vis_parser::error::Error;
use vis_parser::graphic::Diff;
use vis_parser::graphic_elems::draft::Scalar;
use vis_parser::graphic_elems::elems::{Draft, Elem};
use vis_parser::chart::LineData;
use vis_parser::loader::load_settings;
use vis_parser::number::Number;
use vis_parser::point::Point;
use vis_parser::setting::{Settings, ShapeKind};
use vis_parser::traits::{default_by_setting, from_words_and_setting, names_points};
use vis_parser::graphic_elems::circle::MultiParametricCircle;
use vis_parser::vis_comps_creator::{VisComps, VisCompsCreator};
use vis_parser::words::{is_space_char, lex, split_whitespace, Word};

fn n(v: f64) -> Number {
    Number::from_bits(v.to_bits())
}

fn f(v: Number) -> f64 {
    f64::from_bits(v.to_bits())
}

fn read(s: &String) -> Option<Number> {
    s.parse::<f64>().ok().map(n)
}

fn eval(s: Scalar) -> Number {
    match s {
        Scalar::Given(a) => a,
        Scalar::Difference(a, b) => n(f(a) - f(b)),
        Scalar::TwiceDifference(a, b) => n((f(a) - f(b)) * 2.0),
        Scalar::TwiceMinus(a, b) => n(2.0 * f(a) - f(b)),
        Scalar::MinusHalf(a, b) => n(f(a) - f(b) / 2.0),
    }
}

fn mix(begin: Color, end: Color, ratio: Number) -> Color {
    let r = f(ratio);
    Color::new(
        (begin.r as f64 + (end.r as f64 - begin.r as f64) * r) as u8,
        (begin.g as f64 + (end.g as f64 - begin.g as f64) * r) as u8,
        (begin.b as f64 + (end.b as f64 - begin.b as f64) * r) as u8,
    )
}

const SETTINGS: &str = r##"{
  "initialText": ["update", "0"],
  "commands": {
    "R": { "useElem": "rect", "inputs": ["groupID", "name", "left", "top", "width", "height"] },
    "circle": { "useElem": "circle", "inputs": ["groupID", "name", "r", "x", "y", "z", "theta"] },
    "cam": { "useElem": "camera", "inputs": ["groupID", "x", "y", "w", "h"] },
    "P": { "useElem": "path", "defaults": { "color": "red", "z": 3 }, "inputs": ["groupID", "name", "n", "points"] },
    "tri": { "useElem": "path", "defaults": { "n": 3, "points": "0 0  1 0\t0 1" }, "inputs": ["groupID", "name"] },
    "plot": { "useElem": "chart", "inputs": ["groupID", "lineID", "x", "y"] },
    "tint": { "useElem": "chart", "defaults": { "lineID": "t" }, "inputs": ["groupID", "color"] },
    "grad": { "useElem": "circle", "defaults": { "gradBegin": "#000000", "gradEnd": "#ffffff" }, "inputs": ["groupID", "name", "gradRatio"] }
  }
}"##;

fn compile(settings: &Settings, input: &str) -> Result<Vec<VisComps>, Failure> {
    let text = format!("{} {}", settings.initial_text, input);
    let words = lex(text.as_str(), &read);
    let mut ctx = Context::default();
    let mut creator = VisCompsCreator::default();
    run(settings, &words, &mut ctx, &mut creator)?;
    creator.resolve(&eval, &mix);
    Ok(creator.create_vis_comps())
}

fn compile_with(input: &str) -> Result<Vec<VisComps>, Failure> {
    compile(&load_settings(SETTINGS, &read).unwrap(), input)
}

fn failure_of(input: &str) -> Failure {
    match compile(&load_settings(r#"{"commands": {
        "R": { "useElem": "rect", "inputs": ["left", "top", "width", "height"] },
        "H": { "useElem": "rect", "inputs": ["left", "right"] },
        "V": { "useElem": "rect", "inputs": ["top", "bottom"] },
        "C": { "useElem": "circle", "inputs": ["x", "color"] },
        "B": { "useElem": "circle", "inputs": ["bogus"] },
        "P": { "useElem": "path", "inputs": ["points"] }
    }}"#, &read).unwrap(), input) {
        Ok(_) => panic!("accepted"),
        Err(e) => e,
    }
}

#[test]
fn white_space_characters() {
    for c in [' ', '\t', '\n', '\r', '\u{b}', '\u{c}', '\u{85}', '\u{a0}', '\u{1680}', '\u{2000}', '\u{200a}', '\u{2028}', '\u{2029}', '\u{202f}', '\u{205f}', '\u{3000}'] {
        assert!(is_space_char(c));
    }
    for c in ['a', '0', '#', '\u{200b}', '\u{feff}', '\u{0}', '\u{1f}', '\u{180e}'] {
        assert!(!is_space_char(c));
    }
    for v in 0u32..0x3100 {
        if let Some(c) = char::from_u32(v) {
            assert_eq!(is_space_char(c), c.is_whitespace(), "{:x}", v);
        }
    }
}

#[test]
fn text_is_cut_at_white_space() {
    assert_eq!(split_whitespace(""), Vec::<String>::new());
    assert_eq!(split_whitespace("  \n\t "), Vec::<String>::new());
    assert_eq!(split_whitespace("a"), vec!["a"]);
    assert_eq!(split_whitespace("  a  bc\td\n\ne "), vec!["a", "bc", "d", "e"]);
    assert_eq!(split_whitespace("R g a 0 0 10 10  update 1"), vec!["R", "g", "a", "0", "0", "10", "10", "update", "1"]);
    let text = " x\u{3000}y\u{a0}z $time #ff00ff é";
    let expected: Vec<&str> = text.split_whitespace().collect();
    assert_eq!(split_whitespace(text), expected);
}

#[test]
fn words_carry_their_numbers() {
    let words = lex("a 1 2.5 -3e2 $time inf", &read);
    let texts: Vec<&str> = words.iter().map(|w| w.text.as_str()).collect();
    assert_eq!(texts, vec!["a", "1", "2.5", "-3e2", "$time", "inf"]);
    let numbers: Vec<Option<Number>> = words.iter().map(|w| w.number).collect();
    assert_eq!(numbers, vec![None, Some(n(1.0)), Some(n(2.5)), Some(n(-300.0)), None, Some(n(f64::INFINITY))]);
}

#[test]
fn one_rectangle_at_two_times_from_the_stream() {
    let settings = load_settings(
        r#"{ "commands": { "R": { "useElem": "rect", "inputs": ["groupID","name","left","top","width","height"] } } }"#,
        &read,
    )
    .unwrap();
    let out = compile(&settings, "R g a 0 0 10 10  update 1  R g a 5 5 10 10").unwrap();
    assert_eq!(out.len(), 1);
    assert_eq!(out[0].group_id, "g");
    assert!(out[0].chart.is_none());
    let g = out[0].graphic.as_ref().unwrap();
    assert_eq!(g.initial_frame.time, n(0.0));
    assert_eq!(g.initial_frame.elems.len(), 1);
    match &g.initial_frame.elems[0] {
        Elem::Rect(r) => {
            assert_eq!((r.x, r.y, r.w, r.h), (Some(n(0.0)), Some(n(0.0)), Some(n(10.0)), Some(n(10.0))));
            assert_eq!(r.name, "a");
            assert_eq!(r.unique_id.to_text(), "1");
        }
        _ => panic!("not a rect"),
    }
    assert_eq!(g.transitions.len(), 2);
    assert_eq!(g.transitions[0].time, n(0.0));
    assert!(g.transitions[0].prev.is_empty());
    match &g.transitions[0].next[..] {
        [Diff::Update(Elem::Rect(r))] => assert_eq!((r.x, r.y, r.w, r.h), (Some(n(5.0)), Some(n(5.0)), None, None)),
        _ => panic!("not one update"),
    }
    assert_eq!(g.transitions[1].time, n(1.0));
    assert!(g.transitions[1].next.is_empty());
    match &g.transitions[1].prev[..] {
        [Diff::Update(Elem::Rect(r))] => assert_eq!((r.x, r.y, r.w, r.h), (Some(n(0.0)), Some(n(0.0)), None, None)),
        _ => panic!("not one update"),
    }
    match &g.final_frame.elems[..] {
        [Elem::Rect(r)] => assert_eq!((r.x, r.y, r.w, r.h), (Some(n(5.0)), Some(n(5.0)), Some(n(10.0)), Some(n(10.0)))),
        _ => panic!("not one rect"),
    }
}

#[test]
fn time_word_is_replaced_by_the_clock() {
    let out = compile_with("update 4  circle g c 1 $time 0 0 0").unwrap();
    let g = out[0].graphic.as_ref().unwrap();
    match &g.final_frame.elems[..] {
        [Elem::Circle(c)] => {
            assert_eq!(c.x, Some(n(4.0)));
            assert_eq!(c.r, Some(n(1.0)));
        }
        _ => panic!("not one circle"),
    }
    assert_eq!(g.final_frame.time, n(4.0));
}

#[test]
fn update_accepts_the_time_word() {
    let out = compile_with("update 2 update $time circle g c 1 0 0 0 0").unwrap();
    assert_eq!(out[0].graphic.as_ref().unwrap().final_frame.time, n(2.0));
}

#[test]
fn dense_and_sparse_charts_from_the_stream() {
    let out = compile_with("plot g a 0 10 plot g a 1 20 plot g a 2 30 plot g b 0 10 plot g b 2 30").unwrap();
    assert_eq!(out.len(), 1);
    assert!(out[0].graphic.is_none());
    let chart = out[0].chart.as_ref().unwrap();
    assert_eq!(chart.line_id_to_line.len(), 2);
    assert_eq!(chart.line_id_to_line[0].line_id, "a");
    match chart.line_id_to_line[0].data_layout() {
        LineData::Values(v) => assert_eq!(v, vec![n(10.0), n(20.0), n(30.0)]),
        _ => panic!("pairs"),
    }
    match chart.line_id_to_line[1].data_layout() {
        LineData::Pairs(p) => assert_eq!(p, vec![Point { x: n(0.0), y: n(10.0) }, Point { x: n(2.0), y: n(30.0) }]),
        _ => panic!("values"),
    }
}

#[test]
fn chart_color_command_sets_the_line_color() {
    let out = compile_with("plot g t 0 1 tint g #102030 plot g t 1 2").unwrap();
    let chart = out[0].chart.as_ref().unwrap();
    assert_eq!(chart.line_id_to_line.len(), 1);
    assert_eq!(chart.line_id_to_line[0].color, Color::new(0x10, 0x20, 0x30));
    assert_eq!(chart.line_id_to_line[0].data.len(), 2);
}

#[test]
fn groups_are_joined() {
    let out = compile_with("plot c x 0 1 circle g a 1 0 0 0 0 plot g y 0 1 cam h 0 0 5 5 cam c 1 1 2 2").unwrap();
    let names: Vec<&str> = out.iter().map(|v| v.group_id.as_str()).collect();
    assert_eq!(names, vec!["c", "g", "h"]);
    assert!(out[0].chart.is_some() && out[0].graphic.is_some());
    assert!(out[1].chart.is_some() && out[1].graphic.is_some());
    assert!(out[2].chart.is_none() && out[2].graphic.is_some());
    match &out[2].graphic.as_ref().unwrap().final_frame.elems[..] {
        [Elem::Camera(c)] => assert_eq!((c.x, c.y, c.w, c.h), (Some(n(0.0)), Some(n(0.0)), Some(n(5.0)), Some(n(5.0)))),
        _ => panic!("not one camera"),
    }
}

#[test]
fn path_reads_its_points_from_the_stream() {
    let out = compile_with("P g p 2 0 1 2 3 circle g c 1 0 0 0 0").unwrap();
    let g = out[0].graphic.as_ref().unwrap();
    assert_eq!(g.final_frame.elems.len(), 2);
    match &g.final_frame.elems[0] {
        Elem::Path(p) => {
            assert_eq!(p.points, Some(vec![Point { x: n(0.0), y: n(1.0) }, Point { x: n(2.0), y: n(3.0) }]));
            assert_eq!(p.color, Some(Color::new(230, 0, 51)));
            assert_eq!(p.z, Some(n(3.0)));
            assert_eq!(p.name, "p");
        }
        _ => panic!("not a path"),
    }
}

#[test]
fn path_reads_its_points_from_the_defaults() {
    let out = compile_with("tri g t").unwrap();
    match &out[0].graphic.as_ref().unwrap().final_frame.elems[..] {
        [Elem::Path(p)] => assert_eq!(
            p.points,
            Some(vec![
                Point { x: n(0.0), y: n(0.0) },
                Point { x: n(1.0), y: n(0.0) },
                Point { x: n(0.0), y: n(1.0) }
            ])
        ),
        _ => panic!("not one path"),
    }
}

#[test]
fn gradient_from_the_stream() {
    let out = compile_with("grad g a 0.5 grad g b 0 grad g c 1").unwrap();
    let colors: Vec<String> = out[0]
        .graphic
        .as_ref()
        .unwrap()
        .final_frame
        .elems
        .iter()
        .map(|e| match e {
            Elem::Circle(c) => c.color.unwrap().to_hex(),
            _ => panic!("not a circle"),
        })
        .collect();
    assert_eq!(colors, vec!["#7f7f7f", "#000000", "#ffffff"]);
}

#[test]
fn failures_name_the_command() {
    assert_eq!(failure_of("R 0 0 1 1 nothing"), Failure { error: Error::UnknownCommand, at: 5 });
    assert_eq!(failure_of("update"), Failure { error: Error::MissingWord { input: 0 }, at: 0 });
    assert_eq!(failure_of("R 0 0 1 1 update x"), Failure { error: Error::BadNumber, at: 5 });
    assert_eq!(failure_of("update inf"), Failure { error: Error::NonFiniteTime, at: 0 });
    assert_eq!(failure_of("update -inf"), Failure { error: Error::NonFiniteTime, at: 0 });
    assert_eq!(failure_of("update NaN"), Failure { error: Error::NonFiniteTime, at: 0 });
    assert_eq!(failure_of("R 0 0 1"), Failure { error: Error::MissingWord { input: 3 }, at: 0 });
    assert_eq!(failure_of("R 0 0 1 1 R"), Failure { error: Error::MissingWord { input: 0 }, at: 5 });
    assert_eq!(failure_of("update 1 H 0 1"), Failure { error: Error::UndeterminedHeight, at: 2 });
    assert_eq!(failure_of("V 0 1"), Failure { error: Error::UndeterminedWidth, at: 0 });
    assert_eq!(failure_of("C x red"), Failure { error: Error::BadNumber, at: 0 });
    assert_eq!(failure_of("C 1 reddish"), Failure { error: Error::BadColor, at: 0 });
    assert_eq!(failure_of("B 1"), Failure { error: Error::UnknownParam, at: 0 });
    assert_eq!(failure_of("P 1 2"), Failure { error: Error::PointsBeforeCount, at: 0 });
}

#[test]
fn refused_command_leaves_the_creator_as_it_was() {
    let settings = load_settings(SETTINGS, &read).unwrap();
    let words = lex("circle g a 1 0 0 0 0 circle g b 1 x", &read);
    let mut ctx = Context::default();
    let mut creator = VisCompsCreator::default();
    let r = run(&settings, &words, &mut ctx, &mut creator);
    assert_eq!(r, Err(Failure { error: Error::BadNumber, at: 8 }));
    assert_eq!(creator.pending.len(), 1);
}

#[test]
fn drafts_wait_until_they_are_resolved() {
    let settings = load_settings(SETTINGS, &read).unwrap();
    let words = lex("circle g a 1 0 0 0 0 update 3 R g r 1 2 3 4", &read);
    let mut ctx = Context::default();
    let mut creator = VisCompsCreator::default();
    run(&settings, &words, &mut ctx, &mut creator).unwrap();
    assert_eq!(ctx.current_time, n(3.0));
    assert_eq!(ctx.max_time_ever, n(3.0));
    assert_eq!(creator.pending.len(), 2);
    assert!(creator.group_id_to_graphic_creator.is_empty());
    assert_eq!(creator.pending[0].ctx.current_time, n(0.0));
    assert_eq!(creator.pending[1].ctx.current_time, n(3.0));
    assert!(matches!(creator.pending[0].draft, Draft::Circle(_, None)));
    assert!(matches!(creator.pending[1].draft, Draft::Rect(_)));
    creator.resolve(&eval, &mix);
    assert!(creator.pending.is_empty());
    assert_eq!(creator.group_id_to_graphic_creator.len(), 1);
    assert_eq!(creator.group_id_to_graphic_creator[0].group_id, "g");
    assert_eq!(creator.group_id_to_graphic_creator[0].creator.patches.len(), 2);
    assert_eq!(creator.group_id_to_graphic_creator[0].creator.patches[1].time, n(3.0));
}

#[test]
fn builders_apply_defaults_then_inputs() {
    let settings = load_settings(
        r#"{"commands": {"c": {"useElem": "circle", "defaults": {"x": 7, "name": "n0", "r": "2"}, "inputs": ["x", "y"]}}}"#,
        &read,
    )
    .unwrap();
    let setting = &settings.command_to_setting[0].setting;
    let ctx = Context::default();
    let d: MultiParametricCircle = default_by_setting(setting, &ctx).unwrap();
    assert_eq!((d.x, d.y, d.r), (Some(n(7.0)), None, Some(n(2.0))));
    assert_eq!(d.name, "n0");
    let words = vec![
        Word::new("skip".to_string(), None),
        Word::new("1".to_string(), Some(n(1.0))),
        Word::new("2".to_string(), Some(n(2.0))),
        Word::new("3".to_string(), Some(n(3.0))),
    ];
    let mut pos = 1usize;
    let c: MultiParametricCircle = from_words_and_setting(&words, &mut pos, setting, &ctx).unwrap();
    assert_eq!(pos, 3);
    assert_eq!((c.x, c.y, c.r), (Some(n(1.0)), Some(n(2.0)), Some(n(2.0))));
    let mut pos = 3usize;
    let r: Result<MultiParametricCircle, Error> = from_words_and_setting(&words, &mut pos, setting, &ctx);
    assert_eq!(r.err(), Some(Error::MissingWord { input: 1 }));
    assert!(names_points(ShapeKind::Path, "points"));
    assert!(!names_points(ShapeKind::Rect, "points"));
    assert!(!names_points(ShapeKind::Path, "n"));
}

#[test]
fn default_with_spaces_is_no_number() {
    let settings = load_settings(
        r#"{"commands": {"c": {"useElem": "circle", "defaults": {"x": " 7 "}}, "d": {"useElem": "circle", "defaults": {"color": "paris green"}}}}"#,
        &read,
    )
    .unwrap();
    let ctx = Context::default();
    let c: Result<MultiParametricCircle, Error> = default_by_setting(&settings.command_to_setting[0].setting, &ctx);
    assert_eq!(c.err(), Some(Error::BadNumber));
    let d: MultiParametricCircle = default_by_setting(&settings.command_to_setting[1].setting, &ctx).unwrap();
    assert_eq!(d.color, Some(Color::new(0, 163, 129)));
}

#[test]
fn stream_begins_with_the_initial_text() {
    let settings = load_settings(r#"{"initialText": ["update", "3"]}"#, &read).unwrap();
    let words = vis_parser::dispatcher::read_stream(&settings, "a 1\nb", &read);
    let texts: Vec<&str> = words.iter().map(|w| w.text.as_str()).collect();
    assert_eq!(texts, vec!["update", "3", "a", "1", "b"]);
    assert_eq!(words[1].number, Some(n(3.0)));
    let none = load_settings("{}", &read).unwrap();
    assert!(vis_parser::dispatcher::read_stream(&none, "", &read).is_empty());
}

#[test]
fn refused_command_leaves_clock_and_groups_as_before_it() {
    let settings = load_settings(SETTINGS, &read).unwrap();
    let words = lex("plot g a 0 1 update 2 circle g c 1 0 0 0 0 update 5 plot g a 1 x update 9", &read);
    let mut ctx = Context::default();
    let mut creator = VisCompsCreator::default();
    let r = run(&settings, &words, &mut ctx, &mut creator);
    assert_eq!(r, Err(Failure { error: Error::BadNumber, at: 17 }));
    assert_eq!(ctx.current_time, n(5.0));
    assert_eq!(creator.pending.len(), 1);
    assert_eq!(creator.group_id_to_chart_creator.len(), 1);
    assert_eq!(creator.group_id_to_chart_creator[0].creator.chart.line_id_to_line[0].data.len(), 1);
    let words = lex("update 3 update inf", &read);
    let mut ctx = Context::default();
    let mut creator = VisCompsCreator::default();
    assert_eq!(
        run(&settings, &words, &mut ctx, &mut creator),
        Err(Failure { error: Error::NonFiniteTime, at: 2 })
    );
    assert_eq!(ctx.current_time, n(3.0));
}

#[test]
fn each_group_and_each_line_occurs_once() {
    let out = compile_with(
        "plot g a 0 1 plot h a 0 1 plot g b 0 1 plot g a 1 1 circle h c 1 0 0 0 0 circle k c 1 0 0 0 0 circle h d 1 0 0 0 0",
    )
    .unwrap();
    let names: Vec<&str> = out.iter().map(|v| v.group_id.as_str()).collect();
    assert_eq!(names, vec!["g", "h", "k"]);
    let lines: Vec<&str> =
        out[0].chart.as_ref().unwrap().line_id_to_line.iter().map(|l| l.line_id.as_str()).collect();
    assert_eq!(lines, vec!["a", "b"]);
}
