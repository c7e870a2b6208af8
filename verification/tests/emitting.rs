use vis_parser::color::Color;
use vis_parser::emit::{Field, FieldValue};
use vis_parser::graphic::Diff;
use vis_parser::graphic_elems::camera::Camera;
use vis_parser::graphic_elems::circle::Circle;
use vis_parser::graphic_elems::deleter::ElemDeleter;
use vis_parser::graphic_elems::elems::Elem;
use vis_parser::graphic_elems::path::Path;
use vis_parser::graphic_elems::rect::Rect;
use vis_parser::number::Number;
use vis_parser::point::Point;
use vis_parser::unique_id_generator::UID;

fn n(v: f64) -> Number {
    Number::from_bits(v.to_bits())
}

fn show(fields: &Vec<Field>) -> Vec<String> {
    fields
        .iter()
        .map(|f| match &f.value {
            FieldValue::Text(s) => format!("{}={}", f.name, s),
            FieldValue::Number(v) => format!("{}={}", f.name, f64::from_bits(v.to_bits())),
            FieldValue::Points(p) => format!("{}={} points", f.name, p.len()),
        })
        .collect()
}

#[test]
fn circle_is_written_with_all_its_members() {
    let c = Circle {
        unique_id: UID { value: 62 },
        group_id: "g".to_string(),
        name: "a".to_string(),
        color: Some(Color::new(1, 2, 255)),
        r: Some(n(1.0)),
        x: Some(n(2.0)),
        y: Some(n(3.0)),
        z: Some(n(4.0)),
        theta: Some(n(5.0)),
    };
    assert_eq!(
        show(&Elem::Circle(c).fields()),
        vec!["elemType=Circle", "UID=10", "name=a", "color=#0102ff", "r=1", "x=2", "y=3", "z=4", "theta=5"]
    );
}

#[test]
fn absent_members_are_left_out() {
    let c = Circle {
        unique_id: UID { value: 3 },
        group_id: "".to_string(),
        name: "".to_string(),
        color: None,
        r: None,
        x: Some(n(2.5)),
        y: None,
        z: None,
        theta: None,
    };
    assert_eq!(show(&Elem::Circle(c).fields()), vec!["elemType=Circle", "UID=3", "x=2.5"]);
}

#[test]
fn camera_rect_and_path_members() {
    assert_eq!(
        show(&Elem::Camera(Camera::default()).fields()),
        vec!["elemType=Camera", "UID=not set", "x=0", "y=0", "w=1000", "h=1000"]
    );
    assert_eq!(
        show(&Elem::Rect(Rect::default()).fields()),
        vec!["elemType=Rect", "UID=not set", "name=rect0", "color=#ffffff", "x=0", "y=0", "w=1", "h=1", "z=0", "theta=0"]
    );
    let mut p = Path::default();
    p.points = Some(vec![Point { x: n(0.0), y: n(1.0) }]);
    assert_eq!(
        show(&Elem::Path(p).fields()),
        vec!["elemType=Path", "UID=not set", "name=path0", "color=#ffffff", "z=0", "points=1 points"]
    );
}

#[test]
fn steps_name_what_they_do() {
    let mut r = Rect::default();
    r.unique_id = UID { value: 1 };
    assert_eq!(show(&Diff::Create(Elem::Rect(r.clone())).fields())[0], "diffType=Create");
    assert_eq!(show(&Diff::Create(Elem::Rect(r.clone())).fields())[1], "elemType=Rect");
    assert_eq!(show(&Diff::Create(Elem::Rect(r.clone())).fields()).len(), 11);
    let blank = r.extract_diff_from(&r);
    assert_eq!(
        show(&Diff::Update(Elem::Rect(blank)).fields()),
        vec!["diffType=Update", "elemType=Rect", "UID=1"]
    );
    assert_eq!(
        show(&Diff::Delete(ElemDeleter { unique_id: UID { value: 63 } }).fields()),
        vec!["diffType=Delete", "UID=11"]
    );
}
