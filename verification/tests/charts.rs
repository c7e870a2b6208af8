use vis_parser::chart::{sorted_by_x, ChartCreator, Line, LineData, LineDatum};
use vis_parser::color::Color;
use vis_parser::number::Number;
use vis_parser::point::Point;

fn n(v: f64) -> Number {
    Number::from_bits(v.to_bits())
}

fn pt(x: f64, y: f64) -> Point {
    Point { x: n(x), y: n(y) }
}

fn datum(line: &str, x: Option<f64>, y: Option<f64>, color: Option<Color>) -> LineDatum {
    LineDatum {
        group_id: "g".to_string(),
        line_id: line.to_string(),
        color,
        x: x.map(n),
        y: y.map(n),
    }
}

#[test]
fn datum_defaults() {
    let d = LineDatum::default();
    assert_eq!(d.group_id, "group0");
    assert_eq!(d.line_id, "line0");
    assert_eq!(d.color, None);
    assert_eq!(d.x, None);
    assert_eq!(d.y, None);
    let l = Line::default();
    assert_eq!(l.line_id, "line0");
    assert_eq!(l.color, Color::new(62, 179, 112));
    assert!(l.data.is_empty());
}

#[test]
fn samples_go_to_their_lines() {
    let mut c = ChartCreator::default();
    c.add_line_datum(datum("a", Some(0.0), Some(10.0), None));
    c.add_line_datum(datum("b", Some(5.0), Some(1.0), None));
    c.add_line_datum(datum("a", Some(1.0), Some(20.0), None));
    let chart = c.create_chart();
    assert_eq!(chart.line_id_to_line.len(), 2);
    assert_eq!(chart.line_id_to_line[0].line_id, "a");
    assert_eq!(chart.line_id_to_line[0].data, vec![pt(0.0, 10.0), pt(1.0, 20.0)]);
    assert_eq!(chart.line_id_to_line[0].color, Color::new(62, 179, 112));
    assert_eq!(chart.line_id_to_line[1].line_id, "b");
    assert_eq!(chart.line_id_to_line[1].data, vec![pt(5.0, 1.0)]);
}

#[test]
fn last_color_wins() {
    let mut c = ChartCreator::default();
    c.add_line_datum(datum("a", Some(0.0), Some(1.0), Some(Color::new(1, 2, 3))));
    c.add_line_datum(datum("a", Some(1.0), Some(1.0), None));
    c.add_line_datum(datum("a", None, None, Some(Color::new(9, 9, 9))));
    let chart = c.create_chart();
    assert_eq!(chart.line_id_to_line[0].color, Color::new(9, 9, 9));
    assert_eq!(chart.line_id_to_line[0].data.len(), 2);
}

#[test]
fn sample_without_both_coordinates_is_dropped() {
    let mut c = ChartCreator::default();
    c.add_line_datum(datum("a", Some(0.0), None, None));
    c.add_line_datum(datum("a", None, Some(1.0), None));
    c.add_line_datum(datum("a", None, None, None));
    let chart = c.create_chart();
    assert_eq!(chart.line_id_to_line.len(), 1);
    assert!(chart.line_id_to_line[0].data.is_empty());
}

#[test]
fn samples_are_sorted_by_x() {
    let mut c = ChartCreator::default();
    for (x, y) in [(3.0, 1.0), (1.0, 2.0), (2.0, 3.0), (1.0, 4.0), (-5.0, 5.0)] {
        c.add_line_datum(datum("a", Some(x), Some(y), None));
    }
    let chart = c.create_chart();
    assert_eq!(
        chart.line_id_to_line[0].data,
        vec![pt(-5.0, 5.0), pt(1.0, 2.0), pt(1.0, 4.0), pt(2.0, 3.0), pt(3.0, 1.0)]
    );
    let data = &chart.line_id_to_line[0].data;
    for i in 1..data.len() {
        assert!(!data[i].x.less_than(&data[i - 1].x));
    }
}

#[test]
fn sorting_is_stable_and_puts_nan_last() {
    let data = vec![pt(f64::NAN, 0.0), pt(2.0, 1.0), pt(0.0, 2.0), pt(-0.0, 3.0), pt(2.0, 4.0)];
    let sorted = sorted_by_x(&data);
    assert_eq!(sorted[0], pt(0.0, 2.0));
    assert_eq!(sorted[1], pt(-0.0, 3.0));
    assert_eq!(sorted[2], pt(2.0, 1.0));
    assert_eq!(sorted[3], pt(2.0, 4.0));
    assert_eq!(sorted[4].y, n(0.0));
    assert!(sorted[4].x.is_nan_value());
    assert!(sorted_by_x(&Vec::new()).is_empty());
}

#[test]
fn dense_line_is_written_as_values() {
    let mut c = ChartCreator::default();
    for (x, y) in [(0.0, 10.0), (1.0, 20.0), (2.0, 30.0)] {
        c.add_line_datum(datum("a", Some(x), Some(y), None));
    }
    let chart = c.create_chart();
    match chart.line_id_to_line[0].data_layout() {
        LineData::Values(v) => assert_eq!(v, vec![n(10.0), n(20.0), n(30.0)]),
        LineData::Pairs(_) => panic!("pairs"),
    }
}

#[test]
fn sparse_line_is_written_as_pairs() {
    let mut c = ChartCreator::default();
    for (x, y) in [(0.0, 10.0), (2.0, 30.0)] {
        c.add_line_datum(datum("a", Some(x), Some(y), None));
    }
    let chart = c.create_chart();
    match chart.line_id_to_line[0].data_layout() {
        LineData::Values(_) => panic!("values"),
        LineData::Pairs(p) => assert_eq!(p, vec![pt(0.0, 10.0), pt(2.0, 30.0)]),
    }
}

#[test]
fn dense_detection_needs_whole_numbers_from_zero() {
    let line = |xs: &[f64]| Line {
        line_id: "a".to_string(),
        color: Color::default(),
        data: xs.iter().map(|x| pt(*x, 1.0)).collect(),
    };
    assert!(matches!(line(&[]).data_layout(), LineData::Values(_)));
    assert!(matches!(line(&[0.0]).data_layout(), LineData::Values(_)));
    assert!(matches!(line(&[-0.0, 1.0]).data_layout(), LineData::Values(_)));
    assert!(matches!(line(&[1.0, 2.0]).data_layout(), LineData::Pairs(_)));
    assert!(matches!(line(&[0.0, 1.5]).data_layout(), LineData::Pairs(_)));
    assert!(matches!(line(&[0.0, 1.0, 1.0]).data_layout(), LineData::Pairs(_)));
    assert!(matches!(line(&[0.5]).data_layout(), LineData::Pairs(_)));
    let long: Vec<f64> = (0..100).map(|i| i as f64).collect();
    match line(&long).data_layout() {
        LineData::Values(v) => assert_eq!(v.len(), 100),
        LineData::Pairs(_) => panic!("pairs"),
    }
}

#[test]
fn out_of_order_dense_samples_become_dense_after_sorting() {
    let mut c = ChartCreator::default();
    for (x, y) in [(2.0, 30.0), (0.0, 10.0), (1.0, 20.0)] {
        c.add_line_datum(datum("a", Some(x), Some(y), None));
    }
    let chart = c.create_chart();
    match chart.line_id_to_line[0].data_layout() {
        LineData::Values(v) => assert_eq!(v, vec![n(10.0), n(20.0), n(30.0)]),
        LineData::Pairs(_) => panic!("pairs"),
    }
}
