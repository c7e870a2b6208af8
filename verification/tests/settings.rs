use vis_parser::error::Error;
use vis_parser::loader::{
    find_member, join_texts, load_settings, read_inputs, read_use_elem, settings_from_json,
    strings_from,
};
use vis_parser::number::Number;
use vis_parser::setting::{Settings, ShapeKind};

fn n(v: f64) -> Number {
    Number::from_bits(v.to_bits())
}

fn read(s: &String) -> Option<Number> {
    s.parse::<f64>().ok().map(n)
}

fn load(text: &str) -> Result<Settings, Error> {
    load_settings(text, &read)
}

#[test]
fn empty_document_gives_empty_settings() {
    let s = load("{}").unwrap();
    assert!(s.command_to_setting.is_empty());
    assert_eq!(s.initial_text, "");
}

#[test]
fn initial_text_as_string_or_array() {
    assert_eq!(load(r#"{"initialText": "update 0"}"#).unwrap().initial_text, "update 0");
    assert_eq!(load(r#"{"initialText": ["a", "b c", "d"]}"#).unwrap().initial_text, "a b c d");
    assert_eq!(load(r#"{"initialText": ["a"]}"#).unwrap().initial_text, "a");
    assert_eq!(load(r#"{"initialText": []}"#).unwrap().initial_text, "");
    assert_eq!(load(r#"{"initialText": ""}"#).unwrap().initial_text, "");
}

#[test]
fn initial_text_of_another_shape_is_refused() {
    assert_eq!(load(r#"{"initialText": 3}"#).err(), Some(Error::InitialTextShape));
    assert_eq!(load(r#"{"initialText": null}"#).err(), Some(Error::InitialTextShape));
    assert_eq!(load(r#"{"initialText": {"a": "b"}}"#).err(), Some(Error::InitialTextShape));
    assert_eq!(load(r#"{"initialText": ["a", 1]}"#).err(), Some(Error::InitialTextShape));
    assert_eq!(load(r#"{"initialText": [["a"]]}"#).err(), Some(Error::InitialTextShape));
}

#[test]
fn malformed_documents_are_refused() {
    assert_eq!(load("").err(), Some(Error::MalformedSettings));
    assert_eq!(load("{").err(), Some(Error::MalformedSettings));
    assert_eq!(load("[]").err(), Some(Error::MalformedSettings));
    assert_eq!(load("3").err(), Some(Error::MalformedSettings));
    assert_eq!(load(r#"{"commands": []}"#).err(), Some(Error::MalformedSettings));
    assert_eq!(load(r#"{"commands": {"a": "rect"}}"#).err(), Some(Error::MalformedSettings));
    assert_eq!(load(r#"{"commands": {"a": {}}}"#).err(), Some(Error::MalformedSettings));
    assert_eq!(load(r#"{"commands": {"a": {"useElem": 1}}}"#).err(), Some(Error::MalformedSettings));
    assert_eq!(
        load(r#"{"commands": {"a": {"useElem": "rect", "defaults": []}}}"#).err(),
        Some(Error::MalformedSettings)
    );
    assert_eq!(
        load(r#"{"commands": {"a": {"useElem": "rect", "inputs": "x"}}}"#).err(),
        Some(Error::MalformedSettings)
    );
    assert_eq!(
        load(r#"{"commands": {"a": {"useElem": "rect", "inputs": ["x", 2]}}}"#).err(),
        Some(Error::MalformedSettings)
    );
}

#[test]
fn unknown_use_elem_is_refused() {
    assert_eq!(load(r#"{"commands": {"a": {"useElem": "point"}}}"#).err(), Some(Error::UnknownElem));
    assert_eq!(load(r#"{"commands": {"a": {"useElem": "update"}}}"#).err(), Some(Error::UnknownElem));
    assert_eq!(load(r#"{"commands": {"a": {"useElem": "Rect"}}}"#).err(), Some(Error::UnknownElem));
    assert_eq!(
        load(r#"{"commands": {"a": {"useElem": "rect"}, "b": {"useElem": ""}}}"#).err(),
        Some(Error::UnknownElem)
    );
}

#[test]
fn shape_kinds_by_name() {
    assert_eq!(ShapeKind::from_name("camera"), Some(ShapeKind::Camera));
    assert_eq!(ShapeKind::from_name("chart"), Some(ShapeKind::Chart));
    assert_eq!(ShapeKind::from_name("circle"), Some(ShapeKind::Circle));
    assert_eq!(ShapeKind::from_name("path"), Some(ShapeKind::Path));
    assert_eq!(ShapeKind::from_name("rect"), Some(ShapeKind::Rect));
    assert_eq!(ShapeKind::from_name("clear"), None);
    assert_eq!(ShapeKind::from_name("new"), None);
}

#[test]
fn commands_hold_their_settings() {
    let s = load(
        r#"{"commands": {
            "b": {"useElem": "rect", "inputs": ["left", "right"], "extra": 1},
            "a": {"useElem": "camera"}
        }, "other": true}"#,
    )
    .unwrap();
    assert_eq!(s.command_to_setting.len(), 2);
    assert_eq!(s.command_to_setting[0].word, "a");
    assert_eq!(s.command_to_setting[0].setting.use_elem, ShapeKind::Camera);
    assert!(s.command_to_setting[0].setting.input_params.is_empty());
    assert!(s.command_to_setting[0].setting.default_values.is_empty());
    assert_eq!(s.command_to_setting[1].word, "b");
    assert_eq!(s.command_to_setting[1].setting.use_elem, ShapeKind::Rect);
    assert_eq!(s.command_to_setting[1].setting.input_params, vec!["left", "right"]);
    assert_eq!(s.find("a"), Some(0));
    assert_eq!(s.find("b"), Some(1));
    assert_eq!(s.find("c"), None);
}

#[test]
fn defaults_that_are_no_strings_stand_as_json_text() {
    let s = load(
        r#"{"commands": {"a": {"useElem": "circle", "defaults": {
            "x": 12, "y": "3.5", "name": true, "z": null, "r": -1.5e2, "theta": [1, "a"], "groupID": {"k": 1}
        }}}}"#,
    )
    .unwrap();
    let d = &s.command_to_setting[0].setting.default_values;
    let got: Vec<(String, String, Option<Number>)> =
        d.iter().map(|d| (d.name.clone(), d.word.text.clone(), d.word.number)).collect();
    assert_eq!(
        got,
        vec![
            ("groupID".to_string(), "{\"k\":1}".to_string(), None),
            ("name".to_string(), "true".to_string(), None),
            ("r".to_string(), "-150.0".to_string(), Some(n(-150.0))),
            ("theta".to_string(), "[1,\"a\"]".to_string(), None),
            ("x".to_string(), "12".to_string(), Some(n(12.0))),
            ("y".to_string(), "3.5".to_string(), Some(n(3.5))),
            ("z".to_string(), "null".to_string(), None),
        ]
    );
}

#[test]
fn defaults_are_cut_into_words() {
    let s = load(r#"{"commands": {"p": {"useElem": "path", "defaults": {"points": " 0 1\n2  x "}}}}"#).unwrap();
    let d = &s.command_to_setting[0].setting.default_values[0];
    assert_eq!(d.name, "points");
    assert_eq!(d.word.text, " 0 1\n2  x ");
    assert_eq!(d.word.number, None);
    let parts: Vec<(String, Option<Number>)> = d.parts.iter().map(|w| (w.text.clone(), w.number)).collect();
    assert_eq!(
        parts,
        vec![
            ("0".to_string(), Some(n(0.0))),
            ("1".to_string(), Some(n(1.0))),
            ("2".to_string(), Some(n(2.0))),
            ("x".to_string(), None)
        ]
    );
}

#[test]
fn document_pieces() {
    let doc: serde_json::Value =
        serde_json::from_str(r#"{"inputs": ["a", "b"], "useElem": "path", "n": 1}"#).unwrap();
    let members: Vec<(String, &serde_json::Value)> =
        doc.as_object().unwrap().iter().map(|(k, v)| (k.clone(), v)).collect();
    assert_eq!(find_member(&members, "n"), Some(&serde_json::Value::from(1)));
    assert_eq!(find_member(&members, "m"), None);
    assert_eq!(read_inputs(&members), Ok(vec!["a".to_string(), "b".to_string()]));
    assert_eq!(read_use_elem(&members), Ok(ShapeKind::Path));
    let items: Vec<&serde_json::Value> = doc["inputs"].as_array().unwrap().iter().collect();
    assert_eq!(strings_from(&items), Some(vec!["a".to_string(), "b".to_string()]));
    let mixed = vec![&doc["useElem"], &doc["n"]];
    assert_eq!(strings_from(&mixed), None);
    assert_eq!(join_texts(&vec!["a".to_string(), "".to_string(), "b".to_string()]), "a  b");
    assert_eq!(join_texts(&Vec::new()), "");
    let s = settings_from_json(&serde_json::from_str(r#"{"initialText": "x"}"#).unwrap(), &read).unwrap();
    assert_eq!(s.initial_text, "x");
}
