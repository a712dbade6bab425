use iio_rotation::config::{
    config_from_doc, default_doc, load_config, ConfigError, DEFAULT_BOTTOMUP, DEFAULT_LEFTUP,
    DEFAULT_NORMAL, DEFAULT_RIGHTUP, DEFAULT_UNDEFINED,
};
use iio_rotation::dispatch::command_for;
use iio_rotation::doc::{Doc, Kind};

fn s(v: &str) -> Doc {
    Doc::Str(v.to_string())
}

fn table(entries: Vec<(&str, Doc)>) -> Doc {
    Doc::Table(entries.into_iter().map(|(k, v)| (k.to_string(), v)).collect())
}

fn actions(normal: Doc) -> Doc {
    table(vec![
        ("normal", normal),
        ("undefined", s("u")),
        ("leftup", s("l")),
        ("rightup", s("r")),
        ("bottomup", s("b")),
    ])
}

#[test]
fn defaults_convert() {
    let c = config_from_doc(&default_doc()).unwrap();
    assert_eq!(c.debounce, 300);
    assert_eq!(c.orientation.normal, DEFAULT_NORMAL);
    assert_eq!(c.orientation.undefined, DEFAULT_UNDEFINED);
    assert_eq!(c.orientation.leftup, DEFAULT_LEFTUP);
    assert_eq!(c.orientation.rightup, DEFAULT_RIGHTUP);
    assert_eq!(c.orientation.bottomup, DEFAULT_BOTTOMUP);
    assert!(DEFAULT_LEFTUP.starts_with("msg='leftup orientation'; printf '%s\n' "));
    assert!(!DEFAULT_LEFTUP.contains('\\'));
}

#[test]
fn one_shot_leftup_with_defaults() {
    let (c, refused) = load_config(None, None);
    let c = c.unwrap();
    assert!(refused.is_empty());
    assert_eq!(command_for("leftup", &c), DEFAULT_LEFTUP);
}

#[test]
fn non_string_normal_falls_back_to_default() {
    let user = table(vec![("orientation", table(vec![
        ("normal", Doc::Integer(1)),
        ("leftup", s("rotate left")),
        ("rightup", s("rotate right")),
        ("bottomup", s("rotate bottom")),
        ("undefined", s("nothing")),
    ]))]);
    let (c, refused) = load_config(Some(user), None);
    let c = c.unwrap();
    assert_eq!(refused.len(), 1);
    assert_eq!(refused[0].path, "orientation.normal");
    assert_eq!(refused[0].expected, Kind::Str);
    assert_eq!(refused[0].found, Kind::Integer);
    assert_eq!(c.orientation.normal, DEFAULT_NORMAL);
    assert_eq!(c.orientation.leftup, "rotate left");
    assert_eq!(c.orientation.rightup, "rotate right");
    assert_eq!(c.orientation.bottomup, "rotate bottom");
    assert_eq!(c.orientation.undefined, "nothing");
    assert_eq!(c.debounce, 300);
}

#[test]
fn debounce_flag_wins_over_file() {
    let user = table(vec![("debounce", Doc::Integer(500))]);
    let (c, _) = load_config(Some(user), Some(50));
    assert_eq!(c.unwrap().debounce, 50);
    let user = table(vec![("debounce", Doc::Integer(500))]);
    let (c, _) = load_config(Some(user), None);
    assert_eq!(c.unwrap().debounce, 500);
}

#[test]
fn conversion_errors() {
    assert_eq!(
        config_from_doc(&Doc::Integer(1)),
        Err(ConfigError { path: String::new(), missing: false })
    );
    let no_debounce = table(vec![("orientation", actions(s("n")))]);
    assert_eq!(
        config_from_doc(&no_debounce),
        Err(ConfigError { path: "debounce".to_string(), missing: true })
    );
    let negative = table(vec![("debounce", Doc::Integer(-1)), ("orientation", actions(s("n")))]);
    assert_eq!(
        config_from_doc(&negative),
        Err(ConfigError { path: "debounce".to_string(), missing: false })
    );
    let no_orientation = table(vec![("debounce", Doc::Integer(1))]);
    assert_eq!(
        config_from_doc(&no_orientation),
        Err(ConfigError { path: "orientation".to_string(), missing: true })
    );
    let flat = table(vec![("debounce", Doc::Integer(1)), ("orientation", s("x"))]);
    assert_eq!(
        config_from_doc(&flat),
        Err(ConfigError { path: "orientation".to_string(), missing: false })
    );
    let bad_action = table(vec![("debounce", Doc::Integer(1)), ("orientation", actions(Doc::Boolean(true)))]);
    assert_eq!(
        config_from_doc(&bad_action),
        Err(ConfigError { path: "orientation.normal".to_string(), missing: false })
    );
    let missing_action = table(vec![
        ("debounce", Doc::Integer(1)),
        ("orientation", table(vec![("normal", s("n")), ("undefined", s("u"))])),
    ]);
    assert_eq!(
        config_from_doc(&missing_action),
        Err(ConfigError { path: "orientation.leftup".to_string(), missing: true })
    );
}

#[test]
fn conversion_keeps_values_and_ignores_extra_keys() {
    let d = table(vec![
        ("debounce", Doc::Integer(42)),
        ("orientation", actions(s("n"))),
        ("extra", Doc::Boolean(true)),
    ]);
    let c = config_from_doc(&d).unwrap();
    assert_eq!(c.debounce, 42);
    assert_eq!(c.orientation.normal, "n");
    assert_eq!(c.orientation.bottomup, "b");
}

#[test]
fn user_document_missing_key_is_fatal_only_if_absent_after_merge() {
    let user = table(vec![("orientation", table(vec![("normal", s("mine"))]))]);
    let (c, refused) = load_config(Some(user), None);
    assert!(refused.is_empty());
    let c = c.unwrap();
    assert_eq!(c.orientation.normal, "mine");
    assert_eq!(c.orientation.leftup, DEFAULT_LEFTUP);
}
