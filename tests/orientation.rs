use iio_rotation::config::{Config, Orientation};
use iio_rotation::dispatch::{command_for, command_for_event};
use iio_rotation::normalize::{keep_alphanumeric, normalize};
use iio_rotation::watch::{Watcher, ORIENTATION_PROPERTY};

fn config() -> Config {
    Config {
        debounce: 300,
        orientation: Orientation {
            normal: "N".to_string(),
            undefined: "U".to_string(),
            leftup: "L".to_string(),
            rightup: "R".to_string(),
            bottomup: "B".to_string(),
        },
    }
}

#[test]
fn normalize_examples() {
    assert_eq!(normalize("Bottom-Up"), normalize("bottomup"));
    assert_eq!(normalize("Bottom-Up"), "bottomup");
    assert_eq!(normalize("left-up"), "leftup");
    assert_eq!(normalize("RIGHT_UP!"), "rightup");
    assert_eq!(normalize(""), "");
    assert_eq!(normalize("-_- !?"), "");
    assert_eq!(normalize("Ab9"), "ab9");
}

#[test]
fn normalize_is_idempotent_on_examples() {
    for s in ["Bottom-Up", "x-Y-z", "", "ÀB-c", "...", "Normal"] {
        let once = normalize(s);
        assert_eq!(normalize(&once), once);
    }
}

#[test]
fn dispatch_selects_named_commands() {
    let c = config();
    assert_eq!(command_for("normal", &c), "N");
    assert_eq!(command_for("bottomup", &c), "B");
    assert_eq!(command_for("leftup", &c), "L");
    assert_eq!(command_for("rightup", &c), "R");
    assert_eq!(command_for("undefined", &c), "U");
}

#[test]
fn dispatch_falls_back_to_undefined() {
    let c = config();
    assert_eq!(command_for("", &c), "U");
    assert_eq!(command_for("---", &c), "U");
    assert_eq!(command_for("sideways", &c), "U");
    assert_eq!(command_for("bottom-up", &c), "U");
    assert_eq!(command_for(&normalize("bottom-up"), &c), "B");
}

#[test]
fn notification_without_orientation_is_ignored() {
    let w = Watcher::new("normal".to_string(), 120);
    assert_eq!(w.on_notification(&vec!["Other".to_string()]), None);
    assert_eq!(w.on_notification(&vec![]), None);
    assert_eq!(
        w.on_notification(&vec!["Other".to_string(), ORIENTATION_PROPERTY.to_string()]),
        Some(120)
    );
}

#[test]
fn burst_settling_back_dispatches_nothing() {
    let mut w = Watcher::new("normal".to_string(), 300);
    for _ in 0..3 {
        assert_eq!(w.on_notification(&vec![ORIENTATION_PROPERTY.to_string()]), Some(300));
        assert_eq!(w.on_settled("normal".to_string()), None);
    }
    assert_eq!(w.last, "normal");
}

#[test]
fn single_change_dispatches_once() {
    let mut w = Watcher::new("normal".to_string(), 300);
    assert_eq!(w.on_settled("left-up".to_string()), Some("leftup".to_string()));
    assert_eq!(w.last, "left-up");
    assert_eq!(w.on_settled("left-up".to_string()), None);
}

#[test]
fn debounce_delay_from_flag() {
    let w = Watcher::new("normal".to_string(), 50);
    assert_eq!(w.on_notification(&vec![ORIENTATION_PROPERTY.to_string()]), Some(50));
}

#[test]
fn one_shot_event_is_normalized() {
    let c = config();
    assert_eq!(command_for_event("Left-Up", &c), "L");
    assert_eq!(command_for_event("bottom-up", &c), "B");
    assert_eq!(command_for_event("NORMAL", &c), "N");
    assert_eq!(command_for_event("right_up", &c), "R");
    assert_eq!(command_for_event("", &c), "U");
    assert_eq!(command_for_event("-_!?.", &c), "U");
    assert_eq!(command_for_event("sideways", &c), "U");
}

#[test]
fn keep_alphanumeric_drops_the_rest() {
    assert_eq!(keep_alphanumeric("Left-Up 2!"), "LeftUp2");
    assert_eq!(keep_alphanumeric(""), "");
    assert_eq!(keep_alphanumeric("--"), "");
}
