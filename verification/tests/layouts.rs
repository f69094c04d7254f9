use kbdgen::layer_set::{populate_layer_set, WindowsLayerSet, SG_CAP};
use kbdgen::layout::{find_key, find_mac_layer, MacOsKbdLayer, Transform, WindowsKbdLayer};
use kbdgen::macos::{compute_keyboard_id, layer_attributes, TransformIdManager};

#[test]
fn keys_are_found_by_first_entry() {
    let entries = vec![("a".to_string(), 1), ("b".to_string(), 2), ("a".to_string(), 3)];
    assert_eq!(find_key(&entries, "a"), Some(0));
    assert_eq!(find_key(&entries, "b"), Some(1));
    assert_eq!(find_key(&entries, "c"), None);
    let layers = vec![(MacOsKbdLayer::Shift, ()), (MacOsKbdLayer::Default, ())];
    assert_eq!(find_mac_layer(&layers, MacOsKbdLayer::Default), Some(1));
    let _ = Transform::End("x".to_string());
}

#[test]
fn layer_sets_are_filled_layer_by_layer() {
    let mut set = WindowsLayerSet::default();
    let dead_keys = Some(vec![(WindowsKbdLayer::Shift, vec!["^".to_string()])]);
    populate_layer_set(&mut set, &WindowsKbdLayer::Default, vec!["a".to_string(), "b".to_string()], 1, &dead_keys);
    populate_layer_set(&mut set, &WindowsKbdLayer::Shift, vec!["^".to_string(), "B".to_string()], 0, &dead_keys);
    populate_layer_set(&mut set, &WindowsKbdLayer::Caps, vec!["\\u{0}".to_string()], 0, &dead_keys);
    populate_layer_set(&mut set, &WindowsKbdLayer::Alt, vec!["\\u{e1}".to_string()], 0, &dead_keys);
    assert_eq!(set.default.as_ref().unwrap().string, "b");
    assert!(set.shift.as_ref().unwrap().dead_key);
    assert!(set.caps.is_none());
    assert_eq!(set.alt.as_ref().unwrap().string, "á");
    assert_eq!(set.caps_mode(), "5");
}

#[test]
fn caps_modes_are_the_klc_columns() {
    let mut set = WindowsLayerSet::default();
    assert_eq!(set.caps_mode(), "0");
    populate_layer_set(&mut set, &WindowsKbdLayer::Default, vec!["a".to_string()], 0, &None);
    assert_eq!(set.caps_mode(), "1");
    populate_layer_set(&mut set, &WindowsKbdLayer::Caps, vec!["ä".to_string()], 0, &None);
    assert_eq!(set.caps_mode(), SG_CAP);
    for mode in ["0", "1", "4", "5", "SGCap"] {
        assert!(["0", "1", "4", "5", SG_CAP].contains(&mode));
    }
}

#[test]
fn macos_layer_modifiers() {
    assert_eq!(layer_attributes(&MacOsKbdLayer::Default), "command?");
    assert_eq!(layer_attributes(&MacOsKbdLayer::Shift), "anyShift caps? command?");
}

#[test]
fn transform_ids_never_repeat() {
    let mut manager = TransformIdManager::new();
    let mut ids = Vec::new();
    for _ in 0..20 {
        ids.push(manager.next_dead_key());
        ids.push(manager.next_action());
    }
    for i in 0..ids.len() {
        assert_ne!(ids[i], "none");
        for j in 0..i {
            assert_ne!(ids[i], ids[j]);
        }
    }
}

#[test]
fn keyboard_ids_read_back_as_numbers() {
    for name in ["", "en", "seNO", "smjSE", "a very long keyboard name"] {
        let id = compute_keyboard_id(name);
        let n: i32 = id[1..].parse().unwrap();
        assert!(id.starts_with('-'));
        assert!((1..=32768).contains(&n));
    }
}
