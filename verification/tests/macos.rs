use indexmap::IndexMap;
use kbdgen::keylayout::key_layout_is_possible;

use kbdgen::keylayout::GenerateMacOs;
use kbdgen::layout::{MacOsKbdLayer, Transform};
use kbdgen::macos::{
    compute_keyboard_id, compute_language_name, create_dead_key_actions, initialize_key_transition_map,
    process_transforms, update_key_transition_map_with_transform, DeadKeyAction, DeadKeyOutput, KeyOutput,
    KeyTransition, TransformIdManager,
};
use kbdgen::text::split_keys;

const BASIC_LAYER: &str =
    "q w e r t y u i o p [ ] a s d f g h j k l ; ' z x c v b n m , . / \\ ` 1 2 3 4 5 6 7 8 9 0 - = space";

fn basic_layers() -> Vec<(MacOsKbdLayer, String)> {
    vec![(MacOsKbdLayer::Default, BASIC_LAYER.to_string())]
}

fn acute_transforms() -> Vec<(String, Transform)> {
    vec![(
        "'".to_string(),
        Transform::More(vec![
            (" ".to_string(), Transform::End("'".to_string())),
            ("a".to_string(), Transform::End("á".to_string())),
            ("e".to_string(), Transform::End("é".to_string())),
        ]),
    )]
}

fn acute_dead_keys() -> Vec<(MacOsKbdLayer, Vec<String>)> {
    vec![(MacOsKbdLayer::Default, vec!["'".to_string()])]
}

#[test]
fn test_transform_id_manager() {
    let mut manager = TransformIdManager::new();

    assert_eq!(manager.next_dead_key(), "dead_key000");
    assert_eq!(manager.next_dead_key(), "dead_key001");
    assert_eq!(manager.next_action(), "action000");
    assert_eq!(manager.next_action(), "action001");
}

#[test]
fn test_compute_keyboard_id() {
    let name = "en";
    let id = compute_keyboard_id(name);
    assert!(id.starts_with("-"));
    assert!(id[1..].parse::<i32>().is_ok());
}

#[test]
fn test_compute_language_name() {
    let name = compute_language_name("en-US");
    assert_eq!(name, "enUS");
}

#[test]
fn test_initialize_key_transition_map_basic() {
    let layers = basic_layers();
    let mut layered_key_transition_map = IndexMap::new();
    initialize_key_transition_map("en-US", &layers, &mut layered_key_transition_map);

    assert!(!layered_key_transition_map.is_empty());
    let base_layer_map = layered_key_transition_map.get(&MacOsKbdLayer::Default).unwrap();

    assert_eq!(base_layer_map.len(), 48);

    assert!(base_layer_map.contains_key("q"));
    if let Some(KeyTransition::Output(output)) = base_layer_map.get("q") {
        assert_eq!(output.output, "q");
        // `q` sits at ISO D01, key code 12 on a Mac.
        assert_eq!(output.code, 12);
    } else {
        panic!("Expected Output transition for 'q'");
    }
}

#[test]
fn keys_of_each_row_take_their_row_codes() {
    let layers = basic_layers();
    let mut layered_key_transition_map = IndexMap::new();
    initialize_key_transition_map("en-US", &layers, &mut layered_key_transition_map);
    let base_layer_map = layered_key_transition_map.get(&MacOsKbdLayer::Default).unwrap();
    let code = |key: &str| match base_layer_map.get(key) {
        Some(KeyTransition::Output(output)) => output.code,
        _ => panic!("Expected Output transition for {key}"),
    };
    assert_eq!(code("a"), 0);
    assert_eq!(code("z"), 6);
    assert_eq!(code("\\"), 42);
    assert_eq!(code("`"), 10);
    assert_eq!(code("1"), 18);
    assert_eq!(code("="), 24);
    assert_eq!(code("space"), 50);
}

#[test]
fn test_initialize_key_transition_map_with_transforms() {
    let layers = basic_layers();
    let mut layered_key_transition_map = IndexMap::new();
    initialize_key_transition_map("en-US", &layers, &mut layered_key_transition_map);

    let base_layer_map = layered_key_transition_map.get(&MacOsKbdLayer::Default).unwrap();
    assert_eq!(base_layer_map.len(), 48);
}

#[test]
fn test_process_transforms_with_dead_keys() {
    let layers = basic_layers();
    let transforms = acute_transforms();
    let target_dead_keys = acute_dead_keys();

    let mut layered_key_transition_map = IndexMap::new();
    let mut dead_keys = IndexMap::new();
    let mut id_manager = TransformIdManager::new();

    initialize_key_transition_map("en-US", &layers, &mut layered_key_transition_map);

    process_transforms(
        &layers,
        &transforms,
        &target_dead_keys,
        &mut dead_keys,
        &mut layered_key_transition_map,
        &mut id_manager,
    );

    assert!(!dead_keys.is_empty());
    assert!(dead_keys.contains_key("'"));

    let base_layer_map = layered_key_transition_map.get(&MacOsKbdLayer::Default).unwrap();

    if let Some(KeyTransition::Action(action)) = base_layer_map.get("a") {
        assert_eq!(action.states.len(), 2);
        assert_eq!(action.states[0].id, "none");
        assert_eq!(action.states[1].output, "á");
    } else {
        panic!("Expected Action transition for 'a' after transform processing");
    }
}

#[test]
fn test_update_key_transition_map_with_transform() {
    let mut key_transition_map = IndexMap::new();
    let mut id_manager = TransformIdManager::new();

    key_transition_map.insert(
        "a".to_string(),
        KeyTransition::Output(KeyOutput { code: 0, output: "a".to_string() }),
    );

    let transform = DeadKeyOutput { id: "dead_key000".to_string(), output: "á".to_string() };

    update_key_transition_map_with_transform(&mut key_transition_map, "a", transform, &mut id_manager);

    if let Some(KeyTransition::Action(action)) = key_transition_map.get("a") {
        assert_eq!(action.states.len(), 2);
        assert_eq!(action.states[0].id, "none");
        assert_eq!(action.states[1].id, "dead_key000");
        assert_eq!(action.states[1].output, "á");
    } else {
        panic!("Expected Action transition after transform update");
    }

    let transform2 = DeadKeyOutput { id: "dead_key001".to_string(), output: "à".to_string() };

    update_key_transition_map_with_transform(&mut key_transition_map, "a", transform2, &mut id_manager);

    if let Some(KeyTransition::Action(action)) = key_transition_map.get("a") {
        assert_eq!(action.states.len(), 3);
    } else {
        panic!("Expected Action transition with multiple states");
    }
}

#[test]
fn test_create_dead_key_actions() {
    let layers = basic_layers();
    let target_dead_keys = acute_dead_keys();

    let mut layered_key_transition_map = IndexMap::new();
    let mut dead_keys = IndexMap::new();
    let mut id_manager = TransformIdManager::new();

    dead_keys.insert(
        "'".to_string(),
        DeadKeyOutput { id: "dead_key000".to_string(), output: "'".to_string() },
    );

    initialize_key_transition_map("en-US", &layers, &mut layered_key_transition_map);

    create_dead_key_actions(
        &layers,
        &mut layered_key_transition_map,
        &target_dead_keys,
        &dead_keys,
        &mut id_manager,
    );

    let base_layer_map = layered_key_transition_map.get(&MacOsKbdLayer::Default).unwrap();

    if let Some(KeyTransition::Next(next_action)) = base_layer_map.get("'") {
        assert_eq!(next_action.states.len(), 1);
        assert_eq!(next_action.states[0].next, "dead_key000");
    } else {
        panic!("Expected Next transition for dead key");
    }
}

#[test]
fn test_generate_key_layout_files() {
    let layers = basic_layers();
    let key_layout =
        GenerateMacOs::generate_key_layout("en-US", &layers, &None, &None, &Some(".".to_string()));

    assert!(!key_layout.key_maps.is_empty());
    assert!(!key_layout.modifiers.is_empty());
}

#[test]
fn test_generate_key_layout_files_with_transforms() {
    let layers = basic_layers();
    let key_layout = GenerateMacOs::generate_key_layout(
        "en-US",
        &layers,
        &Some(acute_transforms()),
        &Some(acute_dead_keys()),
        &Some(".".to_string()),
    );

    assert!(!key_layout.actions.is_empty());
    assert!(!key_layout.terminators.is_empty());
}

#[test]
fn test_key_transition_output_creation() {
    let output = KeyOutput { code: 42, output: "test".to_string() };

    assert_eq!(output.code, 42);
    assert_eq!(output.output, "test");
}

#[test]
fn test_dead_key_output_creation() {
    let dead_key = DeadKeyOutput { id: "dead_key001".to_string(), output: "á".to_string() };

    assert_eq!(dead_key.id, "dead_key001");
    assert_eq!(dead_key.output, "á");
}

#[test]
fn test_dead_key_action_creation() {
    let action = DeadKeyAction {
        id: "action001".to_string(),
        code: 15,
        states: vec![
            DeadKeyOutput { id: "none".to_string(), output: "a".to_string() },
            DeadKeyOutput { id: "acute".to_string(), output: "á".to_string() },
        ],
    };

    assert_eq!(action.id, "action001");
    assert_eq!(action.code, 15);
    assert_eq!(action.states.len(), 2);
}

#[test]
fn test_duplicate_keys_issue() {
    let layer = "q w e r t y u i o p [ ] a s d f g h j k l ; ' z x c v b n m , . / a ` 1 2 3 4 5 6 7 8 9 0 - = space";
    let layers = vec![(MacOsKbdLayer::Default, layer.to_string())];
    let mut layered_key_transition_map = IndexMap::new();
    initialize_key_transition_map("en-US", &layers, &mut layered_key_transition_map);
    let base_layer_map = layered_key_transition_map.get(&MacOsKbdLayer::Default).unwrap();

    let layer_keys = split_keys(layer);
    let a_count = layer_keys.iter().filter(|k| k.as_str() == "a").count();
    assert_eq!(a_count, 2);
    assert!(base_layer_map.contains_key("a"));
    assert_eq!(base_layer_map.len(), 48);
}

#[test]
fn a_repeated_key_keeps_its_own_position_under_a_blank_name() {
    let layer = "q w e r t y u i o p [ ] a s d f g h j k l ; ' z x c v b n m , . / a ` 1 2 3 4 5 6 7 8 9 0 - = space";
    let layers = vec![(MacOsKbdLayer::Default, layer.to_string())];
    let mut layered_key_transition_map = IndexMap::new();
    initialize_key_transition_map("en-US", &layers, &mut layered_key_transition_map);
    let base_layer_map = layered_key_transition_map.get(&MacOsKbdLayer::Default).unwrap();

    match base_layer_map.get("a") {
        Some(KeyTransition::Output(output)) => assert_eq!((output.code, output.output.as_str()), (0, "a")),
        _ => panic!("Expected Output transition for 'a'"),
    }
    let blank = " ".repeat(34);
    assert_eq!(base_layer_map.get_index_of(blank.as_str()), Some(33));
    match base_layer_map.get(blank.as_str()) {
        Some(KeyTransition::Output(output)) => assert_eq!((output.code, output.output.as_str()), (42, "a")),
        _ => panic!("Expected Output transition at the second 'a'"),
    }
}

#[test]
fn a_key_layout_is_possible_only_where_every_input_is_usable() {
    let layers = basic_layers();
    let decimal = Some(".".to_string());
    assert!(key_layout_is_possible(&layers, &None, &None, &decimal));
    assert!(key_layout_is_possible(&layers, &Some(acute_transforms()), &Some(acute_dead_keys()), &decimal));

    let twice = vec![layers[0].clone(), layers[0].clone()];
    assert!(!key_layout_is_possible(&twice, &None, &None, &decimal));

    let short = vec![(MacOsKbdLayer::Default, "q w e".to_string())];
    assert!(!key_layout_is_possible(&short, &None, &None, &decimal));

    let caps_shift = vec![(MacOsKbdLayer::CapsAndShift, BASIC_LAYER.to_string())];
    assert!(!key_layout_is_possible(&caps_shift, &None, &None, &decimal));

    let bad_decimal = Some("\\u{d800}".to_string());
    assert!(!key_layout_is_possible(&layers, &None, &None, &bad_decimal));

    let no_escape = vec![("'".to_string(), Transform::More(vec![("a".to_string(), Transform::End("á".to_string()))]))];
    assert!(!key_layout_is_possible(&layers, &Some(no_escape), &Some(acute_dead_keys()), &decimal));

    let missing = vec![(MacOsKbdLayer::Default, vec!["`".to_string()])];
    assert!(!key_layout_is_possible(&layers, &Some(acute_transforms()), &Some(missing), &decimal));
}
