use kbdgen::ios::{generate_platform, keyboard_component_from_string, IosKeyMapType};
use kbdgen::layout::IOsKbdLayer;

#[test]
fn buttons_are_read_from_their_escapes() {
    assert_eq!(keyboard_component_from_string("\\s{shift}".to_string()), Some(("_shift".to_string(), None)));
    assert_eq!(
        keyboard_component_from_string("\\s{\"spacebar\":2.5}".to_string()),
        Some(("spacebar".to_string(), Some("2.5".to_string())))
    );
    assert_eq!(keyboard_component_from_string("\\s{return:1}".to_string()), Some(("_return".to_string(), Some("1".to_string()))));
    assert_eq!(keyboard_component_from_string("\\s{x:1.}".to_string()), None);
    assert_eq!(keyboard_component_from_string("\\s{}".to_string()), None);
    assert_eq!(keyboard_component_from_string("\\s{a}b}".to_string()), None);
    assert_eq!(keyboard_component_from_string("a".to_string()), None);
}

#[test]
fn layers_become_rows_of_keys_and_buttons() {
    let layers = vec![(IOsKbdLayer::Default, "  q w\n\\s{shift} z \\s{backspace:1.5}\n".to_string())];
    let platform = generate_platform(&layers);
    assert_eq!(platform.len(), 1);
    assert_eq!(platform[0].0, "normal");
    let rows = &platform[0].1;
    assert_eq!(rows.len(), 2);
    assert!(matches!(&rows[0][0], IosKeyMapType::Character(c) if c == "q"));
    assert!(matches!(&rows[1][0], IosKeyMapType::Button { id, width: None } if id == "_shift"));
    assert!(matches!(&rows[1][2], IosKeyMapType::Button { id, width: Some(w) } if id == "_backspace" && w == "1.5"));
}
