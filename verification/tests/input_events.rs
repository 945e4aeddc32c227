use syntro_rdp::input::{
    button_from_name, direction_from_down, key_from_name, translate_event, Direction, InputAction,
    InputEvent, KeyCode, MouseButton,
};

#[test]
fn buttons_by_name() {
    assert_eq!(button_from_name("left"), MouseButton::Left);
    assert_eq!(button_from_name("right"), MouseButton::Right);
    assert_eq!(button_from_name("middle"), MouseButton::Middle);
    assert_eq!(button_from_name("back"), MouseButton::Left);
    assert_eq!(button_from_name(""), MouseButton::Left);
}

#[test]
fn named_keys() {
    assert_eq!(key_from_name("Return"), Some(KeyCode::Return));
    assert_eq!(key_from_name("Enter"), Some(KeyCode::Return));
    assert_eq!(key_from_name("Space"), Some(KeyCode::Space));
    assert_eq!(key_from_name(" "), Some(KeyCode::Space));
    assert_eq!(key_from_name("Backspace"), Some(KeyCode::Backspace));
    assert_eq!(key_from_name("Escape"), Some(KeyCode::Escape));
    assert_eq!(key_from_name("Tab"), Some(KeyCode::Tab));
    assert_eq!(key_from_name("Shift"), Some(KeyCode::Shift));
    assert_eq!(key_from_name("Control"), Some(KeyCode::Control));
    assert_eq!(key_from_name("Alt"), Some(KeyCode::Alt));
    assert_eq!(key_from_name("Meta"), Some(KeyCode::Meta));
    assert_eq!(key_from_name("ArrowUp"), Some(KeyCode::UpArrow));
    assert_eq!(key_from_name("ArrowDown"), Some(KeyCode::DownArrow));
    assert_eq!(key_from_name("ArrowLeft"), Some(KeyCode::LeftArrow));
    assert_eq!(key_from_name("ArrowRight"), Some(KeyCode::RightArrow));
}

#[test]
fn single_characters_and_unknown_names() {
    assert_eq!(key_from_name("a"), Some(KeyCode::Unicode('a')));
    assert_eq!(key_from_name("Z"), Some(KeyCode::Unicode('Z')));
    assert_eq!(key_from_name("é"), Some(KeyCode::Unicode('é')));
    assert_eq!(key_from_name("€"), Some(KeyCode::Unicode('€')));
    assert_eq!(key_from_name(""), None);
    assert_eq!(key_from_name("F5"), None);
    assert_eq!(key_from_name("enter"), None);
    assert_eq!(key_from_name("ab"), None);
}

#[test]
fn directions() {
    assert_eq!(direction_from_down(true), Direction::Press);
    assert_eq!(direction_from_down(false), Direction::Release);
}

#[test]
fn events_become_actions() {
    assert_eq!(
        translate_event(&InputEvent::MouseMove { x: 100, y: -3 }),
        Some(InputAction::MoveMouse { x: 100, y: -3 })
    );
    assert_eq!(
        translate_event(&InputEvent::MouseClick { button: "right".to_string(), down: true }),
        Some(InputAction::Button { button: MouseButton::Right, direction: Direction::Press })
    );
    assert_eq!(
        translate_event(&InputEvent::MouseClick { button: "wheel".to_string(), down: false }),
        Some(InputAction::Button { button: MouseButton::Left, direction: Direction::Release })
    );
    assert_eq!(
        translate_event(&InputEvent::Key { key: "Enter".to_string(), down: false }),
        Some(InputAction::Key { key: KeyCode::Return, direction: Direction::Release })
    );
    assert_eq!(
        translate_event(&InputEvent::Key { key: "q".to_string(), down: true }),
        Some(InputAction::Key { key: KeyCode::Unicode('q'), direction: Direction::Press })
    );
    assert_eq!(translate_event(&InputEvent::Key { key: "PageUp".to_string(), down: true }), None);
}

#[test]
fn press_and_release_name_the_same_key() {
    for name in ["Tab", "x", "ArrowLeft", "Unknown", " "] {
        let down = translate_event(&InputEvent::Key { key: name.to_string(), down: true });
        let up = translate_event(&InputEvent::Key { key: name.to_string(), down: false });
        match (down, up) {
            (
                Some(InputAction::Key { key: a, direction: Direction::Press }),
                Some(InputAction::Key { key: b, direction: Direction::Release }),
            ) => assert_eq!(a, b),
            (None, None) => {}
            other => panic!("mismatch for {name}: {other:?}"),
        }
    }
}
