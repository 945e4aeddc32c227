//! Remote input: the events a viewer sends, and the actions the host injects
//! for them.

use vstd::prelude::*;

verus! {


/// A mouse button as the host presses or releases it.
#[derive(Clone, Copy, Debug, PartialEq, Eq, Structural)]
pub enum MouseButton {
    Left,
    Right,
    Middle,
}

/// Whether a button or key goes down or comes up.
#[derive(Clone, Copy, Debug, PartialEq, Eq, Structural)]
pub enum Direction {
    Press,
    Release,
}

/// A key as the host presses or releases it.
#[derive(Clone, Copy, Debug, PartialEq, Eq, Structural)]
pub enum KeyCode {
    Return,
    Space,
    Backspace,
    Escape,
    Tab,
    Shift,
    Control,
    Alt,
    Meta,
    UpArrow,
    DownArrow,
    LeftArrow,
    RightArrow,
    Unicode(char),
}

/// An input event sent by a viewer. The pointer position is in whole screen
/// pixels, as the host injects it.
#[derive(Clone, Debug, PartialEq)]
pub enum InputEvent {
    MouseMove { x: i32, y: i32 },
    MouseClick { button: String, down: bool },
    Key { key: String, down: bool },
}

/// What the host injects for an event.
#[derive(Clone, Copy, Debug, PartialEq, Eq, Structural)]
pub enum InputAction {
    MoveMouse { x: i32, y: i32 },
    Button { button: MouseButton, direction: Direction },
    Key { key: KeyCode, direction: Direction },
}

/// The button a name stands for; an unknown name means the left button.
pub open spec fn button_named(name: Seq<char>) -> MouseButton {
    if name == "left"@ {
        MouseButton::Left
    } else if name == "right"@ {
        MouseButton::Right
    } else if name == "middle"@ {
        MouseButton::Middle
    } else {
        MouseButton::Left
    }
}

/// The key a name stands for: a named key, else the one character the name
/// consists of, else none.
pub open spec fn key_named(name: Seq<char>) -> Option<KeyCode> {
    if name == "Return"@ || name == "Enter"@ {
        Some(KeyCode::Return)
    } else if name == "Space"@ || name == " "@ {
        Some(KeyCode::Space)
    } else if name == "Backspace"@ {
        Some(KeyCode::Backspace)
    } else if name == "Escape"@ {
        Some(KeyCode::Escape)
    } else if name == "Tab"@ {
        Some(KeyCode::Tab)
    } else if name == "Shift"@ {
        Some(KeyCode::Shift)
    } else if name == "Control"@ {
        Some(KeyCode::Control)
    } else if name == "Alt"@ {
        Some(KeyCode::Alt)
    } else if name == "Meta"@ {
        Some(KeyCode::Meta)
    } else if name == "ArrowUp"@ {
        Some(KeyCode::UpArrow)
    } else if name == "ArrowDown"@ {
        Some(KeyCode::DownArrow)
    } else if name == "ArrowLeft"@ {
        Some(KeyCode::LeftArrow)
    } else if name == "ArrowRight"@ {
        Some(KeyCode::RightArrow)
    } else if name.len() == 1 {
        Some(KeyCode::Unicode(name[0]))
    } else {
        None
    }
}

/// The direction a `down` flag stands for.
pub open spec fn direction_of(down: bool) -> Direction {
    if down {
        Direction::Press
    } else {
        Direction::Release
    }
}

/// The action injected for an event; none for a key the host does not know.
pub open spec fn action_for(event: InputEvent) -> Option<InputAction> {
    match event {
        InputEvent::MouseMove { x, y } => Some(InputAction::MoveMouse { x, y }),
        InputEvent::MouseClick { button, down } => Some(
            InputAction::Button { button: button_named(button@), direction: direction_of(down) },
        ),
        InputEvent::Key { key, down } => match key_named(key@) {
            Some(k) => Some(InputAction::Key { key: k, direction: direction_of(down) }),
            None => None,
        },
    }
}

/// Whether two strings are equal: they are exactly when their UTF-8 bytes
/// are, since decoding undoes encoding.
fn str_equal(a: &str, b: &str) -> (r: bool)
    ensures
        r == (a@ == b@),
{
    let x = a.as_bytes();
    let y = b.as_bytes();
    proof {
        vstd::utf8::encode_utf8_decode_utf8(a@);
        vstd::utf8::encode_utf8_decode_utf8(b@);
        assert(x@ == vstd::utf8::encode_utf8(a@));
        assert(y@ == vstd::utf8::encode_utf8(b@));
        assert((a@ == b@) <==> (x@ == y@));
    }
    if x.len() != y.len() {
        return false;
    }
    let mut i: usize = 0;
    while i < x.len()
        invariant
            x@.len() == y@.len(),
            (a@ == b@) <==> (x@ == y@),
            i <= x@.len(),
            forall|j: int| 0 <= j < i ==> x@[j] == y@[j],
        decreases x.len() - i,
    {
        if x[i] != y[i] {
            assert(x@[i as int] != y@[i as int]);
            assert(x@ != y@);
            return false;
        }
        i = i + 1;
    }
    assert(x@ =~= y@);
    true
}

/// The only character of `s`, if `s` has exactly one.
fn single_char(s: &str) -> (r: Option<char>)
    ensures
        r == (if s@.len() == 1 { Some(s@[0]) } else { None::<char> }),
{
    let mut it = s.chars();
    match it.next() {
        None => None,
        Some(c) => match it.next() {
            None => Some(c),
            Some(_) => None,
        },
    }
}

/// The button a name stands for.
pub fn button_from_name(name: &str) -> (b: MouseButton)
    ensures
        b == button_named(name@),
{
    if str_equal(name, "left") {
        MouseButton::Left
    } else if str_equal(name, "right") {
        MouseButton::Right
    } else if str_equal(name, "middle") {
        MouseButton::Middle
    } else {
        MouseButton::Left
    }
}

/// The key a name stands for, if any.
pub fn key_from_name(name: &str) -> (k: Option<KeyCode>)
    ensures
        k == key_named(name@),
{
    if str_equal(name, "Return") || str_equal(name, "Enter") {
        Some(KeyCode::Return)
    } else if str_equal(name, "Space") || str_equal(name, " ") {
        Some(KeyCode::Space)
    } else if str_equal(name, "Backspace") {
        Some(KeyCode::Backspace)
    } else if str_equal(name, "Escape") {
        Some(KeyCode::Escape)
    } else if str_equal(name, "Tab") {
        Some(KeyCode::Tab)
    } else if str_equal(name, "Shift") {
        Some(KeyCode::Shift)
    } else if str_equal(name, "Control") {
        Some(KeyCode::Control)
    } else if str_equal(name, "Alt") {
        Some(KeyCode::Alt)
    } else if str_equal(name, "Meta") {
        Some(KeyCode::Meta)
    } else if str_equal(name, "ArrowUp") {
        Some(KeyCode::UpArrow)
    } else if str_equal(name, "ArrowDown") {
        Some(KeyCode::DownArrow)
    } else if str_equal(name, "ArrowLeft") {
        Some(KeyCode::LeftArrow)
    } else if str_equal(name, "ArrowRight") {
        Some(KeyCode::RightArrow)
    } else {
        match single_char(name) {
            Some(c) => Some(KeyCode::Unicode(c)),
            None => None,
        }
    }
}

/// The direction a `down` flag stands for.
pub fn direction_from_down(down: bool) -> (d: Direction)
    ensures
        d == direction_of(down),
{
    if down {
        Direction::Press
    } else {
        Direction::Release
    }
}

/// The action the host injects for an event; `None` when the event names a
/// key the host does not know, which the host then skips.
pub fn translate_event(event: &InputEvent) -> (a: Option<InputAction>)
    ensures
        a == action_for(*event),
        *event matches InputEvent::MouseMove { x, y } ==> a == Some(InputAction::MoveMouse { x, y }),
        *event matches InputEvent::MouseClick { button, down } ==> a == Some(
            InputAction::Button {
                button: button_named(button@),
                direction: if down {
                    Direction::Press
                } else {
                    Direction::Release
                },
            },
        ),
        *event matches InputEvent::Key { key, down } ==> (a is Some <==> key_named(key@) is Some),
        *event matches InputEvent::Key { key, down } ==> (a matches Some(act) ==> act
            == InputAction::Key {
            key: key_named(key@).unwrap(),
            direction: if down {
                Direction::Press
            } else {
                Direction::Release
            },
        }),
{
    match event {
        InputEvent::MouseMove { x, y } => Some(InputAction::MoveMouse { x: *x, y: *y }),
        InputEvent::MouseClick { button, down } => Some(
            InputAction::Button {
                button: button_from_name(button.as_str()),
                direction: direction_from_down(*down),
            },
        ),
        InputEvent::Key { key, down } => match key_from_name(key.as_str()) {
            Some(k) => Some(InputAction::Key { key: k, direction: direction_from_down(*down) }),
            None => None,
        },
    }
}


/// The pointer goes exactly where the viewer put it: a move to `(x, y)` is
/// injected as a move to `(x, y)`, for every position; a click presses or
/// releases as its flag says.
pub proof fn law_pointer_goes_where_sent(x: i32, y: i32, button: String)
    ensures
        action_for(InputEvent::MouseMove { x, y }) == Some(InputAction::MoveMouse { x, y }),
        action_for(InputEvent::MouseClick { button, down: true }) matches Some(
            InputAction::Button { direction: Direction::Press, .. },
        ),
        action_for(InputEvent::MouseClick { button, down: false }) matches Some(
            InputAction::Button { direction: Direction::Release, .. },
        ),
{
}

/// "Enter" and "Return" name the same key, and so do " " and "Space".
pub proof fn law_key_aliases()
    ensures
        key_named("Enter"@) == key_named("Return"@),
        key_named(" "@) == key_named("Space"@),
        key_named("Return"@) == Some(KeyCode::Return),
        key_named("Space"@) == Some(KeyCode::Space),
{
    reveal_strlit("Return");
    reveal_strlit("Enter");
    reveal_strlit("Space");
    reveal_strlit(" ");
    assert("Space"@[0] != "Return"@[0]);
    assert("Space"@[0] != "Enter"@[0]);
    assert(" "@.len() != "Return"@.len());
    assert(" "@.len() != "Enter"@.len());
}

/// A key event names the same key whether it presses or releases it: both
/// are injected, with opposite directions, or both are skipped. The same
/// holds of mouse buttons, which are never skipped.
pub proof fn law_press_release_agree(name: String)
    ensures
        match (
            action_for(InputEvent::Key { key: name, down: true }),
            action_for(InputEvent::Key { key: name, down: false }),
        ) {
            (
                Some(InputAction::Key { key: a, direction: Direction::Press }),
                Some(InputAction::Key { key: b, direction: Direction::Release }),
            ) => a == b,
            (None, None) => true,
            _ => false,
        },
        match (
            action_for(InputEvent::MouseClick { button: name, down: true }),
            action_for(InputEvent::MouseClick { button: name, down: false }),
        ) {
            (
                Some(InputAction::Button { button: a, direction: Direction::Press }),
                Some(InputAction::Button { button: b, direction: Direction::Release }),
            ) => a == b,
            _ => false,
        },
{
}

/// Any name of exactly one character, other than the space, is typed as that
/// character; names of other lengths that name no key are skipped.
pub proof fn law_single_characters(name: Seq<char>)
    ensures
        name.len() == 1 && name != " "@ ==> key_named(name) == Some(KeyCode::Unicode(name[0])),
        name.len() == 0 ==> key_named(name) is None,
{
    reveal_strlit("Return");
    reveal_strlit("Enter");
    reveal_strlit("Space");
    reveal_strlit(" ");
    reveal_strlit("Backspace");
    reveal_strlit("Escape");
    reveal_strlit("Tab");
    reveal_strlit("Shift");
    reveal_strlit("Control");
    reveal_strlit("Alt");
    reveal_strlit("Meta");
    reveal_strlit("ArrowUp");
    reveal_strlit("ArrowDown");
    reveal_strlit("ArrowLeft");
    reveal_strlit("ArrowRight");
}

} // verus!
