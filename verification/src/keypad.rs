//! The keyboard keys that stand for the sixteen keys of the keypad.

use vstd::prelude::*;

verus! {

/// The keyboard keys that stand for the keys of the keypad, and one that
/// stands for none of them.
#[derive(Clone, Copy, Debug, PartialEq, Eq, Structural)]
pub enum KeyCode {
    Key0,
    Key1,
    Key2,
    Key3,
    Key4,
    Key5,
    Key6,
    Key7,
    Key8,
    Key9,
    A,
    B,
    C,
    D,
    E,
    F,
    F1,
}

/// The keyboard keys in the order of the key values 0 to F. A key value
/// stands for the keyboard key named like the label at that place of the
/// keypad, whose rows read 1 2 3 C, 4 5 6 D, 7 8 9 E and A 0 B F.
pub open spec fn key_layout() -> Seq<KeyCode> {
    seq![
        KeyCode::Key1,
        KeyCode::Key2,
        KeyCode::Key3,
        KeyCode::C,
        KeyCode::Key4,
        KeyCode::Key5,
        KeyCode::Key6,
        KeyCode::D,
        KeyCode::Key7,
        KeyCode::Key8,
        KeyCode::Key9,
        KeyCode::E,
        KeyCode::A,
        KeyCode::Key0,
        KeyCode::B,
        KeyCode::F,
    ]
}

/// The keyboard key for a key value; `F1` for a value that is no key.
pub open spec fn key_code_of(value: u8) -> KeyCode {
    if value < 16 {
        key_layout()[value as int]
    } else {
        KeyCode::F1
    }
}

} // verus!
