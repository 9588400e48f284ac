//! Key transitions and the keyboard layout that produces them.

use vstd::prelude::*;

verus! {

/// One transition of one of the sixteen keys: `key` went down (`pressed`)
/// or came up.
#[derive(Clone, Copy, Debug, PartialEq, Eq)]
pub struct KeyEvent {
    pub key: u8,
    pub pressed: bool,
}

impl KeyEvent {
    /// The key is one of the sixteen keys of the keypad.
    pub open spec fn wf(self) -> bool {
        self.key < 16
    }
}

/// The keyboard key bound to each key of the keypad: entry `k` is the code
/// of the key that stands for keypad key `k`. A code is the character that
/// the unshifted key types. The sixteen keys form the left-hand block of a
/// keyboard,
///
/// ```text
/// 1 2 3 4        1 2 3 C
/// q w e r   for  4 5 6 D
/// a s d f        7 8 9 E
/// z x c v        A 0 B F
/// ```
pub const KEYPAD: [i32; 16] = [
    0x78, 0x31, 0x32, 0x33,
    0x71, 0x77, 0x65, 0x61,
    0x73, 0x64, 0x7A, 0x63,
    0x34, 0x72, 0x66, 0x76,
];

/// No keyboard key is bound to two keys of the keypad.
pub proof fn lemma_keypad_distinct(j: int, k: int)
    requires
        0 <= j < 16,
        0 <= k < 16,
        KEYPAD@[j] == KEYPAD@[k],
    ensures
        j == k,
{
}

/// Turns a transition of a keyboard key into the key event that it stands
/// for, if the key is bound to a key of the keypad.
pub fn handle_key_press(key_code: i32, pressed: bool) -> (r: Option<KeyEvent>)
    ensures
        match r {
            Some(event) => event.wf() && KEYPAD@[event.key as int] == key_code && event.pressed
                == pressed,
            None => forall|k: int| 0 <= k < 16 ==> KEYPAD@[k] != key_code,
        },
{
    match key_code {
        0x31 => Some(KeyEvent { key: 0x1u8, pressed }),
        0x32 => Some(KeyEvent { key: 0x2u8, pressed }),
        0x33 => Some(KeyEvent { key: 0x3u8, pressed }),
        0x34 => Some(KeyEvent { key: 0xCu8, pressed }),
        0x71 => Some(KeyEvent { key: 0x4u8, pressed }),
        0x77 => Some(KeyEvent { key: 0x5u8, pressed }),
        0x65 => Some(KeyEvent { key: 0x6u8, pressed }),
        0x72 => Some(KeyEvent { key: 0xDu8, pressed }),
        0x61 => Some(KeyEvent { key: 0x7u8, pressed }),
        0x73 => Some(KeyEvent { key: 0x8u8, pressed }),
        0x64 => Some(KeyEvent { key: 0x9u8, pressed }),
        0x66 => Some(KeyEvent { key: 0xEu8, pressed }),
        0x7A => Some(KeyEvent { key: 0xAu8, pressed }),
        0x78 => Some(KeyEvent { key: 0x0u8, pressed }),
        0x63 => Some(KeyEvent { key: 0xBu8, pressed }),
        0x76 => Some(KeyEvent { key: 0xFu8, pressed }),
        _ => None,
    }
}

} // verus!
