use vstd::prelude::*;

use super::{Key, KeyInput};

verus! {

/// The detector input of a kernel key event with key `code` and `value`
/// (1 pressed, 0 released, 2 auto-repeat).
pub open spec fn spec_map_event(code: Key, value: i32) -> Option<KeyInput> {
    let ctrl = code == Key::ControlLeft || code == Key::ControlRight;
    if ctrl && value == 1 {
        Some(KeyInput::ModifierDown)
    } else if ctrl && value == 0 {
        Some(KeyInput::ModifierUp)
    } else if code == Key::KeyC && value == 1 {
        Some(KeyInput::Copy)
    } else if value == 1 {
        Some(KeyInput::Other)
    } else {
        None
    }
}

/// Maps a kernel key event to a detector input; releases of other keys and
/// auto-repeats are ignored.
pub fn map_event(code: Key, value: i32) -> (r: Option<KeyInput>)
    ensures
        r == spec_map_event(code, value),
{
    let ctrl = match code {
        Key::ControlLeft | Key::ControlRight => true,
        _ => false,
    };
    if ctrl && value == 1 {
        Some(KeyInput::ModifierDown)
    } else if ctrl && value == 0 {
        Some(KeyInput::ModifierUp)
    } else if code == Key::KeyC && value == 1 {
        Some(KeyInput::Copy)
    } else if value == 1 {
        Some(KeyInput::Other)
    } else {
        None
    }
}

/// Either Control key pressed (1) is a modifier press and released (0) a
/// modifier release; its auto-repeat (2) is ignored. C pressed is a copy
/// press; any other key pressed is another key, released or repeated ignored.
pub proof fn law_kernel_key_events(code: Key, value: i32)
    ensures
        (code == Key::ControlLeft || code == Key::ControlRight) ==> {
            &&& spec_map_event(code, 1) == Some(KeyInput::ModifierDown)
            &&& spec_map_event(code, 0) == Some(KeyInput::ModifierUp)
            &&& spec_map_event(code, 2) is None
        },
        spec_map_event(Key::KeyC, 1) == Some(KeyInput::Copy),
        !(code == Key::ControlLeft || code == Key::ControlRight) && code != Key::KeyC ==> spec_map_event(code, 1) == Some(KeyInput::Other),
        !(code == Key::ControlLeft || code == Key::ControlRight) && value != 1 ==> spec_map_event(code, value) is None,
        value != 0 && value != 1 ==> spec_map_event(code, value) is None,
{
}

} // verus!
