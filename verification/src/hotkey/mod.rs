use vstd::prelude::*;

pub mod evdev_backend;

use crate::text::{is_ws, lemma_trimmed_edges, trim, trimmed};

verus! {

/// Longest gap, in nanoseconds, between two copy presses that still counts
/// as a double press (400 ms).
pub const DOUBLE_PRESS_WINDOW_NS: u64 = 400_000_000;

/// Backend-independent keyboard input fed to the detector.
#[derive(Debug, Clone, Copy, PartialEq, Eq, Structural)]
pub enum KeyInput {
    ModifierDown,
    ModifierUp,
    Copy,
    Other,
}

/// The abstract state of a [`DoubleCopyDetector`]: whether the copy modifier
/// is held, and the time (monotonic nanoseconds) of a pending first copy.
pub struct DetectorState {
    pub modifier_down: bool,
    pub last_copy: Option<u64>,
}

/// Time elapsed from `earlier` to `now`; zero when `earlier` is later
/// (the saturating behaviour of a monotonic clock difference).
pub open spec fn elapsed(earlier: u64, now: u64) -> nat {
    if now >= earlier {
        (now - earlier) as nat
    } else {
        0
    }
}

/// A copy at `now` completes a double press when a first copy is pending and
/// lies no more than the window before it.
pub open spec fn completes_double_press(pending: Option<u64>, now: u64) -> bool {
    match pending {
        Some(prev) => elapsed(prev, now) <= DOUBLE_PRESS_WINDOW_NS,
        None => false,
    }
}

impl DetectorState {
    /// One transition of the detector: the next state and whether the input
    /// triggers a translation.
    pub open spec fn step(self, input: KeyInput, now: u64) -> (DetectorState, bool) {
        match input {
            KeyInput::ModifierDown => (DetectorState { modifier_down: true, last_copy: self.last_copy }, false),
            KeyInput::ModifierUp => (DetectorState { modifier_down: false, last_copy: self.last_copy }, false),
            KeyInput::Copy => if self.modifier_down {
                let triggered = completes_double_press(self.last_copy, now);
                (
                    DetectorState {
                        modifier_down: true,
                        last_copy: if triggered { None } else { Some(now) },
                    },
                    triggered,
                )
            } else {
                (DetectorState { modifier_down: false, last_copy: None }, false)
            },
            KeyInput::Other => (DetectorState { modifier_down: self.modifier_down, last_copy: None }, false),
        }
    }
}

/// Detects a double press of the copy shortcut.
/// Any other key pressed between the two copies resets the sequence.
pub struct DoubleCopyDetector {
    modifier_down: bool,
    last_copy: Option<u64>,
}

impl View for DoubleCopyDetector {
    type V = DetectorState;

    closed spec fn view(&self) -> DetectorState {
        DetectorState { modifier_down: self.modifier_down, last_copy: self.last_copy }
    }
}

impl DoubleCopyDetector {
    /// A detector with the modifier released and no copy pending.
    pub fn new() -> (d: Self)
        ensures
            d@ == (DetectorState { modifier_down: false, last_copy: None }),
    {
        DoubleCopyDetector { modifier_down: false, last_copy: None }
    }

    /// Feeds one input observed at `now` (monotonic nanoseconds).
    /// Returns `true` when a double copy is detected and a translation
    /// should be triggered.
    pub fn on_input(&mut self, input: KeyInput, now: u64) -> (triggered: bool)
        ensures
            (final(self)@, triggered) == old(self)@.step(input, now),
    {
        match input {
            KeyInput::ModifierDown => {
                self.modifier_down = true;
                false
            },
            KeyInput::ModifierUp => {
                self.modifier_down = false;
                false
            },
            KeyInput::Copy => {
                if self.modifier_down {
                    let triggered = match self.last_copy {
                        Some(prev) => {
                            let gap: u64 = if now >= prev { now - prev } else { 0 };
                            gap <= DOUBLE_PRESS_WINDOW_NS
                        },
                        None => false,
                    };
                    self.last_copy = if triggered { None } else { Some(now) };
                    triggered
                } else {
                    self.last_copy = None;
                    false
                }
            },
            KeyInput::Other => {
                self.last_copy = None;
                false
            },
        }
    }
}

/// A trigger happens only on a copy press while the modifier is held and a
/// first copy is pending no more than the window earlier.
pub proof fn law_trigger_needs_modifier_and_recent_copy(s: DetectorState, input: KeyInput, now: u64)
    ensures
        s.step(input, now).1 ==> {
            &&& input == KeyInput::Copy
            &&& s.modifier_down
            &&& completes_double_press(s.last_copy, now)
        },
{
}

/// With the modifier held, a copy that does not trigger followed by a second
/// copy within the window triggers.
pub proof fn law_second_copy_within_window_triggers(s: DetectorState, t0: u64, t1: u64)
    requires
        s.modifier_down,
        !s.step(KeyInput::Copy, t0).1,
        elapsed(t0, t1) <= DOUBLE_PRESS_WINDOW_NS,
    ensures
        s.step(KeyInput::Copy, t0).0.step(KeyInput::Copy, t1).1,
{
}

/// A second copy later than the window does not trigger; it becomes the first
/// copy of a new sequence.
pub proof fn law_slow_second_copy_restarts(s: DetectorState, t0: u64, t1: u64)
    requires
        s.modifier_down,
        elapsed(t0, t1) > DOUBLE_PRESS_WINDOW_NS,
    ensures
        !s.step(KeyInput::Copy, t0).0.step(KeyInput::Copy, t1).1,
        s.step(KeyInput::Copy, t0).0.step(KeyInput::Copy, t1).0 == (DetectorState {
            modifier_down: true,
            last_copy: Some(t1),
        }),
{
}

/// After a trigger the sequence is reset: the very next copy never triggers.
pub proof fn law_no_retrigger_after_trigger(s: DetectorState, t0: u64, t1: u64)
    requires
        s.step(KeyInput::Copy, t0).1,
    ensures
        !s.step(KeyInput::Copy, t0).0.step(KeyInput::Copy, t1).1,
{
}

/// Any other key, or a copy without the modifier, clears the pending copy, so
/// the next copy cannot trigger whenever it comes.
pub proof fn law_interruption_resets(s: DetectorState, input: KeyInput, t0: u64, t1: u64)
    requires
        input == KeyInput::Other || (input == KeyInput::Copy && !s.modifier_down),
    ensures
        s.step(input, t0).0.last_copy is None,
        !s.step(input, t0).0.step(KeyInput::Copy, t1).1,
{
}

/// Pressing or releasing the modifier never triggers and keeps a pending copy,
/// so releasing the modifier between two copies does not break a double press.
pub proof fn law_modifier_keeps_pending_copy(s: DetectorState, now: u64)
    ensures
        !s.step(KeyInput::ModifierDown, now).1,
        !s.step(KeyInput::ModifierUp, now).1,
        s.step(KeyInput::ModifierDown, now).0.last_copy == s.last_copy,
        s.step(KeyInput::ModifierUp, now).0.last_copy == s.last_copy,
{
}

/// Copied text longer than this (in characters) does not trigger a
/// translation, so that copying a large file by accident stays harmless.
pub const MAX_TEXT_LEN: usize = 5000;

/// The state of the keyboard listener, shown by the settings page.
#[derive(Debug, Clone)]
pub struct HotkeyStatus {
    pub backend: &'static str,
    pub ok: bool,
    pub message: Option<String>,
}

/// The state before any listener reports: the cross-platform listener,
/// working, with no message.
pub fn initial_status() -> (r: HotkeyStatus)
    ensures
        r.backend@ == "rdev"@,
        r.ok,
        r.message is None,
{
    HotkeyStatus { backend: "rdev", ok: true, message: None }
}

/// Records the state of the listener in `slot`.
pub fn set_status(slot: &mut HotkeyStatus, backend: &'static str, ok: bool, message: Option<String>)
    ensures
        *final(slot) == (HotkeyStatus { backend, ok, message }),
{
    *slot = HotkeyStatus { backend, ok, message };
}

/// A copy of the state recorded in `slot`.
pub fn status(slot: &HotkeyStatus) -> (r: HotkeyStatus)
    ensures
        r == *slot,
{
    let message = match &slot.message {
        Some(m) => Some(m.clone()),
        None => None,
    };
    HotkeyStatus { backend: slot.backend, ok: slot.ok, message }
}

/// The text a trigger translates: the clipboard text trimmed, unless that is
/// empty or longer than [`MAX_TEXT_LEN`] characters.
pub open spec fn text_to_translate(clipboard: Seq<char>) -> Option<Seq<char>> {
    let t = trimmed(clipboard);
    if t.len() == 0 || t.len() > MAX_TEXT_LEN {
        None
    } else {
        Some(t)
    }
}

/// Decides what a trigger translates, given the clipboard text.
pub fn trigger_text(clipboard: &str) -> (r: Option<String>)
    ensures
        match r {
            Some(t) => text_to_translate(clipboard@) == Some(t@),
            None => text_to_translate(clipboard@) is None,
        },
{
    let t = trim(clipboard);
    let n = t.as_str().unicode_len();
    if n == 0 || n > MAX_TEXT_LEN {
        None
    } else {
        Some(t)
    }
}

/// A key as the listeners report it.
#[derive(Debug, Clone, Copy, PartialEq, Eq, Structural)]
pub enum Key {
    ControlLeft,
    ControlRight,
    MetaLeft,
    MetaRight,
    KeyC,
    Other,
}

/// A keyboard event of the cross-platform listener.
#[derive(Debug, Clone, Copy, PartialEq, Eq, Structural)]
pub enum KeyEvent {
    KeyPress(Key),
    KeyRelease(Key),
    /// Mouse and other non-keyboard events.
    NotKey,
}

/// The modifier of the copy shortcut: Command on macOS, Control elsewhere.
pub open spec fn spec_is_copy_modifier(key: Key, macos: bool) -> bool {
    if macos {
        key == Key::MetaLeft || key == Key::MetaRight
    } else {
        key == Key::ControlLeft || key == Key::ControlRight
    }
}

/// Whether `key` is the modifier of the copy shortcut on this platform.
pub fn is_copy_modifier(key: Key, macos: bool) -> (r: bool)
    ensures
        r == spec_is_copy_modifier(key, macos),
{
    if macos {
        match key {
            Key::MetaLeft | Key::MetaRight => true,
            _ => false,
        }
    } else {
        match key {
            Key::ControlLeft | Key::ControlRight => true,
            _ => false,
        }
    }
}

/// The detector input of a listener event, if it is one.
pub open spec fn spec_map_rdev(event: KeyEvent, macos: bool) -> Option<KeyInput> {
    match event {
        KeyEvent::KeyPress(k) => if spec_is_copy_modifier(k, macos) {
            Some(KeyInput::ModifierDown)
        } else if k == Key::KeyC {
            Some(KeyInput::Copy)
        } else {
            Some(KeyInput::Other)
        },
        KeyEvent::KeyRelease(k) => if spec_is_copy_modifier(k, macos) {
            Some(KeyInput::ModifierUp)
        } else {
            None
        },
        KeyEvent::NotKey => None,
    }
}

/// Maps a listener event to a detector input: modifier presses and releases,
/// the C key, and any other key press; other events are ignored.
pub fn map_rdev(event: &KeyEvent, macos: bool) -> (r: Option<KeyInput>)
    ensures
        r == spec_map_rdev(*event, macos),
{
    match event {
        KeyEvent::KeyPress(k) => if is_copy_modifier(*k, macos) {
            Some(KeyInput::ModifierDown)
        } else {
            match k {
                Key::KeyC => Some(KeyInput::Copy),
                _ => Some(KeyInput::Other),
            }
        },
        KeyEvent::KeyRelease(k) => if is_copy_modifier(*k, macos) {
            Some(KeyInput::ModifierUp)
        } else {
            None
        },
        KeyEvent::NotKey => None,
    }
}

/// What a trigger translates is never empty, has at most [`MAX_TEXT_LEN`]
/// characters, and neither starts nor ends with whitespace.
pub proof fn law_trigger_text_bounds(clipboard: Seq<char>)
    ensures
        text_to_translate(clipboard) matches Some(t) ==> {
            &&& 0 < t.len() <= MAX_TEXT_LEN
            &&& !is_ws(t[0])
            &&& !is_ws(t.last())
        },
{
    lemma_trimmed_edges(clipboard);
}

/// Only the modifier's own press and release change whether it is held:
/// another key clears a pending copy but leaves the modifier as it was, so
/// with Control held, Ctrl+A followed by two quick Ctrl+C still triggers.
pub proof fn law_other_key_keeps_modifier(s: DetectorState, t0: u64, t1: u64, t2: u64)
    ensures
        s.step(KeyInput::Other, t0).0.modifier_down == s.modifier_down,
        s.step(KeyInput::Other, t0).0.last_copy is None,
        !s.step(KeyInput::Other, t0).1,
        s.step(KeyInput::Copy, t0).0.modifier_down == s.modifier_down,
        s.modifier_down && elapsed(t1, t2) <= DOUBLE_PRESS_WINDOW_NS ==> {
            let a = s.step(KeyInput::Other, t0).0;
            let b = a.step(KeyInput::Copy, t1);
            &&& !b.1
            &&& b.0.step(KeyInput::Copy, t2).1
        },
{
}

/// A press of C is a copy press on every platform; only which key is the
/// copy modifier depends on the platform.
pub proof fn law_c_press_is_copy(macos: bool)
    ensures
        spec_map_rdev(KeyEvent::KeyPress(Key::KeyC), macos) == Some(KeyInput::Copy),
        spec_map_rdev(KeyEvent::KeyRelease(Key::KeyC), macos) is None,
{
}

/// The platform's modifier keys map to modifier down and up; Control on
/// macOS and Command elsewhere are ordinary keys whose release is ignored.
pub proof fn law_modifier_events(macos: bool)
    ensures
        macos ==> {
            &&& spec_map_rdev(KeyEvent::KeyPress(Key::MetaLeft), macos) == Some(KeyInput::ModifierDown)
            &&& spec_map_rdev(KeyEvent::KeyPress(Key::MetaRight), macos) == Some(KeyInput::ModifierDown)
            &&& spec_map_rdev(KeyEvent::KeyRelease(Key::MetaLeft), macos) == Some(KeyInput::ModifierUp)
            &&& spec_map_rdev(KeyEvent::KeyRelease(Key::MetaRight), macos) == Some(KeyInput::ModifierUp)
            &&& spec_map_rdev(KeyEvent::KeyPress(Key::ControlLeft), macos) == Some(KeyInput::Other)
            &&& spec_map_rdev(KeyEvent::KeyRelease(Key::ControlLeft), macos) is None
        },
        !macos ==> {
            &&& spec_map_rdev(KeyEvent::KeyPress(Key::ControlLeft), macos) == Some(KeyInput::ModifierDown)
            &&& spec_map_rdev(KeyEvent::KeyPress(Key::ControlRight), macos) == Some(KeyInput::ModifierDown)
            &&& spec_map_rdev(KeyEvent::KeyRelease(Key::ControlLeft), macos) == Some(KeyInput::ModifierUp)
            &&& spec_map_rdev(KeyEvent::KeyRelease(Key::ControlRight), macos) == Some(KeyInput::ModifierUp)
            &&& spec_map_rdev(KeyEvent::KeyPress(Key::MetaLeft), macos) == Some(KeyInput::Other)
            &&& spec_map_rdev(KeyEvent::KeyRelease(Key::MetaLeft), macos) is None
        },
        spec_map_rdev(KeyEvent::KeyPress(Key::Other), macos) == Some(KeyInput::Other),
        spec_map_rdev(KeyEvent::KeyRelease(Key::Other), macos) is None,
        spec_map_rdev(KeyEvent::NotKey, macos) is None,
{
}

/// Whenever the trimmed clipboard text is non-empty and within the length
/// limit, it is exactly what the trigger translates, whatever characters
/// (line breaks included) it holds; otherwise nothing is translated.
pub proof fn law_trigger_translates_trimmed_text(clipboard: Seq<char>)
    ensures
        0 < trimmed(clipboard).len() <= MAX_TEXT_LEN ==> text_to_translate(clipboard) == Some(
            trimmed(clipboard),
        ),
        (trimmed(clipboard).len() == 0 || trimmed(clipboard).len() > MAX_TEXT_LEN)
            ==> text_to_translate(clipboard) is None,
{
}

/// With the modifier held, a copy that does not trigger becomes the pending
/// first copy, stamped with its own time, and the modifier stays held.
pub proof fn law_held_copy_becomes_pending(s: DetectorState, now: u64)
    ensures
        s.modifier_down && !s.step(KeyInput::Copy, now).1 ==> s.step(KeyInput::Copy, now).0
            == (DetectorState { modifier_down: true, last_copy: Some(now) }),
        s.modifier_down && s.last_copy is None ==> !s.step(KeyInput::Copy, now).1,
{
}

} // verus!
