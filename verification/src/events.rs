//! What the viewer does with keyboard and mouse input.
use vstd::prelude::*;

verus! {

/// What a turn of the mouse wheel does.
#[derive(Debug, Clone, Copy, PartialEq, Eq, Structural)]
pub enum WheelAction {
    /// Turn the page (Ctrl and Shift held).
    Rotate,
    /// Zoom in or out (Ctrl held).
    Zoom,
    /// Change the font size (Shift held).
    Scale,
    /// Scroll the page (no modifier).
    Scroll,
}

/// A pressed key, as far as the viewer tells keys apart.
#[derive(Debug, Clone, Copy, PartialEq, Eq, Structural)]
pub enum Key {
    Escape,
    Back,
    LControl,
    RControl,
    Other,
}

/// What a key press does.
#[derive(Debug, Clone, Copy, PartialEq, Eq, Structural)]
pub enum KeyAction {
    /// Close the viewer.
    Quit,
    /// Delete the last typed character.
    DeleteChar,
    /// Note that Control is held.
    ControlDown,
    /// Nothing.
    Ignore,
}

/// What a wheel turn does with the given modifiers held.
pub fn wheel_action(ctrl: bool, shift: bool) -> (a: WheelAction)
    ensures
        a == (if ctrl && shift {
            WheelAction::Rotate
        } else if ctrl {
            WheelAction::Zoom
        } else if shift {
            WheelAction::Scale
        } else {
            WheelAction::Scroll
        }),
{
    if ctrl && shift {
        WheelAction::Rotate
    } else if ctrl && !shift {
        WheelAction::Zoom
    } else if shift {
        WheelAction::Scale
    } else {
        WheelAction::Scroll
    }
}

/// What pressing `key` does: Escape quits, Backspace deletes, either
/// Control key is noted as held, any other key does nothing.
pub fn key_press_action(key: Key) -> (a: KeyAction)
    ensures
        a == (match key {
            Key::Escape => KeyAction::Quit,
            Key::Back => KeyAction::DeleteChar,
            Key::LControl => KeyAction::ControlDown,
            Key::RControl => KeyAction::ControlDown,
            Key::Other => KeyAction::Ignore,
        }),
{
    match key {
        Key::Escape => KeyAction::Quit,
        Key::Back => KeyAction::DeleteChar,
        Key::LControl | Key::RControl => KeyAction::ControlDown,
        Key::Other => KeyAction::Ignore,
    }
}

/// Whether a typed character goes into the text: everything but DEL and
/// backspace.
pub fn accepts_typed_char(c: char) -> (r: bool)
    ensures
        r == (c != '\u{7f}' && c != '\u{8}'),
{
    c != '\u{7f}' && c != '\u{8}'
}

} // verus!
