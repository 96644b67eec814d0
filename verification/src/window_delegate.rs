//! Keyboard shortcuts of the main window.

use vstd::prelude::*;

verus! {

/// The modifier bit of the Control key.
pub const CONTROL_DOWN: u32 = 4;

/// The modifier bit of the Shift key.
pub const SHIFT_DOWN: u32 = 2;

/// What a key release asks for.
#[derive(Debug, Clone, Copy, PartialEq, Eq, Structural)]
pub enum KeyAction {
    /// Not a shortcut.
    Ignore,
    /// Ctrl+1 .. Ctrl+9: switch to the service at this index.
    SwitchTo(usize),
    /// Ctrl+R: reload the active service.
    Reload,
    /// Ctrl+Shift+R: reload bypassing the HTTP cache and the service worker.
    HardReload,
}

/// Shortcuts fire on key release with Control held: the digit keys `1`-`9`
/// (codes 0x31-0x39) select services 0-8, `R` (0x52) reloads, hard with Shift.
pub open spec fn spec_key_action(is_key_up: bool, modifiers: u32, key_code: i32) -> KeyAction {
    if !is_key_up || modifiers & CONTROL_DOWN == 0 {
        KeyAction::Ignore
    } else if 0x31 <= key_code <= 0x39 {
        KeyAction::SwitchTo((key_code - 0x31) as usize)
    } else if key_code == 0x52 {
        if modifiers & SHIFT_DOWN != 0 {
            KeyAction::HardReload
        } else {
            KeyAction::Reload
        }
    } else {
        KeyAction::Ignore
    }
}

/// The shortcut a key event stands for.
pub fn key_action(is_key_up: bool, modifiers: u32, key_code: i32) -> (r: KeyAction)
    ensures
        r == spec_key_action(is_key_up, modifiers, key_code),
{
    if !is_key_up {
        return KeyAction::Ignore;
    }
    let ctrl = modifiers & CONTROL_DOWN != 0;
    let shift = modifiers & SHIFT_DOWN != 0;
    if !ctrl {
        return KeyAction::Ignore;
    }
    if 0x31 <= key_code && key_code <= 0x39 {
        return KeyAction::SwitchTo((key_code - 0x31) as usize);
    }
    if key_code == 0x52 {
        if shift {
            return KeyAction::HardReload;
        } else {
            return KeyAction::Reload;
        }
    }
    KeyAction::Ignore
}

} // verus!
