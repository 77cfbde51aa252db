//! Cursor-focus state machine.
//!
//! The game captures the mouse while the player is focused on the window and
//! releases it again when focus is given up. The engine reports the two input
//! edges (left click, escape); this module decides the next focus state and
//! the cursor settings the window should be given.

use vstd::prelude::*;

verus! {

/// Whether the game currently holds the player's focus (and so has captured
/// the cursor).
#[derive(Clone, Copy, Debug, PartialEq, Eq, Structural)]
pub struct FocusStatus(pub bool);

impl Default for FocusStatus {
    /// A fresh game starts unfocused.
    fn default() -> (r: Self)
        ensures
            !r.0,
    {
        FocusStatus(false)
    }
}

/// The cursor settings a window should be put into: whether the cursor is
/// drawn, and whether it is locked to the window.
#[derive(Clone, Copy, Debug, PartialEq, Eq, Structural)]
pub struct CursorState {
    pub visible: bool,
    pub locked: bool,
}

/// Advance the focus state by one frame of input and return the cursor
/// settings to apply: a left click takes focus, escape gives it up (escape
/// wins when both arrive in the same frame), and the cursor is hidden and
/// locked exactly while focused.
pub fn handle_focus(
    focus_status: &mut FocusStatus,
    mouse_left_just_pressed: bool,
    escape_just_pressed: bool,
) -> (cursor: CursorState)
    ensures
        final(focus_status).0 == (if escape_just_pressed {
            false
        } else {
            mouse_left_just_pressed || old(focus_status).0
        }),
        cursor == (if final(focus_status).0 {
            CursorState { visible: false, locked: true }
        } else {
            CursorState { visible: true, locked: false }
        }),
{
    if mouse_left_just_pressed {
        focus_status.0 = true;
    }
    if escape_just_pressed {
        focus_status.0 = false;
    }

    match focus_status.0 {
        true => set_focus(),
        false => set_unfocus(),
    }
}

/// Cursor settings for a focused window: hidden cursor, locked in place.
fn set_focus() -> (cursor: CursorState)
    ensures
        cursor == (CursorState { visible: false, locked: true }),
{
    CursorState { visible: false, locked: true }
}

/// Cursor settings for an unfocused window: visible cursor, free to move.
fn set_unfocus() -> (cursor: CursorState)
    ensures
        cursor == (CursorState { visible: true, locked: false }),
{
    CursorState { visible: true, locked: false }
}

} // verus!
