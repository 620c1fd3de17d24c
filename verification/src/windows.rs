//! What the window manager does with window events.
use vstd::prelude::*;

use crate::stt::WindowEventKind;

verus! {

/// The reaction to an event of a known window.
#[derive(Debug, Clone, Copy, PartialEq, Eq, Structural)]
pub enum WindowReaction {
    Nothing,
    /// Hide the main window instead of closing it (the close is prevented
    /// once the window is hidden), and record that it is not visible.
    HideMain,
    /// Forget the destroyed window, announce it, and record that the main
    /// window is not visible.
    Forget,
}

/// The reaction to an event of a window that exists; `is_main` says whether
/// it is the main window.
pub fn window_reaction(event: &WindowEventKind, is_main: bool) -> (r: WindowReaction)
    ensures
        r == match event {
            WindowEventKind::CloseRequested => if is_main {
                WindowReaction::HideMain
            } else {
                WindowReaction::Nothing
            },
            WindowEventKind::Destroyed => WindowReaction::Forget,
            _ => WindowReaction::Nothing,
        },
{
    match event {
        WindowEventKind::CloseRequested => {
            if is_main {
                WindowReaction::HideMain
            } else {
                WindowReaction::Nothing
            }
        },
        WindowEventKind::Destroyed => WindowReaction::Forget,
        _ => WindowReaction::Nothing,
    }
}

} // verus!
