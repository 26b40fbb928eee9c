//! The shell's command-registration surface, defined as an interface
//! only: nothing in the core implements it yet.

use crate::commands::Command;
use crate::commands::Keystroke;
use std::sync::mpsc::Sender;
use vstd::prelude::*;

verus! {

/// A user-interface layer that can put commands in menus and bind
/// shortcuts to them.
pub trait UiManager {
    /// Registers a command under `menu_path` with `default_shortcut`; when
    /// the user invokes it, the shell sends `msg` on `channel`.
    fn register_command<T: 'static + Copy + Send + Sync>(
        description: &str,
        default_shortcut: Keystroke,
        menu_path: &str,
        channel: Sender<T>,
        msg: T,
    ) -> Command;
}

} // verus!
