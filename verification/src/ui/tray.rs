use vstd::prelude::*;

verus! {

/// The menu item that quits.
pub const ID_TRAY_QUIT: u32 = 1001;

/// The menu item that opens the hero editor.
pub const ID_TRAY_EDITOR: u32 = 1002;

/// The menu item that switches hero.
pub const ID_TRAY_CALIBRATE: u32 = 1003;

/// A command chosen from the tray menu.
#[derive(Debug, Clone, Copy, PartialEq, Eq, Structural)]
pub enum TrayCommand {
    Calibrate,
    OpenEditor,
    Quit,
}

/// The command of a menu item; none for an item without one (the
/// separator, or a dismissed menu).
pub fn command_for_menu_id(id: u32) -> (res: Option<TrayCommand>)
    ensures
        res == (if id == ID_TRAY_CALIBRATE {
            Option::Some(TrayCommand::Calibrate)
        } else if id == ID_TRAY_EDITOR {
            Option::Some(TrayCommand::OpenEditor)
        } else if id == ID_TRAY_QUIT {
            Option::Some(TrayCommand::Quit)
        } else {
            Option::None
        }),
{
    if id == ID_TRAY_CALIBRATE {
        Some(TrayCommand::Calibrate)
    } else if id == ID_TRAY_EDITOR {
        Some(TrayCommand::OpenEditor)
    } else if id == ID_TRAY_QUIT {
        Some(TrayCommand::Quit)
    } else {
        None
    }
}

} // verus!
