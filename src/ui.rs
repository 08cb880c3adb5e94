//! Identifiers shared with the user interface.

use vstd::prelude::*;

verus! {

/// The entries of the tray menu.
#[derive(Clone, Copy, Debug, PartialEq, Eq, Structural)]
pub enum MenuId {
    /// Quit the program.
    Exit,
    /// Rescan and reload the working set.
    Reload,
    /// Open the directory of the log files.
    OpenLogDir,
    /// Open the settings.
    Settings,
}

/// The text that identifies a menu entry in menu events.
pub open spec fn menu_id_text(m: MenuId) -> Seq<char> {
    match m {
        MenuId::Exit => "exit"@,
        MenuId::Reload => "reload"@,
        MenuId::OpenLogDir => "open-log-dir"@,
        MenuId::Settings => "settings"@,
    }
}

impl MenuId {
    /// The identifying text of the entry.
    pub fn as_str(&self) -> (r: &'static str)
        ensures
            r@ == menu_id_text(*self),
    {
        match self {
            MenuId::Exit => "exit",
            MenuId::Reload => "reload",
            MenuId::OpenLogDir => "open-log-dir",
            MenuId::Settings => "settings",
        }
    }

    /// The entry that `text` identifies, if any.
    pub fn from_id(text: &str) -> (r: Option<MenuId>)
        ensures
            r matches Some(m) ==> menu_id_text(m) == text@,
            r is None ==> forall|m: MenuId| menu_id_text(m) != text@,
    {
        let t = String::from_str(text);
        if t == String::from_str("exit") {
            Some(MenuId::Exit)
        } else if t == String::from_str("reload") {
            Some(MenuId::Reload)
        } else if t == String::from_str("open-log-dir") {
            Some(MenuId::OpenLogDir)
        } else if t == String::from_str("settings") {
            Some(MenuId::Settings)
        } else {
            assert forall|m: MenuId| menu_id_text(m) != text@ by {
                match m {
                    MenuId::Exit => {},
                    MenuId::Reload => {},
                    MenuId::OpenLogDir => {},
                    MenuId::Settings => {},
                }
            }
            None
        }
    }
}

} // verus!
