//! User-facing configuration: window layout and keybindings. The files are
//! read and written by the surrounding shell; this module owns the values
//! and the load-defaults rule (a missing file yields the defaults).

use vstd::prelude::*;
use vstd::string::StringExecFns;

verus! {

/// Which side of the window the sidebar docks to.
#[derive(Debug, Clone, Copy, PartialEq, Eq, Structural)]
pub enum SidebarPosition {
    Left,
    Right,
}

impl Default for SidebarPosition {
    fn default() -> (r: Self)
        ensures
            r == SidebarPosition::Left,
    {
        SidebarPosition::Left
    }
}

/// The persisted window layout.
#[derive(Debug, Clone)]
pub struct Layout {
    pub sidebar_position: Option<SidebarPosition>,
}

impl Default for Layout {
    fn default() -> (r: Self)
        ensures
            r.sidebar_position == Some(SidebarPosition::Left),
    {
        Layout { sidebar_position: Some(SidebarPosition::Left) }
    }
}

/// The persisted keybindings.
#[derive(Debug, Clone)]
pub struct Keybindings {
    pub toggle_sidebar: String,
    pub select_all: String,
}

impl Default for Keybindings {
    fn default() -> (r: Self)
        ensures
            r.toggle_sidebar@ == "Mod-b"@,
            r.select_all@ == "Mod-a"@,
    {
        Keybindings {
            toggle_sidebar: String::from_str("Mod-b"),
            select_all: String::from_str("Mod-a"),
        }
    }
}

/// The persisted user settings.
#[derive(Debug, Clone)]
pub struct Settings {
    pub keybindings: Keybindings,
}

impl Default for Settings {
    fn default() -> (r: Self)
        ensures
            r.keybindings.toggle_sidebar@ == "Mod-b"@,
            r.keybindings.select_all@ == "Mod-a"@,
    {
        Settings { keybindings: Keybindings::default() }
    }
}

/// The layout to use given what the layout file held: the stored value, or
/// the default when there is no file.
pub fn layout_or_default(loaded: Option<Layout>) -> (r: Layout)
    ensures
        loaded is Some ==> r == loaded->Some_0,
        loaded is None ==> r.sidebar_position == Some(SidebarPosition::Left),
{
    match loaded {
        Some(l) => l,
        None => Layout::default(),
    }
}

/// The settings to use given what the settings file held: the stored value,
/// or the defaults when there is no file.
pub fn settings_or_default(loaded: Option<Settings>) -> (r: Settings)
    ensures
        loaded is Some ==> r == loaded->Some_0,
        loaded is None ==> r.keybindings.toggle_sidebar@ == "Mod-b"@ && r.keybindings.select_all@
            == "Mod-a"@,
{
    match loaded {
        Some(s) => s,
        None => Settings::default(),
    }
}

} // verus!
