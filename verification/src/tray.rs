use vstd::prelude::*;

verus! {

/// The mode of the shell's tray menu: it offers to hide the main window
/// while it is shown, and to open it while it is hidden.
#[derive(Debug, PartialEq, Eq, Structural)]
pub enum MenuMode {
    Hide,
    Open,
}

impl MenuMode {
    /// The identifier of the menu item this mode shows.
    pub fn menu_id(&self) -> (r: String)
        ensures
            r@ == match self {
                MenuMode::Hide => "hide"@,
                MenuMode::Open => "open"@,
            },
    {
        match self {
            MenuMode::Hide => String::from_str("hide"),
            MenuMode::Open => String::from_str("open"),
        }
    }

    /// The label of the menu item this mode shows.
    pub fn menu_label(&self) -> (r: String)
        ensures
            r@ == match self {
                MenuMode::Hide => "Hide"@,
                MenuMode::Open => "Open"@,
            },
    {
        match self {
            MenuMode::Hide => String::from_str("Hide"),
            MenuMode::Open => String::from_str("Open"),
        }
    }

    /// The mode the menu shows after the window's visibility flips: a
    /// visible window offers to hide, a hidden one to open.
    pub fn for_visibility(visible: bool) -> (r: Self)
        ensures
            r == (if visible {
                MenuMode::Hide
            } else {
                MenuMode::Open
            }),
    {
        if visible {
            MenuMode::Hide
        } else {
            MenuMode::Open
        }
    }
}

} // verus!
