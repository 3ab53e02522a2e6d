//! The tray icon and its menu.

use vstd::prelude::*;

verus! {

/// What the application does with its main window.
#[derive(Clone, Copy, Debug, PartialEq, Eq, Structural)]
pub enum WindowAction {
    /// Show the window and give it the focus.
    ShowAndFocus,
    /// Hide the window.
    Hide,
    /// Quit the application.
    Quit,
    /// Nothing.
    Ignore,
}

/// The action of the tray-menu item with identifier `id`: `show`, `hide` and
/// `quit` do what they say; any other item does nothing.
pub fn menu_action(id: &str) -> (a: WindowAction)
    ensures
        id@ == "show"@ ==> a == WindowAction::ShowAndFocus,
        id@ == "hide"@ ==> a == WindowAction::Hide,
        id@ == "quit"@ ==> a == WindowAction::Quit,
        id@ != "show"@ && id@ != "hide"@ && id@ != "quit"@ ==> a == WindowAction::Ignore,
{
    proof {
        reveal_strlit("show");
        reveal_strlit("hide");
        reveal_strlit("quit");
        assert("show"@[0] != "hide"@[0] && "show"@[0] != "quit"@[0] && "hide"@[0] != "quit"@[0]);
    }
    let id = String::from_str(id);
    if id == String::from_str("show") {
        WindowAction::ShowAndFocus
    } else if id == String::from_str("hide") {
        WindowAction::Hide
    } else if id == String::from_str("quit") {
        WindowAction::Quit
    } else {
        WindowAction::Ignore
    }
}

/// A left click on the tray icon hides a visible window and shows a hidden
/// one (a window whose visibility cannot be read counts as hidden).
pub fn tray_click_action(visible: bool) -> (a: WindowAction)
    ensures
        visible ==> a == WindowAction::Hide,
        !visible ==> a == WindowAction::ShowAndFocus,
{
    if visible {
        WindowAction::Hide
    } else {
        WindowAction::ShowAndFocus
    }
}

} // verus!
