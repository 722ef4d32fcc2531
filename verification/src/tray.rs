//! The decisions of the system tray: what a menu item or a click on the icon
//! does. Building the tray and acting on the window belong to the program's
//! runtime.
use vstd::prelude::*;

verus! {

/// The tray icon's id.
pub const TRAY_ID: &'static str = "main-tray";

/// The menu item that shows the window.
pub const MENU_SHOW_WINDOW: &'static str = "show_window";

/// The menu item that hides the window.
pub const MENU_HIDE_WINDOW: &'static str = "hide_window";

/// The menu item that quits.
pub const MENU_QUIT: &'static str = "quit";

/// The log target of the warning written when the tray quits without the
/// shutdown sequence.
pub const TRAY_QUIT_LOG_TARGET: &'static str = "lifecycle";

/// The `path` field of that warning.
pub const TRAY_QUIT_LOG_PATH: &'static str = "tray-p0-bypass";

/// What the tray asks of the window or the process.
#[derive(Clone, Copy, Debug, PartialEq, Eq, Structural)]
pub enum TrayAction {
    /// Show the window, focus it and announce it.
    ShowWindow,
    /// Hide the window; the program keeps running.
    HideWindow,
    /// Log the fast-path warning and exit at once, skipping the leave
    /// broadcast and the log flush.
    QuitNow,
    /// Nothing (an unknown menu item).
    Ignore,
}

/// The action of a menu item.
pub open spec fn menu_action_spec(id: Seq<char>) -> TrayAction {
    if id == "show_window"@ {
        TrayAction::ShowWindow
    } else if id == "hide_window"@ {
        TrayAction::HideWindow
    } else if id == "quit"@ {
        TrayAction::QuitNow
    } else {
        TrayAction::Ignore
    }
}

/// Whether two strings hold the same chars.
fn same_text(a: &str, b: &str) -> (r: bool)
    ensures
        r == (a@ == b@),
{
    let x = a.to_owned();
    let y = b.to_owned();
    x == y
}

/// What choosing a tray menu item does.
pub fn tray_menu_action(id: &str) -> (r: TrayAction)
    ensures
        r == menu_action_spec(id@),
{
    if same_text(id, MENU_SHOW_WINDOW) {
        TrayAction::ShowWindow
    } else if same_text(id, MENU_HIDE_WINDOW) {
        TrayAction::HideWindow
    } else if same_text(id, MENU_QUIT) {
        TrayAction::QuitNow
    } else {
        TrayAction::Ignore
    }
}

/// What a click on the tray icon does: a released left click toggles the
/// window (hides it if it is visible, shows it otherwise); anything else, or
/// a missing window, does nothing. `window_visible` is `None` when there is
/// no window, and `Some(false)` also when its visibility cannot be read.
pub fn tray_click_action(left_button_released: bool, window_visible: Option<bool>) -> (r: TrayAction)
    ensures
        !left_button_released ==> r == TrayAction::Ignore,
        window_visible is None ==> r == TrayAction::Ignore,
        left_button_released && window_visible == Some(true) ==> r == TrayAction::HideWindow,
        left_button_released && window_visible == Some(false) ==> r == TrayAction::ShowWindow,
{
    if !left_button_released {
        return TrayAction::Ignore;
    }
    match window_visible {
        None => TrayAction::Ignore,
        Some(true) => TrayAction::HideWindow,
        Some(false) => TrayAction::ShowWindow,
    }
}

} // verus!
