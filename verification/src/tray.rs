//! The decisions of the tray menu and of closing the main window.
use vstd::prelude::*;

verus! {

/// The text of the tray's pause entry for a refresh interval: resume when
/// paused (interval 0), pause otherwise.
pub fn pause_label(interval_sec: u64) -> (r: &'static str)
    ensures
        interval_sec == 0 ==> r@ == "恢复自动刷新"@,
        interval_sec > 0 ==> r@ == "暂停自动刷新"@,
{
    if interval_sec == 0 {
        "恢复自动刷新"
    } else {
        "暂停自动刷新"
    }
}

/// What closing the main window does.
#[derive(Debug, Clone, Copy, PartialEq, Eq, Structural)]
pub enum CloseAction {
    /// The window closes.
    Close,
    /// The window hides in the tray; `show_hint` when the one-time notice
    /// about it has not been shown yet.
    HideToTray { show_hint: bool },
}

/// Closing the main window: with "close to tray" on it hides instead, and
/// the first time tells the user so.
pub fn close_action(minimize_to_tray: bool, tray_hint_shown: bool) -> (r: CloseAction)
    ensures
        !minimize_to_tray ==> r == CloseAction::Close,
        minimize_to_tray ==> r == (CloseAction::HideToTray { show_hint: !tray_hint_shown }),
{
    if minimize_to_tray {
        CloseAction::HideToTray { show_hint: !tray_hint_shown }
    } else {
        CloseAction::Close
    }
}

} // verus!
