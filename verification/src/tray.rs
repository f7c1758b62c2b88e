//! The tray-icon interaction controller.
//!
//! A click on the tray icon reads the current settings object fresh and
//! dispatches one of a small set of window-visibility behaviors; nothing
//! is cached between clicks. The configured action comes from the
//! structured tray block; an absent block, unreadable settings, and any
//! unrecognized action value all fall back to opening the application.

use vstd::prelude::*;
use vstd::string::*;

use crate::settings::{AppSettings, SettingsModel};

verus! {

/// What a tray click does to the application windows. Showing a window
/// that does not exist is the host's silent no-op, as is hiding one.
#[derive(Clone, Copy, Debug, PartialEq, Eq, Structural)]
pub enum TrayDirective {
    /// Show and focus the primary window.
    ShowAndFocusMain,
    /// Show the popup window, creating it first when it does not exist.
    ShowOrCreatePopup,
    /// Hide the primary window.
    HideMain,
    /// Do nothing.
    NoOp,
}

/// The view of the settings a click reads: nothing when they could not be
/// loaded.
pub open spec fn settings_view(settings: Option<&AppSettings>) -> Option<SettingsModel> {
    match settings {
        Some(s) => Some(s@),
        None => None,
    }
}

/// The click action a settings read yields: the configured action of the
/// structured tray block, or `"open_app"` when the block is absent or the
/// settings could not be loaded.
pub open spec fn spec_click_action(settings: Option<SettingsModel>) -> Seq<char> {
    match settings {
        Some(m) => match m.system_tray {
            Some(t) => t.behavior.click_action,
            None => "open_app"@,
        },
        None => "open_app"@,
    }
}

/// The directive for one click: `"show_popup"` shows or creates the
/// popup; `"toggle_window"` hides a visible primary window and shows a
/// hidden one; `"none"` does nothing; `"open_app"` and every
/// unrecognized value show and focus the primary window.
pub open spec fn spec_dispatch(action: Seq<char>, main_visible: bool) -> TrayDirective {
    if action == "show_popup"@ {
        TrayDirective::ShowOrCreatePopup
    } else if action == "toggle_window"@ {
        if main_visible {
            TrayDirective::HideMain
        } else {
            TrayDirective::ShowAndFocusMain
        }
    } else if action == "none"@ {
        TrayDirective::NoOp
    } else {
        TrayDirective::ShowAndFocusMain
    }
}

/// The configured click action, read fresh from the settings of this
/// click; absent settings or an absent tray block yield `"open_app"`.
pub fn resolve_click_action(settings: Option<&AppSettings>) -> (action: String)
    ensures
        action@ == spec_click_action(settings_view(settings)),
{
    match settings {
        Some(s) => match &s.system_tray {
            Some(t) => t.behavior.click_action.clone(),
            None => String::from_str("open_app"),
        },
        None => String::from_str("open_app"),
    }
}

/// Decides what one tray click does, from the settings read for this
/// click and from whether the primary window is currently visible.
pub fn dispatch_click(settings: Option<&AppSettings>, main_visible: bool) -> (d: TrayDirective)
    ensures
        d == spec_dispatch(spec_click_action(settings_view(settings)), main_visible),
{
    let action = resolve_click_action(settings);
    if action == String::from_str("show_popup") {
        TrayDirective::ShowOrCreatePopup
    } else if action == String::from_str("toggle_window") {
        if main_visible {
            TrayDirective::HideMain
        } else {
            TrayDirective::ShowAndFocusMain
        }
    } else if action == String::from_str("none") {
        TrayDirective::NoOp
    } else {
        TrayDirective::ShowAndFocusMain
    }
}

/// With the click action `"toggle_window"`, a click hides a visible
/// primary window, and shows and focuses a hidden one.
pub proof fn lemma_toggle_window_click(settings: Option<SettingsModel>)
    requires
        spec_click_action(settings) == "toggle_window"@,
    ensures
        spec_dispatch(spec_click_action(settings), true) == TrayDirective::HideMain,
        spec_dispatch(spec_click_action(settings), false) == TrayDirective::ShowAndFocusMain,
{
    reveal_strlit("toggle_window");
    reveal_strlit("show_popup");
    assert("toggle_window"@.len() != "show_popup"@.len());
}

/// A settings object without the structured tray block dispatches exactly
/// as one configured with `"open_app"`: the primary window is shown and
/// focused, whether it was visible or not.
pub proof fn lemma_absent_tray_block_opens_app(m: SettingsModel, main_visible: bool)
    requires
        m.system_tray is None,
    ensures
        spec_click_action(Some(m)) == "open_app"@,
        spec_dispatch(spec_click_action(Some(m)), main_visible) == spec_dispatch(
            "open_app"@,
            main_visible,
        ),
        spec_dispatch(spec_click_action(Some(m)), main_visible)
            == TrayDirective::ShowAndFocusMain,
{
    reveal_strlit("open_app");
    reveal_strlit("show_popup");
    reveal_strlit("toggle_window");
    reveal_strlit("none");
    assert("open_app"@.len() != "show_popup"@.len());
    assert("open_app"@.len() != "toggle_window"@.len());
    assert("open_app"@.len() != "none"@.len());
}

} // verus!
