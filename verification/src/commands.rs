//! Which browser command a notification from a native control stands for.
use vstd::prelude::*;

verus! {

/// Control identifier of the sidebar toggle button.
pub const ID_SIDEBAR_TOGGLE: usize = 100;
/// Control identifier of the back button.
pub const ID_BACK: usize = 101;
/// Control identifier of the forward button.
pub const ID_FORWARD: usize = 102;
/// Control identifier of the reload button.
pub const ID_RELOAD: usize = 103;
/// Control identifier of the stop button.
pub const ID_STOP: usize = 104;
/// Control identifier of the omnibox edit control.
pub const ID_OMNIBOX: usize = 105;
/// Control identifier of the Shields button.
pub const ID_SHIELDS: usize = 106;
/// Control identifier of the tab list box.
pub const ID_TAB_LIST: usize = 107;
/// Control identifier of the new-tab button.
pub const ID_NEW_TAB: usize = 108;
/// Control identifier of the close-tab button.
pub const ID_CLOSE_TAB: usize = 109;

/// The Win32 notification code of a clicked button (`BN_CLICKED`).
pub const BUTTON_CLICKED: usize = 0;
/// The Win32 notification code of a changed list-box selection (`LBN_SELCHANGE`).
pub const LIST_SELECTION_CHANGED: usize = 1;

/// Private window message: a tab's Shields count changed (`WM_APP + 1`).
pub const WM_APP_SHIELDS: u32 = 0x8000 + 1;
/// Private window message: open a new tab (`WM_APP + 2`).
pub const WM_APP_NEW_TAB: u32 = 0x8000 + 2;

/// A browser command issued from the window's controls.
#[derive(Clone, Copy, Debug, PartialEq, Eq, Structural)]
pub enum CommandAction {
    ToggleSidebar,
    Back,
    Forward,
    Reload,
    Stop,
    SubmitOmnibox,
    ToggleShields,
    NewTab,
    CloseTab,
    SelectTab,
}

/// The command a `WM_COMMAND` from control `id` with notification code `notification` and
/// control handle `lparam` stands for. Buttons act only when clicked and the tab list only
/// when its selection changes; the omnibox acts only on the synthetic submit message that
/// carries notification 0 and no handle, never on its own edit notifications.
pub open spec fn command_of(id: usize, notification: usize, lparam: isize) -> Option<CommandAction> {
    let clicked = notification == BUTTON_CLICKED;
    if id == ID_SIDEBAR_TOGGLE && clicked {
        Some(CommandAction::ToggleSidebar)
    } else if id == ID_BACK && clicked {
        Some(CommandAction::Back)
    } else if id == ID_FORWARD && clicked {
        Some(CommandAction::Forward)
    } else if id == ID_RELOAD && clicked {
        Some(CommandAction::Reload)
    } else if id == ID_STOP && clicked {
        Some(CommandAction::Stop)
    } else if id == ID_OMNIBOX && notification == 0 && lparam == 0 {
        Some(CommandAction::SubmitOmnibox)
    } else if id == ID_SHIELDS && clicked {
        Some(CommandAction::ToggleShields)
    } else if id == ID_NEW_TAB && clicked {
        Some(CommandAction::NewTab)
    } else if id == ID_CLOSE_TAB && clicked {
        Some(CommandAction::CloseTab)
    } else if id == ID_TAB_LIST && notification == LIST_SELECTION_CHANGED {
        Some(CommandAction::SelectTab)
    } else {
        None
    }
}

/// Classifies a `WM_COMMAND` notification (see `command_of`).
pub fn classify_command(id: usize, notification: usize, lparam: isize) -> (r: Option<CommandAction>)
    ensures
        r == command_of(id, notification, lparam),
{
    let clicked = notification == BUTTON_CLICKED;
    if id == ID_SIDEBAR_TOGGLE && clicked {
        Some(CommandAction::ToggleSidebar)
    } else if id == ID_BACK && clicked {
        Some(CommandAction::Back)
    } else if id == ID_FORWARD && clicked {
        Some(CommandAction::Forward)
    } else if id == ID_RELOAD && clicked {
        Some(CommandAction::Reload)
    } else if id == ID_STOP && clicked {
        Some(CommandAction::Stop)
    } else if id == ID_OMNIBOX && notification == 0 && lparam == 0 {
        Some(CommandAction::SubmitOmnibox)
    } else if id == ID_SHIELDS && clicked {
        Some(CommandAction::ToggleShields)
    } else if id == ID_NEW_TAB && clicked {
        Some(CommandAction::NewTab)
    } else if id == ID_CLOSE_TAB && clicked {
        Some(CommandAction::CloseTab)
    } else if id == ID_TAB_LIST && notification == LIST_SELECTION_CHANGED {
        Some(CommandAction::SelectTab)
    } else {
        None
    }
}

/// The command carried by a `WM_COMMAND` message: the control identifier is the low word of
/// `wparam` and the notification code its high word.
pub fn command_from_message(wparam: usize, lparam: isize) -> (r: Option<CommandAction>)
    ensures
        r == command_of(wparam % 0x10000, (wparam / 0x10000) % 0x10000, lparam),
{
    let id = wparam & 0xffff;
    let notification = (wparam >> 16) & 0xffff;
    assert(id == wparam % 0x10000) by (bit_vector)
        requires
            id == wparam & 0xffff,
    ;
    assert(notification == (wparam / 0x10000) % 0x10000) by (bit_vector)
        requires
            notification == (wparam >> 16) & 0xffff,
    ;
    classify_command(id, notification, lparam)
}

/// An edit notification of the omnibox (any notification code other than 0, or any message
/// that carries the control's handle) never submits a navigation.
pub proof fn law_omnibox_notifications_never_submit(notification: usize, lparam: isize)
    requires
        notification != 0 || lparam != 0,
    ensures
        command_of(ID_OMNIBOX, notification, lparam) is None,
{
}

/// Buttons act only on clicks: every other notification from them is ignored.
pub proof fn law_buttons_act_only_when_clicked(id: usize, notification: usize, lparam: isize)
    requires
        id == ID_SIDEBAR_TOGGLE || id == ID_BACK || id == ID_FORWARD || id == ID_RELOAD || id
            == ID_STOP || id == ID_SHIELDS || id == ID_NEW_TAB || id == ID_CLOSE_TAB,
        notification != BUTTON_CLICKED,
    ensures
        command_of(id, notification, lparam) is None,
{
}

} // verus!
