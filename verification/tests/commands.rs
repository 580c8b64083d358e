use clearlane::commands::{
    classify_command, command_from_message, CommandAction, ID_BACK, ID_CLOSE_TAB, ID_NEW_TAB,
    ID_OMNIBOX, ID_RELOAD, ID_SHIELDS, ID_SIDEBAR_TOGGLE, ID_STOP, ID_TAB_LIST, ID_FORWARD,
};
use windows_sys::Win32::UI::WindowsAndMessaging::{BN_CLICKED, EN_CHANGE, EN_UPDATE, LBN_SELCHANGE};

#[test]
fn programmatic_omnibox_notifications_do_not_submit_navigation() {
    assert_eq!(classify_command(ID_OMNIBOX, EN_CHANGE as usize, 1), None);
    assert_eq!(classify_command(ID_OMNIBOX, EN_UPDATE as usize, 1), None);
    assert_eq!(
        classify_command(ID_OMNIBOX, 0, 0),
        Some(CommandAction::SubmitOmnibox)
    );
}

#[test]
fn controls_require_their_expected_notification_codes() {
    assert_eq!(
        classify_command(ID_BACK, BN_CLICKED as usize, 1),
        Some(CommandAction::Back)
    );
    assert_eq!(classify_command(ID_BACK, EN_CHANGE as usize, 1), None);
    assert_eq!(
        classify_command(ID_TAB_LIST, LBN_SELCHANGE as usize, 1),
        Some(CommandAction::SelectTab)
    );
}

#[test]
fn every_button_maps_to_its_command() {
    let clicked = BN_CLICKED as usize;
    assert_eq!(classify_command(ID_SIDEBAR_TOGGLE, clicked, 5), Some(CommandAction::ToggleSidebar));
    assert_eq!(classify_command(ID_FORWARD, clicked, 5), Some(CommandAction::Forward));
    assert_eq!(classify_command(ID_RELOAD, clicked, 5), Some(CommandAction::Reload));
    assert_eq!(classify_command(ID_STOP, clicked, 5), Some(CommandAction::Stop));
    assert_eq!(classify_command(ID_SHIELDS, clicked, 5), Some(CommandAction::ToggleShields));
    assert_eq!(classify_command(ID_NEW_TAB, clicked, 5), Some(CommandAction::NewTab));
    assert_eq!(classify_command(ID_CLOSE_TAB, clicked, 5), Some(CommandAction::CloseTab));
    assert_eq!(classify_command(999, clicked, 5), None);
    assert_eq!(classify_command(ID_OMNIBOX, 0, 7), None);
}

#[test]
fn message_words_are_split() {
    let wparam = ((LBN_SELCHANGE as usize) << 16) | ID_TAB_LIST;
    assert_eq!(command_from_message(wparam, 9), Some(CommandAction::SelectTab));
    assert_eq!(command_from_message(ID_OMNIBOX, 0), Some(CommandAction::SubmitOmnibox));
    assert_eq!(command_from_message(((EN_CHANGE as usize) << 16) | ID_OMNIBOX, 9), None);
}
