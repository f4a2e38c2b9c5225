use audio_orbit::output_device::{
    output_device_change_action, output_device_change_message, OutputDeviceChangeAction,
};

#[test]
fn ignores_unchanged_output_without_pending_change() {
    assert_eq!(
        output_device_change_action("Speakers", None, "Speakers", false),
        OutputDeviceChangeAction::Keep
    );
}

#[test]
fn clears_pending_change_when_output_returns_to_active_device() {
    assert_eq!(
        output_device_change_action("Speakers", Some("Headphones"), "Speakers", false),
        OutputDeviceChangeAction::ClearPending
    );
}

#[test]
fn does_not_repeat_action_for_same_detected_output() {
    assert_eq!(
        output_device_change_action("Speakers", Some("Headphones"), "Headphones", true),
        OutputDeviceChangeAction::Keep
    );
}

#[test]
fn notifies_when_auto_switch_is_disabled() {
    assert_eq!(
        output_device_change_action("Speakers", None, "Headphones", false),
        OutputDeviceChangeAction::Notify
    );
}

#[test]
fn refreshes_when_auto_switch_is_enabled() {
    assert_eq!(
        output_device_change_action("Speakers", None, "Headphones", true),
        OutputDeviceChangeAction::Refresh
    );
}

#[test]
fn change_message_names_the_device() {
    assert_eq!(
        output_device_change_message("Headphones"),
        "Output device changed to Headphones. Refresh output to continue on the new device."
    );
}
