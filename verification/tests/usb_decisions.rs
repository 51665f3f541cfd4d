use v1060p_driver::settings::config_reload_needed;
use v1060p_driver::usb::{
    action_for_read, full_mode_reports, is_target_device, select_endpoint, select_hid_interfaces, EndpointInfo, LoopAction,
    ReadOutcome, PID, VID,
};

fn ep(address: u8, is_interrupt: bool, max_packet_size: u16) -> EndpointInfo {
    EndpointInfo { address, is_interrupt, max_packet_size }
}

#[test]
fn endpoint_selection_takes_last_interrupt_endpoint_of_64_bytes() {
    let eps = vec![ep(0x81, true, 64), ep(0x82, false, 64), ep(0x83, true, 64), ep(0x84, true, 8)];
    assert_eq!(select_endpoint(None, &eps), Some(0x83));
    assert_eq!(select_endpoint(Some(0x01), &vec![ep(0x82, true, 16)]), Some(0x01));
    assert_eq!(select_endpoint(None, &vec![]), None);
    assert_eq!(select_endpoint(Some(0x81), &vec![ep(0x85, true, 64)]), Some(0x85));
}

#[test]
fn target_device_matches_both_ids() {
    assert!(is_target_device(VID, PID, Some((0x08f2, 0x6811))));
    assert!(!is_target_device(VID, PID, Some((0x08f2, 0x6812))));
    assert!(!is_target_device(VID, PID, Some((0x08f3, 0x6811))));
    assert!(!is_target_device(VID, PID, None));
}

#[test]
fn full_mode_report_bytes() {
    assert_eq!(full_mode_reports(), vec![vec![0x08, 0x03, 0x00, 0xff, 0xf0, 0x00, 0xff, 0xf0]]);
}

#[test]
fn read_outcomes() {
    assert_eq!(action_for_read(ReadOutcome::Received(64)), LoopAction::DispatchReport);
    assert_eq!(action_for_read(ReadOutcome::Received(0)), LoopAction::ReadAgain);
    assert_eq!(action_for_read(ReadOutcome::TimedOut), LoopAction::ReadAgain);
    assert_eq!(action_for_read(ReadOutcome::Failed), LoopAction::Reconnect);
}

#[test]
fn hid_interfaces_are_selected_in_order() {
    assert_eq!(select_hid_interfaces(&vec![3, 8, 3, 1]), vec![0, 2]);
    assert_eq!(select_hid_interfaces(&vec![8, 9]), Vec::<usize>::new());
    assert_eq!(select_hid_interfaces(&vec![]), Vec::<usize>::new());
}

#[test]
fn settings_reload_decision() {
    assert!(config_reload_needed(None, 5));
    assert!(config_reload_needed(None, -5));
    assert!(config_reload_needed(Some(10), 11));
    assert!(!config_reload_needed(Some(10), 10));
    assert!(!config_reload_needed(Some(10), 9));
}
