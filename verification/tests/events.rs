use colink::runtime::events::{
    device_display_name, pairing_display_name, presence_log_line, relay_after_lan_failure,
};

#[test]
fn device_names_fall_back_to_reports_then_ids() {
    assert_eq!(
        device_display_name(Some("Desk".to_string()), Some("Laptop".to_string()), "d1".to_string()),
        "Desk"
    );
    assert_eq!(device_display_name(None, Some("Laptop".to_string()), "d1".to_string()), "Laptop");
    assert_eq!(device_display_name(None, None, "d1".to_string()), "d1");
}

#[test]
fn blank_pairing_names_show_the_device_id() {
    assert_eq!(pairing_display_name("  \t", "dev-7"), "dev-7");
    assert_eq!(pairing_display_name(" Phone ", "dev-7"), " Phone ");
}

#[test]
fn presence_lines_say_online_or_offline() {
    assert_eq!(presence_log_line("Desk", true), "Desk is online");
    assert_eq!(presence_log_line("Desk", false), "Desk is offline");
}

#[test]
fn failed_lan_sends_go_to_the_relay_only_while_connected() {
    assert_eq!(relay_after_lan_failure(true, vec![1, 2, 3]), vec![1, 2, 3]);
    assert!(relay_after_lan_failure(false, vec![1, 2, 3]).is_empty());
}
