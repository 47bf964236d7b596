use budbridge::config::{
    find_device_index, get_default_device_path, get_devices_path, get_logs_path,
    get_settings_path, parse_debug_setting, parse_saved_devices, render_debug_setting,
    render_saved_devices, SavedDevice,
};

#[test]
fn paths_join_under_the_config_folder() {
    assert_eq!(get_logs_path("cfg"), "cfg/logs");
    assert_eq!(get_devices_path("cfg"), "cfg/devices.txt");
    assert_eq!(get_default_device_path("cfg"), "cfg/default.txt");
    assert_eq!(get_settings_path("cfg"), "cfg/settings.txt");
}

#[test]
fn device_lines_parse_name_and_address() {
    let devices = parse_saved_devices("Phone|192.168.1.2\nTablet|10.0.0.3");
    assert_eq!(devices.len(), 2);
    assert_eq!(devices[0].name, "Phone");
    assert_eq!(devices[0].ip, "192.168.1.2");
    assert_eq!(devices[1].name, "Tablet");
    assert_eq!(devices[1].ip, "10.0.0.3");
}

#[test]
fn trailing_newline_and_crlf_are_tolerated() {
    let devices = parse_saved_devices("A|1.1.1.1\r\nB|2.2.2.2\n");
    assert_eq!(devices.len(), 2);
    assert_eq!(devices[0].name, "A");
    assert_eq!(devices[0].ip, "1.1.1.1");
    assert_eq!(devices[1].ip, "2.2.2.2");
}

#[test]
fn lines_without_a_separator_are_skipped() {
    let devices = parse_saved_devices("junk\nA|1.1.1.1\n\nmore junk");
    assert_eq!(devices.len(), 1);
    assert_eq!(devices[0].name, "A");
}

#[test]
fn name_stops_at_the_first_separator() {
    let devices = parse_saved_devices("A|with|bars");
    assert_eq!(devices.len(), 1);
    assert_eq!(devices[0].name, "A");
    assert_eq!(devices[0].ip, "with|bars");
}

#[test]
fn empty_text_holds_no_devices() {
    assert!(parse_saved_devices("").is_empty());
}

#[test]
fn rendering_and_parsing_are_inverse_on_the_device_file() {
    let text = "Phone|192.168.1.2\nTablet|10.0.0.3";
    let devices = parse_saved_devices(text);
    assert_eq!(render_saved_devices(&devices), text);
    let reparsed = parse_saved_devices(&render_saved_devices(&devices));
    assert_eq!(reparsed.len(), devices.len());
    for (a, b) in reparsed.iter().zip(devices.iter()) {
        assert_eq!(a.name, b.name);
        assert_eq!(a.ip, b.ip);
    }
}

#[test]
fn device_lookup_finds_the_first_match() {
    let devices: Vec<SavedDevice> = vec![
        SavedDevice { name: "A".to_string(), ip: "1.1.1.1".to_string() },
        SavedDevice { name: "B".to_string(), ip: "2.2.2.2".to_string() },
        SavedDevice { name: "B".to_string(), ip: "3.3.3.3".to_string() },
    ];
    assert_eq!(find_device_index(&devices, &"B".to_string()), Some(1));
    assert_eq!(find_device_index(&devices, &"C".to_string()), None);
}

#[test]
fn debug_setting_round_trips() {
    assert!(parse_debug_setting(&"debug=true".to_string()));
    assert!(!parse_debug_setting(&"debug=false".to_string()));
    assert!(!parse_debug_setting(&"".to_string()));
    assert!(!parse_debug_setting(&"debug=TRUE".to_string()));
    assert_eq!(render_debug_setting(true), "debug=true");
    assert_eq!(render_debug_setting(false), "debug=false");
    assert!(parse_debug_setting(&render_debug_setting(true)));
    assert!(!parse_debug_setting(&render_debug_setting(false)));
}
