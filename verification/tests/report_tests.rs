use port_finder::port::PortInfo;
use port_finder::report::{
    check_json_payload, check_message, exit_code_for_check, exit_code_for_find, find_json_payload,
    not_in_use_message, port_info_json, EXIT_CHECK_IN_USE, EXIT_ERROR, EXIT_FIND_NOT_FOUND, EXIT_OK,
};

fn sample_info() -> PortInfo {
    PortInfo {
        port: 3000,
        protocol: "TCP".to_string(),
        state: "Listen".to_string(),
        pid: Some(1234),
        process_name: "node".to_string(),
        local_addr: "127.0.0.1:3000".to_string(),
        duration_secs: 65,
        cpu_usage_bits: 3.4f32.to_bits(),
        memory: 1024 * 1024,
        user: "dev".to_string(),
        command: "node server.js".to_string(),
        parent_pid: Some(1),
    }
}

#[test]
fn exit_code_mappings_are_stable() {
    assert_eq!(exit_code_for_find(true), EXIT_OK);
    assert_eq!(exit_code_for_find(false), EXIT_FIND_NOT_FOUND);
    assert_eq!(exit_code_for_check(true), EXIT_OK);
    assert_eq!(exit_code_for_check(false), EXIT_CHECK_IN_USE);
}

#[test]
fn find_json_payload_not_found_shape_is_stable() {
    let payload = find_json_payload(3000, None);
    assert_eq!(payload.port, 3000);
    assert_eq!(payload.in_use, false);
    assert!(payload.entry.is_none());
}

#[test]
fn check_json_payload_has_consistent_in_use_flag() {
    let available_payload = check_json_payload(8080, true);
    assert_eq!(available_payload.available, true);
    assert_eq!(available_payload.in_use, false);

    let in_use_payload = check_json_payload(8080, false);
    assert_eq!(in_use_payload.available, false);
    assert_eq!(in_use_payload.in_use, true);
}

#[test]
fn port_info_json_contains_core_fields() {
    let info = sample_info();
    let payload = port_info_json(&info);
    assert_eq!(payload.port, 3000);
    assert_eq!(payload.protocol, "TCP");
    assert_eq!(payload.state, "Listen");
    assert_eq!(payload.pid, Some(1234));
    assert_eq!(payload.duration_secs, 65);
    assert_eq!(payload.memory, 1024 * 1024);
    assert_eq!(payload.memory_human, "1.0 MB");
}

#[test]
fn exit_codes_are_distinct() {
    let codes = [EXIT_OK, EXIT_ERROR, EXIT_CHECK_IN_USE, EXIT_FIND_NOT_FOUND];
    assert_eq!(codes, [0, 1, 2, 3]);
}

#[test]
fn find_payload_for_found_entry_carries_it() {
    let info = sample_info();
    let payload = find_json_payload(3000, Some(&info));
    assert!(payload.in_use);
    let entry = payload.entry.expect("entry");
    assert_eq!(entry.process_name, "node");
    assert_eq!(entry.command, "node server.js");
    assert_eq!(f32::from_bits(entry.cpu_usage_bits), 3.4f32);
    assert_eq!(entry.parent_pid, Some(1));
}

#[test]
fn check_and_find_messages() {
    assert_eq!(check_message(8080, true), "Port 8080 is available");
    assert_eq!(check_message(8080, false), "Port 8080 is in use");
    assert_eq!(not_in_use_message(3000), "Port 3000 is not in use");
}
