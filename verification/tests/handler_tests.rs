use ao_process::{
    handle_clear, handle_get, handle_info, handle_list, handle_message, handle_remove, handle_set,
    AOMessage, ProcessState,
};

fn message_with(from: &str, tags: &[(&str, &str)], data: Option<&str>) -> AOMessage {
    AOMessage {
        from: Some(from.to_string()),
        data: data.map(|d| d.to_string()),
        tags: Some(
            tags.iter().map(|(k, v)| (k.to_string(), v.to_string())).collect(),
        ),
        ..Default::default()
    }
}

#[test]
fn test_handle_info() {
    let state = ProcessState::new();
    let msg = message_with("test-sender", &[("Action", "Info")], None);

    let response = handle_info(&msg, &state).unwrap();
    assert_eq!(response.action, "Info-Response");
    assert!(response.data.contains("Hello from AO Process (Rust)"));
}

#[test]
fn test_info_handler() {
    let mut state = ProcessState::new();
    let msg = message_with("test-sender", &[("Action", "Info")], None);

    let response = handle_message(&msg, &mut state).unwrap();
    assert_eq!(response.target, "test-sender");
    assert_eq!(response.action, "Info-Response");
    assert!(response.data.contains("Hello from AO Process (Rust)"));
}

#[test]
fn test_set_and_get_handlers() {
    let mut state = ProcessState::new();

    let set_msg = message_with(
        "test-sender",
        &[("Action", "Set"), ("Key", "test-key")],
        Some("test-value"),
    );
    let set_response = handle_message(&set_msg, &mut state).unwrap();
    assert_eq!(set_response.action, "Set-Response");
    assert!(set_response.data.contains("Successfully set test-key to test-value"));

    let get_msg = message_with("test-sender", &[("Action", "Get"), ("Key", "test-key")], None);
    let get_response = handle_message(&get_msg, &mut state).unwrap();
    assert_eq!(get_response.action, "Get-Response");
    assert_eq!(get_response.data, "test-value");
    assert!(get_response.extra_fields.iter().any(|(k, v)| k == "Key" && v == "test-key"));
}

#[test]
fn test_list_handler() {
    let mut state = ProcessState::new();
    state.set("key1", "value1").unwrap();
    state.set("key2", "value2").unwrap();

    let msg = message_with("test-sender", &[("Action", "List")], None);
    let response = handle_message(&msg, &mut state).unwrap();
    assert_eq!(response.action, "List-Response");
    assert!(response.data.contains("key1") && response.data.contains("value1"));
    assert!(response.data.contains("key2") && response.data.contains("value2"));
}

#[test]
fn test_remove_handler() {
    let mut state = ProcessState::new();
    state.set("test-key", "test-value").unwrap();

    let msg = message_with("test-sender", &[("Action", "Remove"), ("Key", "test-key")], None);
    let response = handle_message(&msg, &mut state).unwrap();
    assert_eq!(response.action, "Remove-Response");
    assert!(response.data.contains("Successfully removed test-key"));
    assert_eq!(state.size(), 0);
}

#[test]
fn test_clear_handler() {
    let mut state = ProcessState::new();
    state.set("key1", "value1").unwrap();
    state.set("key2", "value2").unwrap();

    let msg = message_with("test-sender", &[("Action", "Clear")], None);
    let response = handle_message(&msg, &mut state).unwrap();
    assert_eq!(response.action, "Clear-Response");
    assert_eq!(response.data, "State cleared successfully");
    assert_eq!(state.size(), 0);
}

#[test]
fn test_key_validation() {
    let mut state = ProcessState::new();
    let msg = message_with(
        "test-sender",
        &[("Action", "Set"), ("Key", "invalid key with spaces")],
        Some("test-value"),
    );
    let response = handle_message(&msg, &mut state).unwrap();
    assert_eq!(response.action, "Error");
    assert!(response.data.contains("Invalid key format"));
}

#[test]
fn get_of_a_key_never_set_says_not_found() {
    let mut state = ProcessState::new();
    let msg = message_with("test-sender", &[("Action", "Get"), ("Key", "missing")], None);
    let response = handle_message(&msg, &mut state).unwrap();
    assert_eq!(response.action, "Get-Response");
    assert_eq!(response.data, "Not found");
    assert!(response.extra_fields.iter().any(|(k, v)| k == "Key" && v == "missing"));
}

#[test]
fn remove_handler_reports_absent_key() {
    let mut state = ProcessState::new();
    let msg = message_with("test-sender", &[("Action", "Remove"), ("Key", "ghost")], None);
    let response = handle_remove(&msg, &mut state).unwrap();
    assert_eq!(response.action, "Remove-Response");
    assert_eq!(response.data, "Key ghost not found");
}

#[test]
fn set_handler_requires_key_tag() {
    let mut state = ProcessState::new();
    let msg = message_with("test-sender", &[("Action", "Set")], Some("test-value"));
    let err = handle_set(&msg, &mut state).unwrap_err();
    assert_eq!(err, "Key is required");
    assert_eq!(state.size(), 0);
}

#[test]
fn set_handler_requires_data() {
    let mut state = ProcessState::new();
    let msg = message_with("test-sender", &[("Action", "Set"), ("Key", "test-key")], None);
    let err = handle_set(&msg, &mut state).unwrap_err();
    assert_eq!(err, "Value is required");
}

#[test]
fn get_handler_requires_key_tag() {
    let state = ProcessState::new();
    let msg = message_with("test-sender", &[("Action", "Get")], None);
    let err = handle_get(&msg, &state).unwrap_err();
    assert_eq!(err, "Key is required");
}

#[test]
fn remove_handler_requires_key_tag() {
    let mut state = ProcessState::new();
    let msg = message_with("test-sender", &[("Action", "Remove")], None);
    let err = handle_remove(&msg, &mut state).unwrap_err();
    assert_eq!(err, "Key is required");
}

#[test]
fn info_reports_exact_entry_count() {
    let mut state = ProcessState::new();
    let msg = message_with("test-sender", &[("Action", "Info")], None);
    let response = handle_info(&msg, &state).unwrap();
    assert_eq!(response.data, "Hello from AO Process (Rust)! State entries: 0");

    for i in 0..12 {
        state.set(&format!("key{}", i), "value").unwrap();
    }
    let response = handle_info(&msg, &state).unwrap();
    assert_eq!(response.data, "Hello from AO Process (Rust)! State entries: 12");
}

#[test]
fn list_handler_encodes_the_exact_snapshot() {
    let mut state = ProcessState::new();
    let msg = message_with("test-sender", &[("Action", "List")], None);

    let empty = handle_list(&msg, &state).unwrap();
    assert_eq!(empty.data, "{}");

    state.set("key2", "value2").unwrap();
    state.set("key1", "value1").unwrap();
    let response = handle_list(&msg, &state).unwrap();
    assert_eq!(response.data, "{\"key1\":\"value1\",\"key2\":\"value2\"}");
}

#[test]
fn clear_handler_defaults_target_to_unknown() {
    let mut state = ProcessState::new();
    let msg = AOMessage {
        tags: Some(vec![("Action".to_string(), "Clear".to_string())]),
        ..Default::default()
    };
    let response = handle_clear(&msg, &mut state).unwrap();
    assert_eq!(response.target, "unknown");
}
