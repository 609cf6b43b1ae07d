use ao_process::{
    clear_state, dispatch, get_state, handle_message, str_eq, usize_to_string, AOMessage,
    AOResponse, ProcessState,
};

fn message_with(from: &str, tags: &[(&str, &str)], data: Option<&str>) -> AOMessage {
    AOMessage {
        from: Some(from.to_string()),
        data: data.map(|d| d.to_string()),
        tags: Some(
            tags.iter().map(|(k, v)| (k.to_string(), v.to_string())).collect(),
        ),
        ..Default::default()
    }
}

#[test]
fn test_error_handling() {
    let mut state = ProcessState::new();

    // A message without the Action tag.
    let no_action = message_with("test-sender", &[], None);
    let response = dispatch(&no_action, &mut state);
    assert_eq!(response.action, "Error");
    assert!(response.data.contains("Action is required"));

    // An unrecognized action tag.
    let unknown = message_with("test-sender", &[("Action", "UnknownAction")], None);
    let response = dispatch(&unknown, &mut state);
    assert_eq!(response.action, "Error");
    assert!(response.data.contains("Unknown action: UnknownAction"));

    // Set without its required Key tag.
    let keyless = message_with("test-sender", &[("Action", "Set")], Some("test-value"));
    let response = dispatch(&keyless, &mut state);
    assert_eq!(response.action, "Error");
    assert!(response.data.contains("Key is required"));
}

#[test]
fn unknown_action_enumerates_the_known_actions() {
    let mut state = ProcessState::new();
    let msg = message_with("test-sender", &[("Action", "Bogus")], None);
    let response = dispatch(&msg, &mut state);
    assert_eq!(
        response.data,
        "Unknown action: Bogus. Available actions: Info, Set, Get, List, Remove, Clear"
    );
    assert_eq!(response.target, "test-sender");
}

#[test]
fn missing_action_failure_comes_from_the_router() {
    let mut state = ProcessState::new();
    let msg = message_with("test-sender", &[("Key", "test-key")], Some("test-value"));
    let err = handle_message(&msg, &mut state).unwrap_err();
    assert_eq!(err, "Action is required");
    assert_eq!(state.size(), 0);
}

#[test]
fn set_then_get_round_trip() {
    let mut state = ProcessState::new();

    let set_msg = message_with(
        "test-sender",
        &[("Action", "Set"), ("Key", "test-key")],
        Some("test-value"),
    );
    let set_response = dispatch(&set_msg, &mut state);
    assert_eq!(set_response.action, "Set-Response");
    assert!(set_response.data.contains("Successfully set test-key to test-value"));

    let get_msg = message_with("test-sender", &[("Action", "Get"), ("Key", "test-key")], None);
    let get_response = dispatch(&get_msg, &mut state);
    assert_eq!(get_response.action, "Get-Response");
    assert_eq!(get_response.data, "test-value");
    assert!(get_response.extra_fields.iter().any(|(k, v)| k == "Key" && v == "test-key"));
}

#[test]
fn info_on_an_empty_store() {
    let mut state = ProcessState::new();
    let msg = message_with("test-sender", &[("Action", "Info")], None);
    let response = dispatch(&msg, &mut state);
    assert_eq!(response.action, "Info-Response");
    assert!(response.data.contains("State entries: 0"));
}

#[test]
fn oversized_value_is_rejected_through_dispatch() {
    let mut state = ProcessState::new();
    let value = "v".repeat(1001);
    let msg = message_with("test-sender", &[("Action", "Set"), ("Key", "test-key")], Some(&value));
    let response = dispatch(&msg, &mut state);
    assert_eq!(response.action, "Error");
    assert_eq!(response.data, "Value must be less than 1000 characters");
    assert_eq!(state.size(), 0);
}

#[test]
fn oversized_key_is_rejected_through_dispatch() {
    let mut state = ProcessState::new();
    let key = "k".repeat(65);
    let msg = message_with("test-sender", &[("Action", "Set"), ("Key", &key)], Some("value"));
    let response = dispatch(&msg, &mut state);
    assert_eq!(response.action, "Error");
    assert_eq!(response.data, "Key must be between 1 and 64 characters");
    assert_eq!(state.size(), 0);
}

#[test]
fn get_state_encodes_the_store() {
    let mut state = ProcessState::new();
    assert_eq!(get_state(&state), "{}");
    state.set("test-key", "test-value").unwrap();
    assert_eq!(get_state(&state), "{\"test-key\":\"test-value\"}");
}

#[test]
fn clear_state_empties_the_store() {
    let mut state = ProcessState::new();
    state.set("test-key", "test-value").unwrap();
    assert!(clear_state(&mut state));
    assert_eq!(state.size(), 0);
    assert_eq!(get_state(&state), "{}");
}

#[test]
fn response_builders_keep_their_fields() {
    let response = AOResponse::new("test-sender", "Info-Response", "payload");
    assert_eq!(response.target, "test-sender");
    assert_eq!(response.action, "Info-Response");
    assert_eq!(response.data, "payload");
    assert!(response.extra_fields.is_empty());

    let with_field = response.with_field("Key", "test-key");
    assert_eq!(with_field.extra_fields, vec![("Key".to_string(), "test-key".to_string())]);

    let error = AOResponse::error("test-sender", "boom");
    assert_eq!(error.action, "Error");
    assert_eq!(error.data, "boom");
}

#[test]
fn decimal_rendering_is_exact() {
    assert_eq!(usize_to_string(0), "0");
    assert_eq!(usize_to_string(7), "7");
    assert_eq!(usize_to_string(10), "10");
    assert_eq!(usize_to_string(1234), "1234");
}

#[test]
fn string_equality_compares_characters() {
    assert!(str_eq("abc", "abc"));
    assert!(!str_eq("abc", "abd"));
    assert!(!str_eq("abc", "abcd"));
    assert!(str_eq("", ""));
}
