use streamcore_rust_sdk::conversation::DcNotice;
use streamcore_rust_sdk::{
    AgentState, Client, Config, ConnectionStatus, DataChannelMessage, TranscriptEntry,
};

fn message(kind: &str, text: &str, is_final: bool) -> DataChannelMessage {
    DataChannelMessage {
        msg_type: kind.to_string(),
        text: text.to_string(),
        is_final,
        message: String::new(),
        stage: String::new(),
        ms: 0,
        state: String::new(),
    }
}

fn lines(entries: &[TranscriptEntry]) -> Vec<String> {
    entries
        .iter()
        .map(|e| format!("{}:{}:{}", e.role, e.text, e.partial))
        .collect()
}

#[test]
fn conversation_runs_through_a_turn() {
    let mut client = Client::new(Config::default());
    client.handle_dc_message(&message("transcript", "he", false));
    client.handle_dc_message(&message("transcript", "hello", false));
    assert_eq!(lines(&client.transcript()), vec!["user:hello:true"]);
    client.handle_dc_message(&message("transcript", "hello there", true));
    assert_eq!(lines(&client.transcript()), vec!["user:hello there:false"]);
    client.handle_dc_message(&message("response", "Hi", false));
    client.handle_dc_message(&message("response", " you", false));
    assert_eq!(
        lines(&client.transcript()),
        vec!["user:hello there:false", "assistant:Hi you:true"]
    );
    client.handle_dc_message(&message("transcript", "b", false));
    let notice = client.handle_dc_message(&message("transcript", "bye", true));
    let expected = vec![
        "user:hello there:false",
        "assistant:Hi you:false",
        "user:bye:false",
    ];
    assert_eq!(lines(&client.transcript()), expected);
    match notice {
        DcNotice::Transcript { entry, all } => {
            assert_eq!(entry.text, "bye");
            assert_eq!(lines(&all), expected);
        }
        other => panic!("{:?}", other),
    }
    // The reply was settled; the next one starts afresh.
    client.handle_dc_message(&message("response", "x", false));
    assert_eq!(client.transcript()[3].text, "x");
    assert_eq!(client.status(), ConnectionStatus::Idle);
}

#[test]
fn partial_entries_of_one_role_leave_the_other_alone() {
    let mut client = Client::new(Config::default());
    client.handle_dc_message(&message("response", "A", false));
    client.handle_dc_message(&message("transcript", "u", false));
    client.handle_dc_message(&message("response", "B", false));
    assert_eq!(
        lines(&client.transcript()),
        vec!["user:u:true", "assistant:AB:true"]
    );
}

#[test]
fn other_messages_only_notify() {
    let mut client = Client::new(Config::default());
    let mut error = message("error", "", false);
    error.message = "boom".to_string();
    assert!(matches!(client.handle_dc_message(&error), DcNotice::Error(e) if e == "boom"));
    let mut timing = message("timing", "", false);
    timing.ms = -5;
    assert!(matches!(client.handle_dc_message(&timing), DcNotice::Silent));
    timing.stage = "stt".to_string();
    match client.handle_dc_message(&timing) {
        DcNotice::Timing(t) => {
            assert_eq!(t.stage, "stt");
            assert_eq!(t.ms, -5);
        }
        other => panic!("{:?}", other),
    }
    let mut state = message("state", "", false);
    state.state = "thinking".to_string();
    assert!(matches!(
        client.handle_dc_message(&state),
        DcNotice::AgentState(AgentState::Thinking)
    ));
    state.state = "sleeping".to_string();
    assert!(matches!(client.handle_dc_message(&state), DcNotice::Silent));
    assert!(matches!(
        client.handle_dc_message(&message("new", "", false)),
        DcNotice::Unknown
    ));
    assert!(client.transcript().is_empty());
}

#[test]
fn final_entries_stay() {
    let mut client = Client::new(Config::default());
    client.handle_dc_message(&message("transcript", "one", true));
    client.handle_dc_message(&message("response", "two", false));
    client.handle_dc_message(&message("transcript", "three", true));
    client.handle_dc_message(&message("transcript", "f", false));
    client.handle_dc_message(&message("response", "five", false));
    let finals: Vec<String> = client
        .transcript()
        .into_iter()
        .filter(|e| !e.partial)
        .map(|e| e.text)
        .collect();
    assert_eq!(finals, vec!["one", "two", "three"]);
}

#[test]
fn states_and_statuses_have_names() {
    for (state, name) in [
        (AgentState::Listening, "listening"),
        (AgentState::Thinking, "thinking"),
        (AgentState::Speaking, "speaking"),
    ] {
        assert_eq!(state.to_string(), name);
        assert_eq!(AgentState::from_str(name), Some(state));
    }
    assert_eq!(AgentState::from_str("Listening"), None);
    for (status, name) in [
        (ConnectionStatus::Idle, "idle"),
        (ConnectionStatus::Connecting, "connecting"),
        (ConnectionStatus::Connected, "connected"),
        (ConnectionStatus::Reconnecting, "reconnecting"),
        (ConnectionStatus::Error, "error"),
        (ConnectionStatus::Disconnected, "disconnected"),
    ] {
        assert_eq!(status.to_string(), name);
    }
}

#[test]
fn configuration_has_defaults() {
    let c = Config::default();
    assert_eq!(c.whip_endpoint, "http://localhost:8080/whip");
    assert_eq!(c.token, None);
    assert_eq!(c.token_url, None);
    assert_eq!(c.api_key, None);
    assert_eq!(c.resource_id, None);
    assert_eq!(c.ice_servers, vec!["stun:stun.l.google.com:19302".to_string()]);
    assert_eq!(c.reconnect_attempts, 3);
    assert_eq!(c.reconnect_delay.as_nanos(), 2_000_000_000);
    assert_eq!(c.resume_attempts, 2);
    assert_eq!(c.resume_delay.as_nanos(), 1_000_000_000);
}
