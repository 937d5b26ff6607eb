use streamcore_rust_sdk::client::PeerState;
use streamcore_rust_sdk::recovery::{Recovery, RecoveryEvent};
use streamcore_rust_sdk::{Client, Config, DataChannelMessage};

fn says(client: &mut Client, kind: &str, text: &str, is_final: bool) {
    client.handle_dc_message(&DataChannelMessage {
        msg_type: kind.to_string(),
        text: text.to_string(),
        is_final,
        message: String::new(),
        stage: String::new(),
        ms: 0,
        state: String::new(),
    });
}

#[test]
fn conversation_survives_a_drop() {
    let mut dropped = Client::new(Config::default());
    let mut steady = Client::new(Config::default());
    dropped.connect();
    for client in [&mut dropped, &mut steady] {
        says(client, "transcript", "one", true);
        says(client, "response", "tw", false);
    }
    dropped.on_peer_state(PeerState::Disconnected, true);
    let (recovery, _) = Recovery::begin(&mut dropped).unwrap();
    let failed = RecoveryEvent::Waited { peer: Some(PeerState::Failed) };
    recovery.step(&mut dropped, failed);
    for client in [&mut dropped, &mut steady] {
        says(client, "response", "o", false);
    }
    dropped.disconnect();
    dropped.connect();
    for client in [&mut dropped, &mut steady] {
        says(client, "transcript", "three", true);
    }
    let texts = |c: &Client| -> Vec<String> { c.transcript().into_iter().map(|e| e.text).collect() };
    assert_eq!(texts(&dropped), texts(&steady));
    assert_eq!(texts(&dropped), vec!["one", "two", "three"]);
    assert_eq!(dropped.generation(), 3);
}
