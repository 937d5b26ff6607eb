use streamcore_rust_sdk::client::{Notice, PeerReaction, PeerState};
use streamcore_rust_sdk::dial::{Dial, DialEvent};
use streamcore_rust_sdk::whip::{WhipError, WhipResult};
use streamcore_rust_sdk::{Client, ClientError, Config, ConnectionStatus, DataChannelMessage};

fn session(n: u32, status: &str) -> WhipResult {
    WhipResult {
        answer_sdp: format!("answer{}", n),
        session_url: format!("http://h/s{}", n),
        etag: format!("e{}", n),
        resume_token: format!("rt{}", n),
        resume_status: status.to_string(),
    }
}

fn dialed(client: &mut Client, n: u32) {
    let (dial, _) = Dial::begin(client, None);
    let dial = dial.step(client, DialEvent::Opened(Ok(Some("offer".to_string()))));
    let dial = dial.step(client, DialEvent::Offered(Ok(session(n, "new"))));
    let dial = dial.step(client, DialEvent::Answered(Ok(())));
    assert!(matches!(dial, Dial::Done(Ok(()))));
}

#[test]
fn dials_with_a_static_token() {
    let mut client = Client::new(Config {
        token: Some("jwt".to_string()),
        resource_id: Some("alice".to_string()),
        ..Default::default()
    });
    assert_eq!(client.status(), ConnectionStatus::Idle);
    client.connect();
    let (dial, notice) = Dial::begin(&mut client, None);
    assert!(matches!(notice, Notice::Status(ConnectionStatus::Connecting)));
    assert_eq!(client.status(), ConnectionStatus::Connecting);
    let dial = dial.step(&mut client, DialEvent::Opened(Ok(Some("offer".to_string()))));
    match &dial {
        Dial::Offering { endpoint, offer_sdp, token, resume_token, resource_id } => {
            assert_eq!(endpoint, "http://localhost:8080/whip");
            assert_eq!(offer_sdp, "offer");
            assert_eq!(token.as_deref(), Some("jwt"));
            assert_eq!(*resume_token, None);
            assert_eq!(resource_id.as_deref(), Some("alice"));
        }
        other => panic!("{:?}", other),
    }
    let dial = dial.step(&mut client, DialEvent::Offered(Ok(session(1, "new"))));
    match &dial {
        Dial::Answering { answer_sdp } => assert_eq!(answer_sdp, "answer1"),
        other => panic!("{:?}", other),
    }
    assert_eq!(client.session_url(), "http://h/s1");
    assert_eq!(client.etag(), "e1");
    assert_eq!(client.resume_token(), "rt1");
    assert!(!client.resumed());
    let dial = dial.step(&mut client, DialEvent::Answered(Ok(())));
    assert!(matches!(dial, Dial::Done(Ok(()))));
    assert_eq!(dial.error_to_tell(), None);
    // Connected is for the peer connection to report.
    assert_eq!(client.status(), ConnectionStatus::Connecting);
}

#[test]
fn fetched_token_overrides_and_carries_the_resource_id() {
    let mut client = Client::new(Config {
        token: Some("static".to_string()),
        token_url: Some("http://h/token".to_string()),
        api_key: Some("key".to_string()),
        resource_id: Some("alice".to_string()),
        ..Default::default()
    });
    let (dial, notice) = Dial::begin(&mut client, Some("rt".to_string()));
    assert!(matches!(notice, Notice::Status(ConnectionStatus::Reconnecting)));
    let dial = dial.step(&mut client, DialEvent::Opened(Ok(Some("offer".to_string()))));
    match &dial {
        Dial::FetchingToken { token_url, api_key, resource_id, .. } => {
            assert_eq!(token_url, "http://h/token");
            assert_eq!(api_key.as_deref(), Some("key"));
            assert_eq!(resource_id.as_deref(), Some("alice"));
        }
        other => panic!("{:?}", other),
    }
    let dial = dial.step(&mut client, DialEvent::TokenFetched(Ok("fresh".to_string())));
    match &dial {
        Dial::Offering { token, resume_token, resource_id, .. } => {
            assert_eq!(token.as_deref(), Some("fresh"));
            assert_eq!(resume_token.as_deref(), Some("rt"));
            assert_eq!(*resource_id, None);
        }
        other => panic!("{:?}", other),
    }
    assert_eq!(client.token().as_deref(), Some("fresh"));
    let teardown = client.disconnect();
    assert_eq!(teardown.token.as_deref(), Some("fresh"));
    assert_eq!(teardown.fetch, None);
}

#[test]
fn dial_failures() {
    let mut client = Client::new(Config {
        token_url: Some("http://h/token".to_string()),
        ..Default::default()
    });
    let (dial, _) = Dial::begin(&mut client, None);
    assert_eq!(dial.error_to_tell(), None);
    let dial = dial.step(&mut client, DialEvent::Opened(Err("no codecs".to_string())));
    assert_eq!(dial.error_to_tell().as_deref(), Some("WebRTC error: no codecs"));
    match dial {
        Dial::Done(Err(e)) => assert_eq!(e.message(), "WebRTC error: no codecs"),
        other => panic!("{:?}", other),
    }
    let (dial, _) = Dial::begin(&mut client, None);
    match dial.step(&mut client, DialEvent::Opened(Ok(None))) {
        Dial::Done(Err(ClientError::WebRTC(e))) => {
            assert_eq!(e, "local description not available after ICE gathering")
        }
        other => panic!("{:?}", other),
    }
    let (dial, _) = Dial::begin(&mut client, None);
    let dial = dial.step(&mut client, DialEvent::Opened(Ok(Some("offer".to_string()))));
    let refused = WhipError::TokenFetch("status 401: ".to_string());
    match dial.step(&mut client, DialEvent::TokenFetched(Err(refused))) {
        Dial::Done(Err(e)) => {
            assert_eq!(e.message(), "WHIP error: token fetch failed: status 401: ")
        }
        other => panic!("{:?}", other),
    }
    let mut client = Client::new(Config::default());
    let (dial, _) = Dial::begin(&mut client, None);
    let dial = dial.step(&mut client, DialEvent::Opened(Ok(Some("offer".to_string()))));
    let full = WhipError::UnexpectedStatus { status: 503, body: "full".to_string() };
    match dial.step(&mut client, DialEvent::Offered(Err(full))) {
        Dial::Done(Err(e)) => assert_eq!(e.message(), "WHIP error: unexpected status 503: full"),
        other => panic!("{:?}", other),
    }
    assert_eq!(client.session_url(), "");
    let (dial, _) = Dial::begin(&mut client, None);
    let dial = dial.step(&mut client, DialEvent::Opened(Ok(Some("offer".to_string()))));
    let dial = dial.step(&mut client, DialEvent::Offered(Ok(session(1, "new"))));
    match dial.step(&mut client, DialEvent::Answered(Err("bad".to_string()))) {
        Dial::Done(Err(ClientError::WebRTC(e))) => assert_eq!(e, "bad"),
        other => panic!("{:?}", other),
    }
    assert_eq!(
        ClientError::Audio("opus encode: x".to_string()).message(),
        "Audio error: opus encode: x"
    );
}

#[test]
fn events_out_of_turn_change_nothing() {
    let mut client = Client::new(Config::default());
    let (dial, _) = Dial::begin(&mut client, None);
    let dial = dial.step(&mut client, DialEvent::Answered(Ok(())));
    assert!(matches!(dial, Dial::Opening { .. }));
    let dial = dial.step(&mut client, DialEvent::Offered(Ok(session(9, "new"))));
    assert!(matches!(dial, Dial::Opening { .. }));
    assert_eq!(client.session_url(), "");
}

#[test]
fn disconnecting_leaves_nothing_of_the_session() {
    let mut client = Client::new(Config {
        token: Some("jwt".to_string()),
        ..Default::default()
    });
    client.connect();
    let generation = client.generation();
    dialed(&mut client, 1);
    client.handle_dc_message(&DataChannelMessage {
        msg_type: "transcript".to_string(),
        text: "hi".to_string(),
        is_final: true,
        message: String::new(),
        stage: String::new(),
        ms: 0,
        state: String::new(),
    });
    assert!(!client.abandons(generation));
    let teardown = client.disconnect();
    assert_eq!(teardown.session_url, "http://h/s1");
    assert_eq!(teardown.token.as_deref(), Some("jwt"));
    assert_eq!(teardown.delete_token(Some("other".to_string())).as_deref(), Some("jwt"));
    assert!(client.abandons(generation));
    assert!(client.abandons(client.generation()));
    assert_eq!(client.session_url(), "");
    assert_eq!(client.etag(), "");
    assert_eq!(client.resume_token(), "");
    assert!(matches!(client.disconnected(), Notice::Status(ConnectionStatus::Idle)));
    assert_eq!(client.status(), ConnectionStatus::Idle);
    assert_eq!(client.transcript().len(), 1);
    client.connect();
    assert!(!client.abandons(client.generation()));
    assert!(client.abandons(generation));
    assert_eq!(client.generation(), 3);
}

#[test]
fn teardown_fetches_a_token_as_a_last_resort() {
    let mut client = Client::new(Config {
        token_url: Some("http://h/token".to_string()),
        api_key: Some("key".to_string()),
        ..Default::default()
    });
    let teardown = client.disconnect();
    assert_eq!(teardown.session_url, "");
    assert_eq!(teardown.token, None);
    assert_eq!(
        teardown.fetch,
        Some(("http://h/token".to_string(), Some("key".to_string())))
    );
    assert_eq!(teardown.delete_token(Some("t".to_string())).as_deref(), Some("t"));
    let mut client = Client::new(Config::default());
    let teardown = client.disconnect();
    assert_eq!(teardown.fetch, None);
    assert_eq!(teardown.delete_token(None), None);
}

#[test]
fn peer_states_move_the_status() {
    let mut client = Client::new(Config::default());
    let connected = PeerReaction::Status(ConnectionStatus::Connected);
    assert_eq!(client.on_peer_state(PeerState::Connected, true), connected);
    assert_eq!(client.status(), ConnectionStatus::Connected);
    assert_eq!(client.on_peer_state(PeerState::Closed, false), PeerReaction::Ignore);
    assert_eq!(client.status(), ConnectionStatus::Connected);
    for state in [PeerState::Failed, PeerState::Disconnected] {
        assert_eq!(client.on_peer_state(state, true), PeerReaction::Recover);
    }
    for state in [PeerState::Unspecified, PeerState::New, PeerState::Connecting] {
        assert_eq!(client.on_peer_state(state, true), PeerReaction::Ignore);
    }
    assert_eq!(client.status(), ConnectionStatus::Connected);
    let lost = PeerReaction::Status(ConnectionStatus::Disconnected);
    assert_eq!(client.on_peer_state(PeerState::Closed, true), lost);
    assert_eq!(client.status(), ConnectionStatus::Disconnected);
}
