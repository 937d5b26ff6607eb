use streamcore_rust_sdk::audio::{
    DecodeError, Receive, ReceiveEvent, RtpClock, CHANNELS, FRAME_SIZE, MAX_OPUS_BYTES, SAMPLE_RATE,
};
use streamcore_rust_sdk::client::PeerState;
use streamcore_rust_sdk::recovery::Recovery;
use streamcore_rust_sdk::{Client, ClientError, Config};

#[test]
fn packets_are_numbered_around_their_range() {
    assert_eq!(SAMPLE_RATE, 48_000);
    assert_eq!(CHANNELS, 1);
    assert_eq!(FRAME_SIZE, 960);
    assert_eq!(MAX_OPUS_BYTES, 1500);
    let mut clock = RtpClock::new();
    for n in 0..70_000u64 {
        let packet = clock.packet(Ok(vec![n as u8])).unwrap();
        assert_eq!(packet.header.version, 2);
        assert_eq!(packet.header.payload_type, 111);
        assert_eq!(packet.header.ssrc, 0xDEAD_BEEF);
        assert_eq!(packet.header.sequence_number, (n % 65_536) as u16);
        assert_eq!(packet.header.timestamp, (n * 960) as u32);
        assert_eq!(packet.payload, vec![n as u8]);
    }
}

#[test]
fn frame_that_is_not_encoded_uses_no_number() {
    let mut clock = RtpClock::new();
    match clock.packet(Err("bad size".to_string())) {
        Err(ClientError::Audio(e)) => assert_eq!(e, "opus encode: bad size"),
        other => panic!("{:?}", other),
    }
    assert_eq!(clock.packet(Ok(vec![])).unwrap().header.sequence_number, 0);
    assert_eq!(clock.packet(Ok(vec![])).unwrap().header.timestamp, 960);
}

fn reading(client: &Client, track: u64) -> Receive {
    Receive::begin().step(client, ReceiveEvent::Looked(Some(track)))
}

fn why(receive: Receive) -> String {
    match receive {
        Receive::Done(Err(e)) => e.message(),
        other => panic!("{:?}", other),
    }
}

#[test]
fn receives_a_frame() {
    let client = Client::new(Config::default());
    let receive = Receive::begin().step(&client, ReceiveEvent::Looked(None));
    assert!(matches!(receive, Receive::AwaitingTrack));
    let receive = receive.step(&client, ReceiveEvent::Notified);
    let receive = receive.step(&client, ReceiveEvent::Looked(Some(1)));
    let receive = receive.step(&client, ReceiveEvent::Read(Ok(0)));
    assert!(matches!(receive, Receive::Reading { track: 1 }));
    let receive = receive.step(&client, ReceiveEvent::Read(Ok(10)));
    assert!(matches!(receive, Receive::Decoding { track: 1 }));
    let failed = DecodeError::Decode("corrupt".to_string());
    let receive = receive.step(&client, ReceiveEvent::Decoded(Err(failed)));
    assert!(matches!(receive, Receive::Reading { track: 1 }));
    let receive = receive.step(&client, ReceiveEvent::Read(Ok(10)));
    let receive = receive.step(&client, ReceiveEvent::Decoded(Ok(960)));
    assert!(matches!(receive, Receive::Done(Ok(960))));
}

#[test]
fn receive_failures() {
    let client = Client::new(Config::default());
    let receive = Receive::begin().step(&client, ReceiveEvent::Looked(None));
    let receive = receive.step(&client, ReceiveEvent::Notified);
    assert_eq!(
        why(receive.step(&client, ReceiveEvent::Looked(None))),
        "Audio error: remote track not available"
    );
    for (error, words) in [
        (DecodeError::Decoder("x".to_string()), "Audio error: opus decoder: x"),
        (DecodeError::Packet("x".to_string()), "Audio error: opus packet: x"),
        (DecodeError::Signal("x".to_string()), "Audio error: opus signal: x"),
    ] {
        let receive = reading(&client, 1).step(&client, ReceiveEvent::Read(Ok(3)));
        assert_eq!(why(receive.step(&client, ReceiveEvent::Decoded(Err(error)))), words);
    }
    let receive = reading(&client, 1).step(&client, ReceiveEvent::Read(Err("eof".to_string())));
    assert_eq!(
        why(receive.step(&client, ReceiveEvent::Looked(Some(1)))),
        "Audio error: track read: eof"
    );
}

#[test]
fn reconnect_is_a_gap_in_the_audio() {
    let mut client = Client::new(Config::default());
    client.on_peer_state(PeerState::Connected, true);
    Recovery::begin(&mut client).unwrap();
    let receive = reading(&client, 1).step(&client, ReceiveEvent::Read(Err("eof".to_string())));
    let receive = receive.step(&client, ReceiveEvent::Looked(Some(1)));
    assert!(matches!(receive, Receive::AwaitingReplacement { .. }));
    let receive = receive.step(&client, ReceiveEvent::Notified);
    let receive = receive.step(&client, ReceiveEvent::Looked(None));
    assert!(matches!(receive, Receive::AwaitingReplacement { .. }));
    let receive = receive.step(&client, ReceiveEvent::Notified);
    let receive = receive.step(&client, ReceiveEvent::Looked(Some(2)));
    assert!(matches!(receive, Receive::Reading { track: 2 }));

    // The call is over.
    client.on_peer_state(PeerState::Closed, true);
    let receive = receive.step(&client, ReceiveEvent::Read(Err("eof".to_string())));
    assert_eq!(
        why(receive.step(&client, ReceiveEvent::Looked(None))),
        "Audio error: track read: eof"
    );
}
