use streamcore_rust_sdk::client::{Notice, PeerState};
use streamcore_rust_sdk::dial::{Dial, DialEvent};
use streamcore_rust_sdk::recovery::{Recovery, RecoveryEvent, Stage};
use streamcore_rust_sdk::restart::{IceRestart, IceRestartEvent};
use streamcore_rust_sdk::types::MAX_DELAY_NANOS;
use streamcore_rust_sdk::whip::{WhipError, WhipRestartResult, WhipResult};
use streamcore_rust_sdk::{Client, ClientError, Config, ConnectionStatus, Delay};

fn in_call(config: Config) -> Client {
    let mut client = Client::new(config);
    client.connect();
    redial(&mut client, None, "new", Ok(()));
    client.on_peer_state(PeerState::Connected, true);
    client
}

fn redial(
    client: &mut Client,
    token: Option<String>,
    status: &str,
    answered: Result<(), String>,
) -> Result<(), ClientError> {
    let (dial, _) = Dial::begin(client, token);
    let dial = dial.step(client, DialEvent::Opened(Ok(Some("offer".to_string()))));
    let session = WhipResult {
        answer_sdp: "answer".to_string(),
        session_url: "http://h/s".to_string(),
        etag: "e1".to_string(),
        resume_token: "rt".to_string(),
        resume_status: status.to_string(),
    };
    let dial = dial.step(client, DialEvent::Offered(Ok(session)));
    match dial.step(client, DialEvent::Answered(answered)) {
        Dial::Done(result) => result,
        other => panic!("{:?}", other),
    }
}

fn told(notices: &[Notice]) -> Vec<String> {
    notices
        .iter()
        .map(|n| match n {
            Notice::Status(s) => s.to_string(),
            Notice::Reconnect(e) => format!(
                "{:?} {}/{}: {:?} {:?}",
                e.phase, e.attempt, e.max_attempts, e.outcome, e.error
            ),
        })
        .collect()
}

fn wait_of(recovery: &Recovery) -> u128 {
    match &recovery.stage {
        Stage::WaitingToRestart { delay, .. } => delay.as_nanos(),
        Stage::WaitingToRedial { delay, .. } => delay.as_nanos(),
        other => panic!("{:?}", other),
    }
}

fn rejected(status: u16, tag: &str) -> Result<(), WhipError> {
    Err(WhipError::RestartRejected {
        status,
        body: "no".to_string(),
        current_etag: tag.to_string(),
    })
}

fn disconnected() -> RecoveryEvent {
    RecoveryEvent::Waited { peer: Some(PeerState::Disconnected) }
}

const SECOND: u128 = 1_000_000_000;

#[test]
fn ladder_runs_down_to_a_lost_call() {
    let mut client = in_call(Config::default());
    assert_eq!(client.status(), ConnectionStatus::Connected);
    let (mut recovery, notices) = Recovery::begin(&mut client).unwrap();
    assert_eq!(told(&notices), vec!["reconnecting"]);
    assert!(client.reconnecting());
    // Only one at a time.
    assert!(Recovery::begin(&mut client).is_none());

    for (attempt, wait) in [(1, 2), (2, 4), (3, 8)] {
        assert_eq!(wait_of(&recovery), wait * SECOND);
        assert!(recovery.can_step());
        let (next, notices) = recovery.step(&mut client, disconnected());
        assert_eq!(
            told(&notices),
            vec![format!("IceRestart {}/3: Attempting None", attempt)]
        );
        assert!(matches!(next.stage, Stage::Restarting { .. }));
        let (next, notices) = next.step(&mut client, RecoveryEvent::Restarted(rejected(500, "")));
        assert!(notices.is_empty());
        recovery = next;
    }
    assert_eq!(client.status(), ConnectionStatus::Reconnecting);
    for (attempt, wait) in [(1, 1), (2, 2)] {
        assert_eq!(wait_of(&recovery), wait * SECOND);
        let (next, notices) = recovery.step(&mut client, RecoveryEvent::WaitedToRedial { alive: true });
        assert_eq!(told(&notices), vec![format!("Resume {}/2: Attempting None", attempt)]);
        match &next.stage {
            Stage::Redialing { token, .. } => assert_eq!(token, "rt"),
            other => panic!("{:?}", other),
        }
        let failed = Err(ClientError::WebRTC("down".to_string()));
        let (next, notices) = next.step(&mut client, RecoveryEvent::Redialed(failed));
        if attempt == 1 {
            assert!(notices.is_empty());
        } else {
            assert_eq!(
                told(&notices),
                vec![
                    "disconnected".to_string(),
                    "Resume 2/2: Failed Some(\"WebRTC error: down\")".to_string(),
                ]
            );
        }
        recovery = next;
    }
    assert!(matches!(recovery.stage, Stage::Finished));
    assert!(!client.reconnecting());
    assert_eq!(client.status(), ConnectionStatus::Disconnected);
}

#[test]
fn connection_heals_on_its_own() {
    let mut client = in_call(Config::default());
    let (recovery, _) = Recovery::begin(&mut client).unwrap();
    let healed = RecoveryEvent::Waited { peer: Some(PeerState::Connected) };
    let (recovery, notices) = recovery.step(&mut client, healed);
    assert_eq!(
        told(&notices),
        vec!["connected", "IceRestart 1/3: Recovered None"]
    );
    assert!(matches!(recovery.stage, Stage::Finished));
    assert_eq!(client.status(), ConnectionStatus::Connected);
}

#[test]
fn restart_recovers_and_leaves_the_status_to_the_peer() {
    let mut client = in_call(Config::default());
    let (recovery, _) = Recovery::begin(&mut client).unwrap();
    let (recovery, _) = recovery.step(&mut client, disconnected());
    let (recovery, notices) = recovery.step(&mut client, RecoveryEvent::Restarted(Ok(())));
    assert_eq!(told(&notices), vec!["IceRestart 1/3: Recovered None"]);
    assert!(matches!(recovery.stage, Stage::Finished));
    assert!(!client.reconnecting());
    assert_eq!(client.status(), ConnectionStatus::Reconnecting);
}

#[test]
fn rejected_restart_adopts_the_current_tag() {
    let mut client = in_call(Config::default());
    let (recovery, _) = Recovery::begin(&mut client).unwrap();
    let (recovery, _) = recovery.step(&mut client, disconnected());
    let (recovery, _) = recovery.step(&mut client, RecoveryEvent::Restarted(rejected(412, "e9")));
    assert_eq!(client.etag(), "e9");
    let (recovery, _) = recovery.step(&mut client, disconnected());
    let (recovery, _) = recovery.step(&mut client, RecoveryEvent::Restarted(rejected(412, "")));
    assert_eq!(client.etag(), "e9");
    assert!(matches!(recovery.stage, Stage::WaitingToRestart { attempt: 3, .. }));
}

#[test]
fn session_that_cannot_restart_goes_on_to_resume() {
    for status in [404, 405, 409] {
        let mut client = in_call(Config::default());
        let (recovery, _) = Recovery::begin(&mut client).unwrap();
        let (recovery, _) = recovery.step(&mut client, disconnected());
        let (recovery, _) =
            recovery.step(&mut client, RecoveryEvent::Restarted(rejected(status, "e9")));
        assert!(matches!(recovery.stage, Stage::WaitingToRedial { attempt: 1, .. }));
        assert_eq!(client.etag(), "e1");
    }
    for peer in [None, Some(PeerState::Failed)] {
        let mut client = in_call(Config::default());
        let (recovery, _) = Recovery::begin(&mut client).unwrap();
        let (recovery, notices) = recovery.step(&mut client, RecoveryEvent::Waited { peer });
        assert!(notices.is_empty());
        assert!(matches!(recovery.stage, Stage::WaitingToRedial { attempt: 1, .. }));
    }
    let mut client = in_call(Config::default());
    let (recovery, _) = Recovery::begin(&mut client).unwrap();
    let closed = RecoveryEvent::Waited { peer: Some(PeerState::Closed) };
    let (recovery, notices) = recovery.step(&mut client, closed);
    assert!(notices.is_empty());
    assert!(matches!(recovery.stage, Stage::Finished));
    assert!(!client.reconnecting());
}

#[test]
fn resume_tells_whether_history_survived() {
    for (status, outcome) in [
        ("resumed", "Recovered"),
        ("expired", "RecoveredWithoutHistory"),
        ("", "RecoveredWithoutHistory"),
    ] {
        let mut client = in_call(Config { reconnect_attempts: 0, ..Default::default() });
        let (recovery, notices) = Recovery::begin(&mut client).unwrap();
        assert_eq!(told(&notices), vec!["reconnecting"]);
        let (recovery, _) =
            recovery.step(&mut client, RecoveryEvent::WaitedToRedial { alive: true });
        let result = redial(&mut client, Some("rt".to_string()), status, Ok(()));
        let (recovery, notices) = recovery.step(&mut client, RecoveryEvent::Redialed(result));
        assert_eq!(told(&notices), vec![format!("Resume 1/2: {} None", outcome)]);
        assert!(matches!(recovery.stage, Stage::Finished));
    }
}

#[test]
fn phases_can_be_disabled() {
    let none = Config { reconnect_attempts: 0, resume_attempts: 0, ..Default::default() };
    let mut client = in_call(none);
    let (recovery, notices) = Recovery::begin(&mut client).unwrap();
    assert_eq!(
        told(&notices),
        vec![
            "reconnecting",
            "disconnected",
            "Resume 0/0: Failed Some(\"reconnecting is disabled\")",
        ]
    );
    assert!(matches!(recovery.stage, Stage::Finished));
    assert!(!client.reconnecting());

    // Nothing to resume with.
    let mut client = Client::new(Config { reconnect_attempts: 0, ..Default::default() });
    let (recovery, notices) = Recovery::begin(&mut client).unwrap();
    assert_eq!(
        told(&notices),
        vec![
            "reconnecting",
            "disconnected",
            "Resume 1/2: Failed Some(\"no resume token to redial with\")",
        ]
    );
    assert!(matches!(recovery.stage, Stage::Finished));
}

#[test]
fn lost_call_without_a_redial_is_told_as_failed() {
    // The last restart fails.
    let config = Config { reconnect_attempts: 1, resume_attempts: 0, ..Default::default() };
    let mut client = in_call(config);
    let (recovery, _) = Recovery::begin(&mut client).unwrap();
    let (recovery, _) = recovery.step(&mut client, disconnected());
    let (recovery, notices) = recovery.step(&mut client, RecoveryEvent::Restarted(rejected(500, "")));
    assert_eq!(
        told(&notices),
        vec![
            "disconnected",
            "IceRestart 1/1: Failed Some(\"ICE restart failed (500): no\")",
        ]
    );
    assert!(matches!(recovery.stage, Stage::Finished));
    assert_eq!(client.status(), ConnectionStatus::Disconnected);

    // The session cannot be restarted at all, and there is no resume token.
    let mut client = Client::new(Config::default());
    let (recovery, _) = Recovery::begin(&mut client).unwrap();
    let (recovery, _) = recovery.step(&mut client, disconnected());
    let (_, notices) = recovery.step(&mut client, RecoveryEvent::Restarted(rejected(404, "")));
    assert_eq!(
        told(&notices),
        vec![
            "disconnected",
            "IceRestart 1/3: Failed Some(\"ICE restart failed (404): no\")",
        ]
    );

    // The peer connection is beyond a restart.
    for (peer, why) in [
        (None, "the peer connection is gone"),
        (Some(PeerState::Failed), "the peer connection failed"),
    ] {
        let mut client = Client::new(Config::default());
        let (recovery, _) = Recovery::begin(&mut client).unwrap();
        let (_, notices) = recovery.step(&mut client, RecoveryEvent::Waited { peer });
        assert_eq!(
            told(&notices),
            vec![
                "disconnected".to_string(),
                format!("IceRestart 1/3: Failed Some({:?})", why),
            ]
        );
    }
}

#[test]
fn abandoned_recovery_is_silent() {
    let mut client = in_call(Config::default());
    let (recovery, _) = Recovery::begin(&mut client).unwrap();
    client.disconnect();
    let (recovery, notices) = recovery.step(&mut client, disconnected());
    assert!(notices.is_empty());
    assert!(matches!(recovery.stage, Stage::Finished));
    assert!(!client.reconnecting());

    let mut client = in_call(Config { reconnect_attempts: 0, ..Default::default() });
    let (recovery, _) = Recovery::begin(&mut client).unwrap();
    client.connect();
    let (recovery, notices) =
        recovery.step(&mut client, RecoveryEvent::WaitedToRedial { alive: true });
    assert!(notices.is_empty());
    assert!(matches!(recovery.stage, Stage::Finished));

    let mut client = in_call(Config { reconnect_attempts: 0, ..Default::default() });
    let (recovery, _) = Recovery::begin(&mut client).unwrap();
    let (recovery, notices) =
        recovery.step(&mut client, RecoveryEvent::WaitedToRedial { alive: false });
    assert!(notices.is_empty());
    assert!(matches!(recovery.stage, Stage::Finished));
}

#[test]
fn delays_have_a_longest() {
    assert_eq!(Delay::from_secs(u64::MAX).as_nanos(), u64::MAX as u128 * SECOND);
    assert!(Delay::from_nanos(MAX_DELAY_NANOS + 1).is_none());
    let longest = Delay::from_nanos(MAX_DELAY_NANOS).unwrap();
    assert_eq!(longest.as_nanos(), std::time::Duration::MAX.as_nanos());
    assert!(!longest.can_double());
    assert_eq!(Delay::from_secs(3).doubled(), Delay::from_secs(6));
    let mut client = in_call(Config { reconnect_delay: longest, ..Default::default() });
    let (recovery, _) = Recovery::begin(&mut client).unwrap();
    assert!(!recovery.can_step());
}

const REMOTE: &str = "v=0\r\no=- 1 1 IN IP4 h\r\nm=audio\r\na=ice-ufrag:a\r\na=ice-pwd:b\r\n";
const LOCAL: &str = "m=audio\r\na=ice-ufrag:c\r\na=ice-pwd:d\r\na=mid:0\r\na=candidate:x\r\n";
const REPLY: &str = "a=ice-ufrag:U\r\na=ice-pwd:P\r\na=candidate:y\r\n";

fn patching(client: &mut Client) -> IceRestart {
    let restart = IceRestart::begin();
    let restart = restart.step(client, IceRestartEvent::RemoteRead(Some(REMOTE.to_string())));
    let restart = restart.step(client, IceRestartEvent::OfferCreated(Ok(())));
    let restart = restart.step(client, IceRestartEvent::OfferSet(Ok(())));
    restart.step(client, IceRestartEvent::LocalRead(Some(LOCAL.to_string())))
}

fn replied(fragment: &str) -> IceRestartEvent {
    IceRestartEvent::Replied(Ok(WhipRestartResult {
        fragment: fragment.to_string(),
        etag: "e2".to_string(),
    }))
}

fn why(restart: IceRestart) -> String {
    match restart {
        IceRestart::Done(Err(e)) => {
            assert!(e.restart_retryable());
            e.message()
        }
        other => panic!("{:?}", other),
    }
}

#[test]
fn restart_round_trip() {
    let mut client = in_call(Config { token: Some("jwt".to_string()), ..Default::default() });
    let restart = patching(&mut client);
    match &restart {
        IceRestart::Patching { session_url, fragment, etag, token, .. } => {
            assert_eq!(session_url, "http://h/s");
            assert_eq!(
                fragment,
                "a=ice-ufrag:c\r\na=ice-pwd:d\r\nm=audio\r\na=mid:0\r\na=candidate:x\r\na=end-of-candidates\r\n"
            );
            assert_eq!(etag, "e1");
            assert_eq!(token.as_deref(), Some("jwt"));
        }
        other => panic!("{:?}", other),
    }
    assert!(restart.can_take(&replied(REPLY)));
    let restart = restart.step(&mut client, replied(REPLY));
    match &restart {
        IceRestart::ParsingAnswer { answer_sdp, .. } => assert_eq!(
            answer_sdp,
            "v=0\r\no=- 1 2 IN IP4 h\r\nm=audio\r\na=ice-ufrag:U\r\na=ice-pwd:P\r\na=candidate:y\r\na=end-of-candidates\r\n"
        ),
        other => panic!("{:?}", other),
    }
    let restart = restart.step(&mut client, IceRestartEvent::AnswerParsed(Ok(())));
    assert_eq!(client.etag(), "e1");
    let restart = restart.step(&mut client, IceRestartEvent::AnswerSet(Ok(())));
    assert!(matches!(restart, IceRestart::Done(Ok(()))));
    assert_eq!(client.etag(), "e2");
    assert_eq!(client.resume_token(), "rt");
}

#[test]
fn restart_failures() {
    let mut client = in_call(Config::default());
    let begin = IceRestart::begin;
    let words = || "why".to_string();
    assert_eq!(
        why(begin().step(&mut client, IceRestartEvent::RemoteRead(None))),
        "token fetch failed: no remote description to restart against"
    );
    let creating =
        begin().step(&mut client, IceRestartEvent::RemoteRead(Some(REMOTE.to_string())));
    assert_eq!(
        why(creating.step(&mut client, IceRestartEvent::OfferCreated(Err(words())))),
        "token fetch failed: create restart offer: why"
    );
    let creating =
        begin().step(&mut client, IceRestartEvent::RemoteRead(Some(REMOTE.to_string())));
    let setting = creating.step(&mut client, IceRestartEvent::OfferCreated(Ok(())));
    assert_eq!(
        why(setting.step(&mut client, IceRestartEvent::OfferSet(Err(words())))),
        "token fetch failed: set restart offer: why"
    );
    let creating =
        begin().step(&mut client, IceRestartEvent::RemoteRead(Some(REMOTE.to_string())));
    let setting = creating.step(&mut client, IceRestartEvent::OfferCreated(Ok(())));
    let reading = setting.step(&mut client, IceRestartEvent::OfferSet(Ok(())));
    assert_eq!(
        why(reading.step(&mut client, IceRestartEvent::LocalRead(None))),
        "token fetch failed: no local description after restart offer"
    );
    let restart = patching(&mut client);
    assert_eq!(
        why(restart.step(&mut client, replied("a=mid:0\r\n"))),
        "token fetch failed: ICE restart reply has no ICE credentials"
    );
    let restart = patching(&mut client);
    let gone = WhipError::RestartRejected {
        status: 404,
        body: "gone".to_string(),
        current_etag: String::new(),
    };
    match restart.step(&mut client, IceRestartEvent::Replied(Err(gone))) {
        IceRestart::Done(Err(e)) => assert_eq!(e.message(), "ICE restart failed (404): gone"),
        other => panic!("{:?}", other),
    }
    let parsing = patching(&mut client).step(&mut client, replied(REPLY));
    assert_eq!(
        why(parsing.step(&mut client, IceRestartEvent::AnswerParsed(Err(words())))),
        "token fetch failed: parse restart answer: why"
    );
    let parsing = patching(&mut client).step(&mut client, replied(REPLY));
    let setting = parsing.step(&mut client, IceRestartEvent::AnswerParsed(Ok(())));
    assert_eq!(
        why(setting.step(&mut client, IceRestartEvent::AnswerSet(Err(words())))),
        "token fetch failed: set restart answer: why"
    );
    assert_eq!(client.etag(), "e1");
}
