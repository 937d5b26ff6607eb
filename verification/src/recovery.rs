//! Recovering a dropped connection, step by step and in two phases.
//!
//! **ICE restart** first, while the peer connection is merely disconnected. It
//! keeps the transport itself alive, so nothing above it notices.
//!
//! **Resume redial** when that is no longer possible: a fresh peer connection
//! dials with the session's resume token, and the server reattaches it to the
//! same conversation.
use vstd::prelude::*;

use crate::client::{
    Client, ClientError, ClientErrorView, ClientView, Notice, NoticeView, PeerState,
};
use crate::text;
use crate::types;
use crate::types::{
    ConnectionStatus, Delay, ReconnectEvent, ReconnectEventView, ReconnectOutcome, ReconnectPhase,
};
use crate::whip::{WhipError, WhipErrorView};

verus! {

/// What a recovery is waiting for.
#[derive(Debug)]
pub enum Stage {
    /// The wait before an ICE restart to pass.
    WaitingToRestart { attempt: u32, delay: Delay },
    /// An ICE restart to end; `delay` is the wait before the next one.
    Restarting { attempt: u32, delay: Delay },
    /// The dead peer connection to be closed, and the wait before a redial to
    /// pass.
    WaitingToRedial { attempt: u32, delay: Delay, token: String },
    /// A dial with the resume token to end; `delay` is the wait before the next
    /// one.
    Redialing { attempt: u32, delay: Delay, token: String },
    /// Nothing any more.
    Finished,
}

/// What a [`Stage`] says, with delays in nanoseconds.
#[verifier::ext_equal]
pub enum StageView {
    WaitingToRestart { attempt: u32, delay: nat },
    Restarting { attempt: u32, delay: nat },
    WaitingToRedial { attempt: u32, delay: nat, token: Seq<char> },
    Redialing { attempt: u32, delay: nat, token: Seq<char> },
    Finished,
}

impl View for Stage {
    type V = StageView;

    open spec fn view(&self) -> StageView {
        match self {
            Stage::WaitingToRestart { attempt, delay } => StageView::WaitingToRestart {
                attempt: *attempt,
                delay: delay@,
            },
            Stage::Restarting { attempt, delay } => StageView::Restarting {
                attempt: *attempt,
                delay: delay@,
            },
            Stage::WaitingToRedial { attempt, delay, token } => StageView::WaitingToRedial {
                attempt: *attempt,
                delay: delay@,
                token: token@,
            },
            Stage::Redialing { attempt, delay, token } => StageView::Redialing {
                attempt: *attempt,
                delay: delay@,
                token: token@,
            },
            Stage::Finished => StageView::Finished,
        }
    }
}

/// A recovery in flight.
#[derive(Debug)]
pub struct Recovery {
    /// The client's generation when the recovery began.
    pub generation: u64,
    pub stage: Stage,
}

/// What a [`Recovery`] says.
#[verifier::ext_equal]
pub struct RecoveryView {
    pub generation: u64,
    pub stage: StageView,
}

impl View for Recovery {
    type V = RecoveryView;

    open spec fn view(&self) -> RecoveryView {
        RecoveryView { generation: self.generation, stage: self.stage@ }
    }
}

/// Something that a recovery was waiting for.
#[derive(Debug)]
pub enum RecoveryEvent {
    /// The wait before an ICE restart passed; `peer` is the state of the peer
    /// connection, if that still exists.
    Waited { peer: Option<PeerState> },
    Restarted(Result<(), WhipError>),
    /// The wait before a redial passed; `alive` tells whether the caller still
    /// holds the client.
    WaitedToRedial { alive: bool },
    Redialed(Result<(), ClientError>),
}

/// What a [`RecoveryEvent`] says.
pub enum RecoveryEventView {
    Waited { peer: Option<PeerState> },
    Restarted(Result<(), WhipErrorView>),
    WaitedToRedial { alive: bool },
    Redialed(Result<(), ClientErrorView>),
}

impl View for RecoveryEvent {
    type V = RecoveryEventView;

    open spec fn view(&self) -> RecoveryEventView {
        match self {
            RecoveryEvent::Waited { peer } => RecoveryEventView::Waited { peer: *peer },
            RecoveryEvent::Restarted(r) => RecoveryEventView::Restarted(text::result_view(*r)),
            RecoveryEvent::WaitedToRedial { alive } => RecoveryEventView::WaitedToRedial {
                alive: *alive,
            },
            RecoveryEvent::Redialed(r) => RecoveryEventView::Redialed(text::result_view(*r)),
        }
    }
}

/// The client, the stage of the recovery and what the caller is told.
#[verifier::ext_equal]
pub struct Progress {
    pub client: ClientView,
    pub stage: StageView,
    pub told: Seq<NoticeView>,
}

/// The notice of an ICE restart attempt.
pub open spec fn restart_notice(
    c: ClientView,
    attempt: u32,
    outcome: ReconnectOutcome,
    error: Option<Seq<char>>,
) -> NoticeView {
    NoticeView::Reconnect(
        ReconnectEventView {
            attempt,
            max_attempts: c.config.reconnect_attempts,
            phase: ReconnectPhase::IceRestart,
            outcome,
            error,
        },
    )
}

/// The notice of a redial attempt.
pub open spec fn redial_notice(
    c: ClientView,
    attempt: u32,
    outcome: ReconnectOutcome,
    error: Option<Seq<char>>,
) -> NoticeView {
    NoticeView::Reconnect(
        ReconnectEventView {
            attempt,
            max_attempts: c.config.resume_attempts,
            phase: ReconnectPhase::Resume,
            outcome,
            error,
        },
    )
}

/// The end of a recovery.
pub open spec fn finish(c: ClientView, told: Seq<NoticeView>) -> Progress {
    Progress {
        client: ClientView { reconnecting: false, ..c },
        stage: StageView::Finished,
        told,
    }
}

/// The failure of a recovery whose last ICE restart was number `attempt`.
pub open spec fn restart_failure(c: ClientView, attempt: u32, why: Seq<char>) -> NoticeView {
    restart_notice(c, attempt, ReconnectOutcome::Failed, Some(why))
}

/// The failure of a recovery that could not even begin.
pub open spec fn nothing_to_try(c: ClientView) -> NoticeView {
    if c.config.resume_attempts == 0 {
        redial_notice(c, 0, ReconnectOutcome::Failed, Some("reconnecting is disabled"@))
    } else {
        redial_notice(c, 1, ReconnectOutcome::Failed, Some("no resume token to redial with"@))
    }
}

/// The start of the resume phase: over at once if the client moved on, and
/// given up at once if the phase is disabled or there is nothing to resume with,
/// in which case the call is lost and `failure` is told.
pub open spec fn resume_phase(
    c: ClientView,
    generation: u64,
    told: Seq<NoticeView>,
    failure: NoticeView,
) -> Progress {
    if c.generation != generation {
        finish(c, told)
    } else if c.config.resume_attempts == 0 || c.resume_token.len() == 0 {
        finish(
            ClientView { status: ConnectionStatus::Disconnected, ..c },
            told.push(NoticeView::Status(ConnectionStatus::Disconnected)).push(failure),
        )
    } else {
        Progress {
            client: c,
            stage: StageView::WaitingToRedial {
                attempt: 1,
                delay: c.config.resume_delay@,
                token: c.resume_token,
            },
            told,
        }
    }
}

/// The start of a recovery of a client that has none in flight.
pub open spec fn recovery_start(c: ClientView) -> Progress {
    let begun = ClientView { reconnecting: true, status: ConnectionStatus::Reconnecting, ..c };
    let told = seq![NoticeView::Status(ConnectionStatus::Reconnecting)];
    if c.config.reconnect_attempts == 0 {
        resume_phase(begun, c.generation, told, nothing_to_try(c))
    } else {
        Progress {
            client: begun,
            stage: StageView::WaitingToRestart {
                attempt: 1,
                delay: c.config.reconnect_delay@,
            },
            told,
        }
    }
}

/// After the wait before ICE restart number `attempt`.
pub open spec fn after_wait(
    c: ClientView,
    generation: u64,
    attempt: u32,
    delay: nat,
    peer: Option<PeerState>,
) -> Progress {
    if c.abandons(generation) {
        finish(c, Seq::empty())
    } else {
        match peer {
            None => resume_phase(
                c,
                generation,
                Seq::empty(),
                restart_failure(c, attempt, "the peer connection is gone"@),
            ),
            Some(PeerState::Closed) => finish(c, Seq::empty()),
            Some(PeerState::Failed) => resume_phase(
                c,
                generation,
                Seq::empty(),
                restart_failure(c, attempt, "the peer connection failed"@),
            ),
            Some(PeerState::Connected) => finish(
                ClientView { status: ConnectionStatus::Connected, ..c },
                seq![
                    NoticeView::Status(ConnectionStatus::Connected),
                    restart_notice(c, attempt, ReconnectOutcome::Recovered, None),
                ],
            ),
            Some(_) => Progress {
                client: c,
                stage: StageView::Restarting { attempt, delay: 2 * delay },
                told: seq![restart_notice(c, attempt, ReconnectOutcome::Attempting, None)],
            },
        }
    }
}

/// The client after a restart was turned down: it takes over the tag that the
/// server reported as current, if it reported one.
pub open spec fn after_rejection(c: ClientView, e: WhipErrorView) -> ClientView {
    match e {
        WhipErrorView::RestartRejected { current_etag, .. } => if current_etag.len() > 0 {
            ClientView { etag: current_etag, ..c }
        } else {
            c
        },
        _ => c,
    }
}

/// After ICE restart number `attempt`.
pub open spec fn after_restart(
    c: ClientView,
    generation: u64,
    attempt: u32,
    delay: nat,
    result: Result<(), WhipErrorView>,
) -> Progress {
    match result {
        Ok(_) => finish(c, seq![restart_notice(c, attempt, ReconnectOutcome::Recovered, None)]),
        Err(e) => if !e.restart_retryable() {
            resume_phase(
                c,
                generation,
                Seq::empty(),
                restart_failure(c, attempt, e.message()),
            )
        } else if attempt >= c.config.reconnect_attempts {
            resume_phase(
                after_rejection(c, e),
                generation,
                Seq::empty(),
                restart_failure(c, attempt, e.message()),
            )
        } else {
            Progress {
                client: after_rejection(c, e),
                stage: StageView::WaitingToRestart { attempt: (attempt + 1) as u32, delay },
                told: Seq::empty(),
            }
        },
    }
}

/// After the wait before redial number `attempt`.
pub open spec fn after_redial_wait(
    c: ClientView,
    generation: u64,
    attempt: u32,
    delay: nat,
    token: Seq<char>,
    alive: bool,
) -> Progress {
    if c.abandons(generation) || !alive {
        finish(c, Seq::empty())
    } else {
        Progress {
            client: c,
            stage: StageView::Redialing { attempt, delay: 2 * delay, token },
            told: seq![redial_notice(c, attempt, ReconnectOutcome::Attempting, None)],
        }
    }
}

/// After redial number `attempt`.
pub open spec fn after_redial(
    c: ClientView,
    attempt: u32,
    delay: nat,
    token: Seq<char>,
    result: Result<(), ClientErrorView>,
) -> Progress {
    match result {
        Ok(_) => finish(
            c,
            seq![
                redial_notice(
                    c,
                    attempt,
                    if c.resume_status == "resumed"@ {
                        ReconnectOutcome::Recovered
                    } else {
                        ReconnectOutcome::RecoveredWithoutHistory
                    },
                    None,
                ),
            ],
        ),
        Err(e) => if attempt >= c.config.resume_attempts {
            finish(
                ClientView { status: ConnectionStatus::Disconnected, ..c },
                seq![
                    NoticeView::Status(ConnectionStatus::Disconnected),
                    redial_notice(c, attempt, ReconnectOutcome::Failed, Some(e.message())),
                ],
            )
        } else {
            Progress {
                client: c,
                stage: StageView::WaitingToRedial { attempt: (attempt + 1) as u32, delay, token },
                told: Seq::empty(),
            }
        },
    }
}

/// The recovery after `event`. An event that it was not waiting for changes
/// nothing.
pub open spec fn recovery_step(c: ClientView, r: RecoveryView, event: RecoveryEventView) -> Progress {
    match (r.stage, event) {
        (
            StageView::WaitingToRestart { attempt, delay },
            RecoveryEventView::Waited { peer },
        ) => after_wait(c, r.generation, attempt, delay, peer),
        (
            StageView::Restarting { attempt, delay },
            RecoveryEventView::Restarted(result),
        ) => after_restart(c, r.generation, attempt, delay, result),
        (
            StageView::WaitingToRedial { attempt, delay, token },
            RecoveryEventView::WaitedToRedial { alive },
        ) => after_redial_wait(c, r.generation, attempt, delay, token, alive),
        (
            StageView::Redialing { attempt, delay, token },
            RecoveryEventView::Redialed(result),
        ) => after_redial(c, attempt, delay, token, result),
        _ => Progress { client: c, stage: r.stage, told: Seq::empty() },
    }
}

/// Whether the wait of the stage, if it is one, can be doubled for the next.
pub open spec fn can_go_on(s: StageView) -> bool {
    match s {
        StageView::WaitingToRestart { delay, .. } => 2 * delay <= types::MAX_DELAY_NANOS,
        StageView::WaitingToRedial { delay, .. } => 2 * delay <= types::MAX_DELAY_NANOS,
        _ => true,
    }
}

/// Adds a notice.
fn tell(told: &mut Vec<Notice>, notice: Notice)
    ensures
        final(told).deep_view() == old(told).deep_view().push(notice@),
{
    let ghost before = *told;
    told.push(notice);
    proof {
        text::lemma_deep_push(before, *told, notice);
    }
}

/// No notices.
fn nothing() -> (r: Vec<Notice>)
    ensures
        r.deep_view() == Seq::<NoticeView>::empty(),
{
    let r: Vec<Notice> = Vec::new();
    assert(r.deep_view() =~= Seq::empty());
    r
}

/// The notice of an ICE restart attempt.
fn restart_event(
    client: &Client,
    attempt: u32,
    outcome: ReconnectOutcome,
    error: Option<String>,
) -> (r: Notice)
    ensures
        r@ == restart_notice(client@, attempt, outcome, error.deep_view()),
{
    Notice::Reconnect(
        ReconnectEvent {
            attempt,
            max_attempts: client.config().reconnect_attempts,
            phase: ReconnectPhase::IceRestart,
            outcome,
            error,
        },
    )
}

/// The notice of a redial attempt.
fn redial_event(
    client: &Client,
    attempt: u32,
    outcome: ReconnectOutcome,
    error: Option<String>,
) -> (r: Notice)
    ensures
        r@ == redial_notice(client@, attempt, outcome, error.deep_view()),
{
    Notice::Reconnect(
        ReconnectEvent {
            attempt,
            max_attempts: client.config().resume_attempts,
            phase: ReconnectPhase::Resume,
            outcome,
            error,
        },
    )
}

/// The failure of a recovery whose last ICE restart was number `attempt`.
fn restart_failed(client: &Client, attempt: u32, why: String) -> (r: Notice)
    ensures
        r@ == restart_failure(client@, attempt, why@),
{
    restart_event(client, attempt, ReconnectOutcome::Failed, Some(why))
}

/// The failure of a recovery that could not even begin.
fn nothing_left(client: &Client) -> (r: Notice)
    ensures
        r@ == nothing_to_try(client@),
{
    if client.config().resume_attempts == 0 {
        let why = "reconnecting is disabled".to_owned();
        redial_event(client, 0, ReconnectOutcome::Failed, Some(why))
    } else {
        let why = "no resume token to redial with".to_owned();
        redial_event(client, 1, ReconnectOutcome::Failed, Some(why))
    }
}

/// Enters the resume phase; `failure` is what is told if it is given up at once.
fn enter_resume_phase(
    client: &mut Client,
    generation: u64,
    told: &mut Vec<Notice>,
    failure: Notice,
) -> (r: Stage)
    ensures
        (Progress { client: final(client)@, stage: r@, told: final(told).deep_view() })
            == resume_phase(old(client)@, generation, old(told).deep_view(), failure@),
{
    if client.generation() != generation {
        client.set_reconnecting(false);
        return Stage::Finished;
    }
    let token = client.resume_token();
    if client.config().resume_attempts == 0 || token.as_str().is_empty() {
        client.set_status(ConnectionStatus::Disconnected);
        client.set_reconnecting(false);
        tell(told, Notice::Status(ConnectionStatus::Disconnected));
        tell(told, failure);
        return Stage::Finished;
    }
    Stage::WaitingToRedial { attempt: 1, delay: client.config().resume_delay, token }
}

impl Recovery {
    /// Begins to recover, unless a recovery is in flight already. The notices
    /// are what the caller is to be told.
    pub fn begin(client: &mut Client) -> (r: Option<(Recovery, Vec<Notice>)>)
        ensures
            r is None == old(client)@.reconnecting,
            r is None ==> final(client)@ == old(client)@,
            r matches Some((recovery, told)) ==> {
                &&& recovery.generation == old(client)@.generation
                &&& (Progress {
                    client: final(client)@,
                    stage: recovery.stage@,
                    told: told.deep_view(),
                }) == recovery_start(old(client)@)
            },
    {
        if client.reconnecting() {
            return None;
        }
        client.set_reconnecting(true);
        client.set_status(ConnectionStatus::Reconnecting);
        let generation: u64 = client.generation();
        let mut told = nothing();
        tell(&mut told, Notice::Status(ConnectionStatus::Reconnecting));
        assert(told.deep_view() =~= seq![NoticeView::Status(ConnectionStatus::Reconnecting)]);
        let stage = if client.config().reconnect_attempts == 0 {
            let failure = nothing_left(client);
            enter_resume_phase(client, generation, &mut told, failure)
        } else {
            Stage::WaitingToRestart { attempt: 1, delay: client.config().reconnect_delay }
        };
        Some((Recovery { generation, stage }, told))
    }

    /// Whether [`step`](Recovery::step) can go on from here: a wait that cannot
    /// be doubled any more is too long to go on.
    pub fn can_step(&self) -> (r: bool)
        ensures
            r == can_go_on(self@.stage),
    {
        match &self.stage {
            Stage::WaitingToRestart { delay, .. } => delay.can_double(),
            Stage::WaitingToRedial { delay, .. } => delay.can_double(),
            _ => true,
        }
    }

    /// Takes in an event. The notices are what the caller is to be told.
    pub fn step(self, client: &mut Client, event: RecoveryEvent) -> (r: (Recovery, Vec<Notice>))
        requires
            can_go_on(self@.stage),
        ensures
            r.0.generation == self.generation,
            (Progress { client: final(client)@, stage: r.0.stage@, told: r.1.deep_view() })
                == recovery_step(old(client)@, self@, event@),
    {
        let generation: u64 = self.generation;
        let mut told = nothing();
        let stage = match (self.stage, event) {
            (Stage::WaitingToRestart { attempt, delay }, RecoveryEvent::Waited { peer }) =>
                Self::waited(client, generation, attempt, delay, peer, &mut told),
            (Stage::Restarting { attempt, delay }, RecoveryEvent::Restarted(result)) =>
                Self::restarted(client, generation, attempt, delay, result, &mut told),
            (
                Stage::WaitingToRedial { attempt, delay, token },
                RecoveryEvent::WaitedToRedial { alive },
            ) => {
                if client.abandons(generation) || !alive {
                    client.set_reconnecting(false);
                    Stage::Finished
                } else {
                    tell(
                        &mut told,
                        redial_event(client, attempt, ReconnectOutcome::Attempting, None),
                    );
                    Stage::Redialing { attempt, delay: delay.doubled(), token }
                }
            },
            (Stage::Redialing { attempt, delay, token }, RecoveryEvent::Redialed(result)) =>
                Self::redialed(client, attempt, delay, token, result, &mut told),
            (stage, _) => stage,
        };
        let r = (Recovery { generation, stage }, told);
        assert((Progress { client: client@, stage: r.0.stage@, told: r.1.deep_view() })
            =~= recovery_step(old(client)@, self@, event@));
        r
    }

    /// After the wait before an ICE restart.
    fn waited(
        client: &mut Client,
        generation: u64,
        attempt: u32,
        delay: Delay,
        peer: Option<PeerState>,
        told: &mut Vec<Notice>,
    ) -> (r: Stage)
        requires
            old(told).deep_view().len() == 0,
            2 * delay@ <= types::MAX_DELAY_NANOS,
        ensures
            (Progress { client: final(client)@, stage: r@, told: final(told).deep_view() })
                =~= after_wait(old(client)@, generation, attempt, delay@, peer),
    {
        assert(told.deep_view() =~= Seq::empty());
        if client.abandons(generation) {
            client.set_reconnecting(false);
            return Stage::Finished;
        }
        match peer {
            None => {
                let why = "the peer connection is gone".to_owned();
                let failure = restart_failed(client, attempt, why);
                enter_resume_phase(client, generation, told, failure)
            },
            Some(PeerState::Closed) => {
                client.set_reconnecting(false);
                Stage::Finished
            },
            Some(PeerState::Failed) => {
                let why = "the peer connection failed".to_owned();
                let failure = restart_failed(client, attempt, why);
                enter_resume_phase(client, generation, told, failure)
            },
            Some(PeerState::Connected) => {
                // Healed on its own during the wait.
                client.set_status(ConnectionStatus::Connected);
                client.set_reconnecting(false);
                tell(told, Notice::Status(ConnectionStatus::Connected));
                tell(told, restart_event(client, attempt, ReconnectOutcome::Recovered, None));
                Stage::Finished
            },
            Some(_) => {
                tell(told, restart_event(client, attempt, ReconnectOutcome::Attempting, None));
                Stage::Restarting { attempt, delay: delay.doubled() }
            },
        }
    }

    /// After an ICE restart.
    fn restarted(
        client: &mut Client,
        generation: u64,
        attempt: u32,
        delay: Delay,
        result: Result<(), WhipError>,
        told: &mut Vec<Notice>,
    ) -> (r: Stage)
        requires
            old(told).deep_view().len() == 0,
        ensures
            (Progress { client: final(client)@, stage: r@, told: final(told).deep_view() })
                =~= after_restart(
                old(client)@,
                generation,
                attempt,
                delay@,
                text::result_view(result),
            ),
    {
        assert(told.deep_view() =~= Seq::empty());
        match result {
            Ok(_) => {
                // ICE still has to complete its checks: the move back to
                // connected comes from the peer connection.
                tell(told, restart_event(client, attempt, ReconnectOutcome::Recovered, None));
                client.set_reconnecting(false);
                Stage::Finished
            },
            Err(e) => {
                let failure = restart_failed(client, attempt, e.message());
                if !e.restart_retryable() {
                    return enter_resume_phase(client, generation, told, failure);
                }
                if let WhipError::RestartRejected { current_etag, .. } = e {
                    if !current_etag.as_str().is_empty() {
                        client.set_etag(current_etag);
                    }
                }
                if attempt >= client.config().reconnect_attempts {
                    enter_resume_phase(client, generation, told, failure)
                } else {
                    Stage::WaitingToRestart { attempt: attempt + 1, delay }
                }
            },
        }
    }

    /// After a redial.
    fn redialed(
        client: &mut Client,
        attempt: u32,
        delay: Delay,
        token: String,
        result: Result<(), ClientError>,
        told: &mut Vec<Notice>,
    ) -> (r: Stage)
        requires
            old(told).deep_view().len() == 0,
        ensures
            (Progress { client: final(client)@, stage: r@, told: final(told).deep_view() })
                =~= after_redial(old(client)@, attempt, delay@, token@, text::result_view(result)),
    {
        assert(told.deep_view() =~= Seq::empty());
        match result {
            Ok(_) => {
                let outcome = if client.resumed() {
                    ReconnectOutcome::Recovered
                } else {
                    ReconnectOutcome::RecoveredWithoutHistory
                };
                tell(told, redial_event(client, attempt, outcome, None));
                client.set_reconnecting(false);
                Stage::Finished
            },
            Err(e) => {
                if attempt >= client.config().resume_attempts {
                    client.set_status(ConnectionStatus::Disconnected);
                    tell(told, Notice::Status(ConnectionStatus::Disconnected));
                    let why = Some(e.message());
                    tell(told, redial_event(client, attempt, ReconnectOutcome::Failed, why));
                    client.set_reconnecting(false);
                    Stage::Finished
                } else {
                    Stage::WaitingToRedial { attempt: attempt + 1, delay, token }
                }
            },
        }
    }
}

} // verus!
