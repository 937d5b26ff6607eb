//! What holds of every recovery.
use vstd::prelude::*;

use crate::client::{ClientView, NoticeView, PeerState};
use crate::recovery;
use crate::recovery::{Progress, RecoveryEventView, RecoveryView, StageView};
use crate::types::{Config, ConnectionStatus, ReconnectOutcome};

verus! {

/// `base` doubled `n` times.
pub open spec fn backoff(base: nat, n: nat) -> nat
    decreases n,
{
    if n == 0 {
        base
    } else {
        2 * backoff(base, (n - 1) as nat)
    }
}

/// Whether a stage is where the configuration lets it be: attempts count from
/// one up to the phase's maximum, the wait before attempt number `k` is the
/// phase's delay doubled `k - 1` times, and a redial has something to resume
/// with.
pub open spec fn on_schedule(config: Config, s: StageView) -> bool {
    match s {
        StageView::WaitingToRestart { attempt, delay } => {
            &&& 1 <= attempt <= config.reconnect_attempts
            &&& delay == backoff(config.reconnect_delay@, (attempt - 1) as nat)
        },
        StageView::Restarting { attempt, delay } => {
            &&& 1 <= attempt <= config.reconnect_attempts
            &&& delay == backoff(config.reconnect_delay@, attempt as nat)
        },
        StageView::WaitingToRedial { attempt, delay, token } => {
            &&& 1 <= attempt <= config.resume_attempts
            &&& delay == backoff(config.resume_delay@, (attempt - 1) as nat)
            &&& token.len() > 0
        },
        StageView::Redialing { attempt, delay, token } => {
            &&& 1 <= attempt <= config.resume_attempts
            &&& delay == backoff(config.resume_delay@, attempt as nat)
            &&& token.len() > 0
        },
        StageView::Finished => true,
    }
}

/// Every recovery starts and stays on schedule.
pub proof fn law_recovery_on_schedule(c: ClientView, r: RecoveryView, event: RecoveryEventView)
    ensures
        on_schedule(c.config, recovery::recovery_start(c).stage),
        on_schedule(c.config, r.stage) ==> on_schedule(
            c.config,
            recovery::recovery_step(c, r, event).stage,
        ),
        recovery::recovery_start(c).client.config == c.config,
        recovery::recovery_step(c, r, event).client.config == c.config,
{
    reveal_with_fuel(backoff, 2);
}

/// Whether `event` is what the stage waits for.
pub open spec fn answers(s: StageView, event: RecoveryEventView) -> bool {
    match s {
        StageView::WaitingToRestart { .. } => event is Waited,
        StageView::Restarting { .. } => event is Restarted,
        StageView::WaitingToRedial { .. } => event is WaitedToRedial,
        StageView::Redialing { .. } => event is Redialed,
        StageView::Finished => false,
    }
}

/// How many more events a recovery can wait for.
pub open spec fn events_left(config: Config, s: StageView) -> int {
    let restarts = config.reconnect_attempts as int;
    let redials = config.resume_attempts as int;
    match s {
        StageView::WaitingToRestart { attempt, .. } => 2 * (restarts - attempt) + 2 + 2 * redials,
        StageView::Restarting { attempt, .. } => 2 * (restarts - attempt) + 1 + 2 * redials,
        StageView::WaitingToRedial { attempt, .. } => 2 * (redials - attempt) + 2,
        StageView::Redialing { attempt, .. } => 2 * (redials - attempt) + 1,
        StageView::Finished => 0,
    }
}

/// Every recovery ends: it waits for at most two events per attempt that the
/// configuration allows, each brings it closer to its end, and no other event
/// changes or tells anything.
pub proof fn law_recovery_ends(c: ClientView, r: RecoveryView, event: RecoveryEventView)
    requires
        on_schedule(c.config, r.stage),
    ensures
        0 <= events_left(c.config, recovery::recovery_start(c).stage) <= 2
            * c.config.reconnect_attempts + 2 * c.config.resume_attempts,
        events_left(c.config, r.stage) >= 0,
        events_left(c.config, r.stage) == 0 <==> r.stage is Finished,
        answers(r.stage, event) ==> events_left(
            c.config,
            recovery::recovery_step(c, r, event).stage,
        ) < events_left(c.config, r.stage),
        !answers(r.stage, event) ==> recovery::recovery_step(c, r, event) == (Progress {
            client: c,
            stage: r.stage,
            told: Seq::empty(),
        }),
{
}

/// The stage that a recovery of `generation` reaches from `s` by `steps`: each
/// is the client as it was by then, and the event.
pub open spec fn stage_after(
    generation: u64,
    s: StageView,
    steps: Seq<(ClientView, RecoveryEventView)>,
) -> StageView
    decreases steps.len(),
{
    if steps.len() == 0 {
        s
    } else {
        let stage = stage_after(generation, s, steps.drop_last());
        recovery::recovery_step(
            steps.last().0,
            RecoveryView { generation, stage },
            steps.last().1,
        ).stage
    }
}

/// Whether each of `steps` brings what the recovery waits for by then.
pub open spec fn all_answer(
    generation: u64,
    s: StageView,
    steps: Seq<(ClientView, RecoveryEventView)>,
) -> bool
    decreases steps.len(),
{
    steps.len() > 0 ==> {
        &&& all_answer(generation, s, steps.drop_last())
        &&& answers(stage_after(generation, s, steps.drop_last()), steps.last().1)
    }
}

/// However the client fares meanwhile, a recovery is over after at most two
/// events per attempt, and on schedule until then.
pub proof fn law_recovery_is_bounded(
    start: ClientView,
    steps: Seq<(ClientView, RecoveryEventView)>,
)
    requires
        forall|i: int|
            0 <= i < steps.len() ==> (#[trigger] steps[i]).0.config == start.config,
        all_answer(start.generation, recovery::recovery_start(start).stage, steps),
    ensures
        ({
            let last = stage_after(
                start.generation,
                recovery::recovery_start(start).stage,
                steps,
            );
            &&& on_schedule(start.config, last)
            &&& events_left(start.config, last) >= 0
            &&& steps.len() + events_left(start.config, last) <= 2 * start.config.reconnect_attempts
                + 2 * start.config.resume_attempts
        }),
    decreases steps.len(),
{
    let first = recovery::recovery_start(start).stage;
    if steps.len() == 0 {
        law_recovery_on_schedule(
            start,
            RecoveryView { generation: start.generation, stage: first },
            RecoveryEventView::WaitedToRedial { alive: true },
        );
    } else {
        let front = steps.drop_last();
        assert forall|i: int| 0 <= i < front.len() implies (#[trigger] front[i]).0.config
            == start.config by {
            assert(front[i] == steps[i]);
        }
        law_recovery_is_bounded(start, front);
        assert(steps[steps.len() - 1] == steps.last());
        let r = RecoveryView {
            generation: start.generation,
            stage: stage_after(start.generation, first, front),
        };
        law_recovery_on_schedule(steps.last().0, r, steps.last().1);
        law_recovery_ends(steps.last().0, r, steps.last().1);
    }
}

/// A recovery changes the status only by ending: to connected when the peer
/// connection healed by itself, and to disconnected when the call is lost.
pub proof fn law_recovery_status(c: ClientView, r: RecoveryView, event: RecoveryEventView)
    ensures
        ({
            let after = recovery::recovery_step(c, r, event);
            &&& !(after.stage is Finished) ==> after.client.status == c.status
            &&& after.client.status == c.status || after.client.status
                == ConnectionStatus::Disconnected || (after.client.status
                == ConnectionStatus::Connected && event == RecoveryEventView::Waited {
                peer: Some(PeerState::Connected),
            })
        }),
{
}

/// A call is told lost only when nothing is left to try: there is nothing to
/// resume with, redialing is disabled, or the last redial failed. A client that
/// connected anew is never told so by an earlier recovery, unless its last
/// redial was under way by then.
pub proof fn law_lost_only_when_exhausted(c: ClientView, r: RecoveryView, event: RecoveryEventView)
    requires
        on_schedule(c.config, r.stage),
        recovery::recovery_step(c, r, event).told.contains(
            NoticeView::Status(ConnectionStatus::Disconnected),
        ),
    ensures
        recovery::recovery_step(c, r, event).stage is Finished,
        match r.stage {
            StageView::Redialing { attempt, .. } => attempt == c.config.resume_attempts && (
            event matches RecoveryEventView::Redialed(Err(_))),
            StageView::WaitingToRestart { .. } | StageView::Restarting { .. } => r.generation
                == c.generation && (c.config.resume_attempts == 0 || c.resume_token.len() == 0),
            _ => false,
        },
{
}

/// Attempts are told with their number within the phase and the phase's
/// maximum, when they are made: `Attempting` is told exactly when a restart or
/// a redial begins.
pub proof fn law_attempts_are_told(c: ClientView, r: RecoveryView, event: RecoveryEventView)
    requires
        on_schedule(c.config, r.stage),
    ensures
        ({
            let after = recovery::recovery_step(c, r, event);
            &&& after.stage is Restarting && after.stage != r.stage ==> {
                &&& after.stage->Restarting_attempt <= c.config.reconnect_attempts
                &&& after.told == seq![
                    recovery::restart_notice(
                        c,
                        after.stage->Restarting_attempt,
                        ReconnectOutcome::Attempting,
                        None,
                    ),
                ]
            }
            &&& after.stage is Redialing && after.stage != r.stage ==> {
                &&& after.stage->Redialing_attempt <= c.config.resume_attempts
                &&& after.told == seq![
                    recovery::redial_notice(
                        c,
                        after.stage->Redialing_attempt,
                        ReconnectOutcome::Attempting,
                        None,
                    ),
                ]
            }
            &&& forall|i: int|
                0 <= i < after.told.len() && (#[trigger] after.told[i] matches
                    NoticeView::Reconnect(e) && e.outcome is Attempting) ==> after.stage
                    is Restarting || after.stage is Redialing
        }),
{
}

/// A client that connected anew or disconnected is left alone: after its next
/// wait the recovery ends, tells nothing, and changes nothing but that it is
/// over.
pub proof fn law_abandoned_recovery_is_silent(
    c: ClientView,
    r: RecoveryView,
    event: RecoveryEventView,
)
    requires
        c.abandons(r.generation),
        r.stage is WaitingToRestart || r.stage is WaitingToRedial,
        answers(r.stage, event),
    ensures
        recovery::recovery_step(c, r, event) == recovery::finish(c, Seq::empty()),
{
}

/// Whether the agent still has the conversation is never hidden: a redial that
/// works is told as recovered if and only if the server said that it resumed
/// the session, and as recovered without history otherwise.
pub proof fn law_lost_history_is_told(
    c: ClientView,
    generation: u64,
    attempt: u32,
    delay: nat,
    token: Seq<char>,
)
    ensures
        ({
            let after = recovery::recovery_step(
                c,
                RecoveryView {
                    generation,
                    stage: StageView::Redialing { attempt, delay, token },
                },
                RecoveryEventView::Redialed(Ok(())),
            );
            &&& after.stage is Finished
            &&& after.told.len() == 1
            &&& after.told[0] matches NoticeView::Reconnect(e)
            &&& e.phase is Resume
            &&& e.attempt == attempt
            &&& e.outcome is Recovered <==> c.resume_status == "resumed"@
            &&& e.outcome is RecoveredWithoutHistory <==> c.resume_status != "resumed"@
        }),
{
}

/// Zero attempts disable a phase: no restart is ever waited for without restart
/// attempts, and no redial without redial attempts or a resume token.
pub proof fn law_zero_disables_phase(c: ClientView, r: RecoveryView, event: RecoveryEventView)
    requires
        on_schedule(c.config, r.stage),
    ensures
        ({
            let start = recovery::recovery_start(c).stage;
            let next = recovery::recovery_step(c, r, event).stage;
            &&& c.config.reconnect_attempts == 0 ==> !(start is WaitingToRestart) && !(next
                is WaitingToRestart) && !(next is Restarting)
            &&& c.config.resume_attempts == 0 ==> !(start is WaitingToRedial) && !(next
                is WaitingToRedial) && !(next is Redialing)
            &&& c.resume_token.len() == 0 && (r.stage is WaitingToRestart || r.stage
                is Restarting) ==> !(next is WaitingToRedial)
        }),
{
}

/// The restart phase comes first: it is where a recovery starts unless it is
/// disabled, and once it is left it is never entered again.
pub proof fn law_restart_phase_first(c: ClientView, r: RecoveryView, event: RecoveryEventView)
    ensures
        c.config.reconnect_attempts > 0 ==> recovery::recovery_start(c).stage
            is WaitingToRestart,
        r.stage is WaitingToRedial || r.stage is Redialing || r.stage is Finished ==> {
            let next = recovery::recovery_step(c, r, event).stage;
            !(next is WaitingToRestart) && !(next is Restarting)
        },
{
}

/// A recovery that starts marks the client as recovering, which keeps a second
/// one from starting, and clears the mark exactly when it ends.
pub proof fn law_one_recovery_at_a_time(c: ClientView, r: RecoveryView, event: RecoveryEventView)
    ensures
        recovery::recovery_start(c).client.reconnecting == !(recovery::recovery_start(c).stage
            is Finished),
        c.reconnecting && !(r.stage is Finished) ==> recovery::recovery_step(
            c,
            r,
            event,
        ).client.reconnecting == !(recovery::recovery_step(c, r, event).stage is Finished),
{
}

/// The caller is told of every change of status: the status that is told last is
/// the client's, and where none is told the client's has not changed.
pub proof fn law_status_is_told(c: ClientView, r: RecoveryView, event: RecoveryEventView)
    ensures
        status_after(c.status, recovery::recovery_step(c, r, event).told)
            == recovery::recovery_step(c, r, event).client.status,
        status_after(c.status, recovery::recovery_start(c).told) == recovery::recovery_start(
            c,
        ).client.status,
{
    reveal_with_fuel(status_after, 4);
    let told = recovery::recovery_step(c, r, event).told;
    if told.len() > 0 {
        let front = told.drop_last();
        if front.len() > 0 {
            assert(front.drop_last() =~= Seq::empty());
        }
    }
    let start = recovery::recovery_start(c).told;
    if start.len() > 1 {
        assert(start.drop_last().last() == NoticeView::Status(ConnectionStatus::Disconnected));
    }
}

/// The status that a caller who knew `status` knows after these notices.
pub open spec fn status_after(status: ConnectionStatus, told: Seq<NoticeView>) -> ConnectionStatus
    decreases told.len(),
{
    if told.len() == 0 {
        status
    } else {
        match told.last() {
            NoticeView::Status(s) => s,
            _ => status_after(status, told.drop_last()),
        }
    }
}

/// Whether `n` says that a recovery failed, and why.
pub open spec fn is_failure(n: NoticeView) -> bool {
    n matches NoticeView::Reconnect(e) && e.outcome is Failed && e.error is Some
}

/// A lost call can be told from a recoverable drop: whenever the caller is told
/// that the connection is gone, the last thing told is that the recovery failed
/// and why, and it is told a failure at no other time.
pub proof fn law_lost_call_is_told(c: ClientView, r: RecoveryView, event: RecoveryEventView)
    ensures
        ({
            let start = recovery::recovery_start(c).told;
            let told = recovery::recovery_step(c, r, event).told;
            let gone = NoticeView::Status(ConnectionStatus::Disconnected);
            &&& start.contains(gone) ==> is_failure(start.last())
            &&& told.contains(gone) ==> is_failure(told.last())
            &&& forall|i: int|
                0 <= i < start.len() && is_failure(#[trigger] start[i]) ==> i == start.len() - 1
                    && i > 0 && start[i - 1] == gone
            &&& forall|i: int|
                0 <= i < told.len() && is_failure(#[trigger] told[i]) ==> i == told.len() - 1
                    && i > 0 && told[i - 1] == gone
        }),
{
}

/// The outcome of a recovery is told once, when it is known: a recovery that ends
/// tells it last and not before, unless the client moved on, closed its peer
/// connection or was dropped; one that goes on tells none.
pub proof fn law_outcome_is_told(c: ClientView, r: RecoveryView, event: RecoveryEventView)
    requires
        !(r.stage is Finished),
        !c.abandons(r.generation),
        event != (RecoveryEventView::Waited { peer: Some(PeerState::Closed) }),
        event != (RecoveryEventView::WaitedToRedial { alive: false }),
    ensures
        ({
            let after = recovery::recovery_step(c, r, event);
            &&& after.stage is Finished ==> after.told.len() > 0 && is_outcome(after.told.last())
            &&& forall|i: int|
                0 <= i < after.told.len() && is_outcome(#[trigger] after.told[i]) ==> after.stage
                    is Finished && i == after.told.len() - 1
        }),
{
}

/// Whether `n` says how a recovery ended.
pub open spec fn is_outcome(n: NoticeView) -> bool {
    n matches NoticeView::Reconnect(e) && !(e.outcome is Attempting)
}

/// Whether an event is numbered within its phase, from one up to the phase's
/// maximum, and says why if and only if it is a failure. Where the phase allows
/// no attempt the number is zero.
pub open spec fn is_numbered(n: NoticeView) -> bool {
    n matches NoticeView::Reconnect(e) ==> {
        &&& e.attempt <= e.max_attempts
        &&& e.attempt == 0 ==> e.max_attempts == 0
        &&& e.outcome is Failed <==> e.error is Some
    }
}

/// Every event that a recovery tells is numbered within its phase, and none but
/// a failure comes with a reason.
pub proof fn law_events_are_numbered(c: ClientView, r: RecoveryView, event: RecoveryEventView)
    requires
        on_schedule(c.config, r.stage),
    ensures
        ({
            let start = recovery::recovery_start(c).told;
            let told = recovery::recovery_step(c, r, event).told;
            &&& forall|i: int| 0 <= i < start.len() ==> is_numbered(#[trigger] start[i])
            &&& forall|i: int| 0 <= i < told.len() ==> is_numbered(#[trigger] told[i])
        }),
{
}

/// A redial that ends the recovery has its outcome told, last and once; a
/// failure comes with its reason.
pub proof fn law_redial_outcome_is_told(
    c: ClientView,
    r: RecoveryView,
    event: RecoveryEventView,
)
    requires
        r.stage is Redialing,
        event is Redialed,
        recovery::recovery_step(c, r, event).stage is Finished,
    ensures
        ({
            let told = recovery::recovery_step(c, r, event).told;
            &&& told.len() > 0
            &&& told.last() matches NoticeView::Reconnect(e)
            &&& !(e.outcome is Attempting)
            &&& e.outcome is Failed <==> (event matches RecoveryEventView::Redialed(Err(_)))
            &&& event matches RecoveryEventView::Redialed(Err(why)) ==> e.error == Some(
                why.message(),
            ) && recovery::recovery_step(c, r, event).client.status
                == ConnectionStatus::Disconnected
        }),
{
}

/// A recovery itself never touches the conversation, the session or the
/// credentials: all it changes is the status, the mark that it is under way and,
/// when a restart was turned down, the tag of the ICE session.
pub proof fn law_recovery_keeps_conversation(
    c: ClientView,
    r: RecoveryView,
    event: RecoveryEventView,
)
    ensures
        ({
            let after = recovery::recovery_step(c, r, event).client;
            &&& after == (ClientView {
                status: after.status,
                reconnecting: after.reconnecting,
                etag: after.etag,
                ..c
            })
            &&& after.etag != c.etag ==> r.stage is Restarting
        }),
{
}

} // verus!
