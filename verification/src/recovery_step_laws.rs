//! What each event makes of a recovery.
use vstd::prelude::*;

use crate::client::{ClientErrorView, ClientView, NoticeView, PeerState};
use crate::recovery;
use crate::recovery::{Progress, RecoveryEventView, RecoveryView, StageView};
use crate::types::{ConnectionStatus, ReconnectEventView, ReconnectOutcome, ReconnectPhase};
use crate::whip::WhipErrorView;

verus! {

/// Whether a recovery is over: nothing is in flight any more, and the client has
/// this status and is otherwise `c`.
pub open spec fn is_over(after: Progress, c: ClientView, status: ConnectionStatus) -> bool {
    &&& after.stage is Finished
    &&& after.client == (ClientView { status, reconnecting: false, ..c })
}

/// Whether a recovery of `generation` goes on from the restart phase as it must,
/// having told `before`: silently over if the client moved on, redialing if
/// redials are allowed and there is a token to resume with, and otherwise over
/// with the call lost, which `failure` tells.
pub open spec fn redials_or_loses(
    after: Progress,
    c: ClientView,
    generation: u64,
    before: Seq<NoticeView>,
    failure: ReconnectEventView,
) -> bool {
    &&& c.generation != generation ==> is_over(after, c, c.status) && after.told == before
    &&& c.generation == generation && c.config.resume_attempts > 0 && c.resume_token.len() > 0 ==> {
        &&& after.stage == StageView::WaitingToRedial {
            attempt: 1,
            delay: c.config.resume_delay@,
            token: c.resume_token,
        }
        &&& after.client == c
        &&& after.told == before
    }
    &&& c.generation == generation && (c.config.resume_attempts == 0 || c.resume_token.len() == 0)
        ==> {
        &&& is_over(after, c, ConnectionStatus::Disconnected)
        &&& after.told == before + seq![
            NoticeView::Status(ConnectionStatus::Disconnected),
            NoticeView::Reconnect(failure),
        ]
    }
}

/// A recovery is told as reconnecting, and begins by waiting for the first ICE
/// restart; without restarts it goes straight on to redialing.
pub proof fn law_recovery_begins(c: ClientView)
    ensures
        ({
            let after = recovery::recovery_start(c);
            let begun = ClientView {
                status: ConnectionStatus::Reconnecting,
                reconnecting: true,
                ..c
            };
            let told = seq![NoticeView::Status(ConnectionStatus::Reconnecting)];
            &&& c.config.reconnect_attempts > 0 ==> {
                &&& after.client == begun
                &&& after.told == told
                &&& after.stage == StageView::WaitingToRestart {
                    attempt: 1,
                    delay: c.config.reconnect_delay@,
                }
            }
            &&& c.config.reconnect_attempts == 0 ==> redials_or_loses(
                after,
                begun,
                c.generation,
                told,
                ReconnectEventView {
                    attempt: if c.config.resume_attempts == 0 {
                        0
                    } else {
                        1
                    },
                    max_attempts: c.config.resume_attempts,
                    phase: ReconnectPhase::Resume,
                    outcome: ReconnectOutcome::Failed,
                    error: Some(
                        if c.config.resume_attempts == 0 {
                            "reconnecting is disabled"@
                        } else {
                            "no resume token to redial with"@
                        },
                    ),
                },
            )
        }),
{
    let gone = NoticeView::Status(ConnectionStatus::Disconnected);
    let told = seq![NoticeView::Status(ConnectionStatus::Reconnecting)];
    assert(told.push(gone).push(recovery::nothing_to_try(c)) =~= told + seq![
        gone,
        recovery::nothing_to_try(c),
    ]);
}

/// After the wait before an ICE restart: a client that moved on, or whose peer
/// connection is closed, is left alone; a peer connection that healed is told as
/// recovered; one that failed or is gone is beyond a restart; and any other is
/// restarted, which is told, with twice the wait before the next.
pub proof fn law_after_waiting(
    c: ClientView,
    generation: u64,
    attempt: u32,
    delay: nat,
    peer: Option<PeerState>,
)
    ensures
        ({
            let r = RecoveryView {
                generation,
                stage: StageView::WaitingToRestart { attempt, delay },
            };
            let after = recovery::recovery_step(c, r, RecoveryEventView::Waited { peer });
            let moved_on = c.cancelled || c.generation != generation;
            let told_of = |outcome: ReconnectOutcome, error: Option<Seq<char>>|
                ReconnectEventView {
                    attempt,
                    max_attempts: c.config.reconnect_attempts,
                    phase: ReconnectPhase::IceRestart,
                    outcome,
                    error,
                };
            &&& moved_on || peer == Some(PeerState::Closed) ==> is_over(after, c, c.status)
                && after.told.len() == 0
            &&& !moved_on && peer == Some(PeerState::Connected) ==> {
                &&& is_over(after, c, ConnectionStatus::Connected)
                &&& after.told == seq![
                    NoticeView::Status(ConnectionStatus::Connected),
                    NoticeView::Reconnect(told_of(ReconnectOutcome::Recovered, None)),
                ]
            }
            &&& !moved_on && peer == Some(PeerState::Failed) ==> redials_or_loses(
                after,
                c,
                generation,
                Seq::empty(),
                told_of(ReconnectOutcome::Failed, Some("the peer connection failed"@)),
            )
            &&& !moved_on && peer is None ==> redials_or_loses(
                after,
                c,
                generation,
                Seq::empty(),
                told_of(ReconnectOutcome::Failed, Some("the peer connection is gone"@)),
            )
            &&& !moved_on && peer is Some && (peer->0 is Disconnected || peer->0 is Connecting
                || peer->0 is New || peer->0 is Unspecified) ==> {
                &&& after.stage == StageView::Restarting { attempt, delay: 2 * delay }
                &&& after.client == c
                &&& after.told == seq![
                    NoticeView::Reconnect(told_of(ReconnectOutcome::Attempting, None)),
                ]
            }
        }),
{
    lemma_lost(c, attempt, "the peer connection failed"@);
    lemma_lost(c, attempt, "the peer connection is gone"@);
}

proof fn lemma_lost(c: ClientView, attempt: u32, why: Seq<char>)
    ensures
        ({
            let gone = NoticeView::Status(ConnectionStatus::Disconnected);
            let failure = recovery::restart_failure(c, attempt, why);
            Seq::<NoticeView>::empty().push(gone).push(failure) == Seq::<NoticeView>::empty()
                + seq![gone, failure]
        }),
{
    let gone = NoticeView::Status(ConnectionStatus::Disconnected);
    let failure = recovery::restart_failure(c, attempt, why);
    assert(Seq::<NoticeView>::empty().push(gone).push(failure) =~= Seq::<NoticeView>::empty()
        + seq![gone, failure]);
}

/// The client after a restart failed: where the server turned it down and could
/// be asked again, it takes over the tag that the server reported, if any.
pub open spec fn with_reported_tag(c: ClientView, e: WhipErrorView) -> ClientView {
    match e {
        WhipErrorView::RestartRejected { status, current_etag, .. } => if current_etag.len() > 0
            && status != 404 && status != 405 && status != 409 {
            ClientView { etag: current_etag, ..c }
        } else {
            c
        },
        _ => c,
    }
}

/// After an ICE restart: one that succeeded is told as recovered and ends the
/// recovery. One that failed is never told as recovered: if it can be retried and
/// attempts are left, the next is waited for and nothing is told; if not, the
/// recovery goes on to redialing.
pub proof fn law_after_restart(
    c: ClientView,
    generation: u64,
    attempt: u32,
    delay: nat,
    result: Result<(), WhipErrorView>,
)
    ensures
        ({
            let r = RecoveryView { generation, stage: StageView::Restarting { attempt, delay } };
            let after = recovery::recovery_step(c, r, RecoveryEventView::Restarted(result));
            let told_of = |outcome: ReconnectOutcome, error: Option<Seq<char>>|
                ReconnectEventView {
                    attempt,
                    max_attempts: c.config.reconnect_attempts,
                    phase: ReconnectPhase::IceRestart,
                    outcome,
                    error,
                };
            &&& result is Ok ==> {
                &&& is_over(after, c, c.status)
                &&& after.told == seq![
                    NoticeView::Reconnect(told_of(ReconnectOutcome::Recovered, None)),
                ]
            }
            &&& result matches Err(e) ==> {
                let hopeless = e matches WhipErrorView::RestartRejected { status, .. } && (status
                    == 404 || status == 405 || status == 409);
                &&& !hopeless && attempt < c.config.reconnect_attempts ==> {
                    &&& after.stage == StageView::WaitingToRestart {
                        attempt: (attempt + 1) as u32,
                        delay,
                    }
                    &&& after.client == with_reported_tag(c, e)
                    &&& after.told.len() == 0
                }
                &&& hopeless || attempt >= c.config.reconnect_attempts ==> redials_or_loses(
                    after,
                    with_reported_tag(c, e),
                    generation,
                    Seq::empty(),
                    told_of(ReconnectOutcome::Failed, Some(e.message())),
                )
            }
        }),
{
    if let Err(e) = result {
        lemma_lost(c, attempt, e.message());
    }
}

/// In the restart phase recovery is told only of a restart that succeeded or of a
/// peer connection that was found connected, and of redialing only if a redial
/// succeeded.
pub proof fn law_recovered_only_if_so(c: ClientView, r: RecoveryView, event: RecoveryEventView)
    ensures
        forall|i: int|
            0 <= i < recovery::recovery_step(c, r, event).told.len() && (
            #[trigger] recovery::recovery_step(c, r, event).told[i] matches NoticeView::Reconnect(e)
                && (e.outcome is Recovered || e.outcome is RecoveredWithoutHistory)) ==> {
                ||| r.stage is Restarting && (event matches RecoveryEventView::Restarted(Ok(_)))
                ||| r.stage is WaitingToRestart && event == (RecoveryEventView::Waited {
                    peer: Some(PeerState::Connected),
                })
                ||| r.stage is Redialing && (event matches RecoveryEventView::Redialed(Ok(_)))
            },
{
}

/// After the wait before a redial: a client that moved on or was dropped is left
/// alone, and any other is redialed with the same token, which is told, with
/// twice the wait before the next.
pub proof fn law_after_waiting_to_redial(
    c: ClientView,
    generation: u64,
    attempt: u32,
    delay: nat,
    token: Seq<char>,
    alive: bool,
)
    ensures
        ({
            let r = RecoveryView {
                generation,
                stage: StageView::WaitingToRedial { attempt, delay, token },
            };
            let after = recovery::recovery_step(c, r, RecoveryEventView::WaitedToRedial { alive });
            let left = c.cancelled || c.generation != generation || !alive;
            &&& left ==> is_over(after, c, c.status) && after.told.len() == 0
            &&& !left ==> {
                &&& after.stage == StageView::Redialing { attempt, delay: 2 * delay, token }
                &&& after.client == c
                &&& after.told == seq![
                    NoticeView::Reconnect(
                        ReconnectEventView {
                            attempt,
                            max_attempts: c.config.resume_attempts,
                            phase: ReconnectPhase::Resume,
                            outcome: ReconnectOutcome::Attempting,
                            error: None,
                        },
                    ),
                ]
            }
        }),
{
}

/// After a redial: one that succeeded ends the recovery and is told as recovered,
/// with the history if the server resumed it and without it otherwise. One that
/// failed is tried again with the same token while attempts are left and nothing
/// is told; the last one loses the call, which is told with the reason.
pub proof fn law_after_redial(
    c: ClientView,
    generation: u64,
    attempt: u32,
    delay: nat,
    token: Seq<char>,
    result: Result<(), ClientErrorView>,
)
    ensures
        ({
            let r = RecoveryView {
                generation,
                stage: StageView::Redialing { attempt, delay, token },
            };
            let after = recovery::recovery_step(c, r, RecoveryEventView::Redialed(result));
            let told_of = |outcome: ReconnectOutcome, error: Option<Seq<char>>|
                NoticeView::Reconnect(
                    ReconnectEventView {
                        attempt,
                        max_attempts: c.config.resume_attempts,
                        phase: ReconnectPhase::Resume,
                        outcome,
                        error,
                    },
                );
            &&& result is Ok ==> is_over(after, c, c.status) && after.told.len() == 1
            &&& result is Ok && c.resume_status == "resumed"@ ==> after.told[0] == told_of(
                ReconnectOutcome::Recovered,
                None,
            )
            &&& result is Ok && c.resume_status != "resumed"@ ==> after.told[0] == told_of(
                ReconnectOutcome::RecoveredWithoutHistory,
                None,
            )
            &&& result is Err && attempt < c.config.resume_attempts ==> {
                &&& after.stage == StageView::WaitingToRedial {
                    attempt: (attempt + 1) as u32,
                    delay,
                    token,
                }
                &&& after.client == c
                &&& after.told.len() == 0
            }
            &&& result matches Err(e) ==> attempt >= c.config.resume_attempts ==> {
                &&& is_over(after, c, ConnectionStatus::Disconnected)
                &&& after.told == seq![
                    NoticeView::Status(ConnectionStatus::Disconnected),
                    told_of(ReconnectOutcome::Failed, Some(e.message())),
                ]
            }
        }),
{
}

/// A recovery goes on only by what it waits for: anything else changes and tells
/// nothing.
pub proof fn law_recovery_waits(c: ClientView, r: RecoveryView, event: RecoveryEventView)
    ensures
        ({
            let awaited = match r.stage {
                StageView::WaitingToRestart { .. } => event is Waited,
                StageView::Restarting { .. } => event is Restarted,
                StageView::WaitingToRedial { .. } => event is WaitedToRedial,
                StageView::Redialing { .. } => event is Redialed,
                StageView::Finished => false,
            };
            !awaited ==> recovery::recovery_step(c, r, event) == (Progress {
                client: c,
                stage: r.stage,
                told: Seq::empty(),
            })
        }),
{
}

/// A recovery can go on unless it is waiting and twice its wait is longer than
/// the longest delay.
pub proof fn law_when_it_can_go_on(s: StageView)
    ensures
        recovery::can_go_on(s) <==> {
            &&& s matches StageView::WaitingToRestart { delay, .. } ==> 2 * delay
                <= 18_446_744_073_709_551_615_999_999_999
            &&& s matches StageView::WaitingToRedial { delay, .. } ==> 2 * delay
                <= 18_446_744_073_709_551_615_999_999_999
        },
{
}

} // verus!
