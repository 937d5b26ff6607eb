//! What is said of a value is what it holds, field by field.
use vstd::prelude::*;

use crate::audio::{Receive, ReceiveView};
use crate::client::{ClientError, ClientErrorView, Notice, NoticeView};
use crate::dial::{Dial, DialEvent, DialEventView, DialView};
use crate::icerestart::IceDetails;
use crate::recovery::{Recovery, RecoveryEvent, RecoveryEventView, Stage, StageView};
use crate::restart::{IceRestart, IceRestartEvent, IceRestartEventView, IceRestartView};
use crate::types::{ReconnectEvent, TranscriptEntry};
use crate::whip::{
    HttpRequest, HttpResponse, WhipError, WhipErrorView, WhipRestartResult, WhipResult,
};

verus! {

/// An entry, an event and ICE details say what they hold.
pub proof fn law_records_say_what_they_hold(
    entry: TranscriptEntry,
    event: ReconnectEvent,
    details: IceDetails,
)
    ensures
        entry@.role == entry.role@ && entry@.text == entry.text@ && entry@.partial == entry.partial,
        entry.deep_view() == entry@,
        event@.attempt == event.attempt && event@.max_attempts == event.max_attempts,
        event@.phase == event.phase && event@.outcome == event.outcome,
        event@.error == event.error.deep_view(),
        details@.ufrag == details.ufrag@ && details@.pwd == details.pwd@,
        details@.candidates == details.candidates.deep_view(),
{
}

/// A request and a reply say what they hold.
pub proof fn law_messages_say_what_they_hold(request: HttpRequest, reply: HttpResponse)
    ensures
        request@.method == request.method && request@.url == request.url@,
        request@.query == request.query.deep_view(),
        request@.headers == request.headers.deep_view(),
        request@.body == request.body.deep_view(),
        request.deep_view() == request@,
        reply@.status == reply.status,
        reply@.headers == reply.headers.deep_view(),
        reply.body matches Ok(b) ==> reply@.body == Ok::<Seq<char>, Seq<char>>(b@),
        reply.body matches Err(e) ==> reply@.body == Err::<Seq<char>, Seq<char>>(e@),
{
}

/// What signaling brought says what it holds.
pub proof fn law_results_say_what_they_hold(
    session: WhipResult,
    restart: WhipRestartResult,
    e: WhipError,
)
    ensures
        session@.answer_sdp == session.answer_sdp@,
        session@.session_url == session.session_url@,
        session@.etag == session.etag@,
        session@.resume_token == session.resume_token@,
        session@.resume_status == session.resume_status@,
        restart@.fragment == restart.fragment@ && restart@.etag == restart.etag@,
        match e {
            WhipError::Request(why) => e@ == WhipErrorView::Request(why@),
            WhipError::UnexpectedStatus { status, body } => e@ == (WhipErrorView::UnexpectedStatus {
                status,
                body: body@,
            }),
            WhipError::TokenFetch(why) => e@ == WhipErrorView::TokenFetch(why@),
            WhipError::RestartRejected { status, body, current_etag } => e@
                == (WhipErrorView::RestartRejected {
                status,
                body: body@,
                current_etag: current_etag@,
            }),
        },
{
}

/// Errors and notices say what they hold.
pub proof fn law_notices_say_what_they_hold(e: ClientError, n: Notice)
    ensures
        match e {
            ClientError::WebRTC(why) => e@ == ClientErrorView::WebRTC(why@),
            ClientError::Whip(w) => e@ == ClientErrorView::Whip(w@),
            ClientError::Audio(why) => e@ == ClientErrorView::Audio(why@),
        },
        match n {
            Notice::Status(s) => n@ == NoticeView::Status(s),
            Notice::Reconnect(r) => n@ == NoticeView::Reconnect(r@),
        },
        n.deep_view() == n@,
{
}

/// A dial and what comes to it say what they hold.
pub proof fn law_dials_say_what_they_hold(d: Dial, event: DialEvent)
    ensures
        match d {
            Dial::Opening { resume_token } => d@ == (DialView::Opening {
                resume_token: resume_token.deep_view(),
            }),
            Dial::FetchingToken { token_url, api_key, resource_id, offer_sdp, resume_token } => d@
                == (DialView::FetchingToken {
                token_url: token_url@,
                api_key: api_key.deep_view(),
                resource_id: resource_id.deep_view(),
                offer_sdp: offer_sdp@,
                resume_token: resume_token.deep_view(),
            }),
            Dial::Offering { endpoint, offer_sdp, token, resume_token, resource_id } => d@
                == (DialView::Offering {
                endpoint: endpoint@,
                offer_sdp: offer_sdp@,
                token: token.deep_view(),
                resume_token: resume_token.deep_view(),
                resource_id: resource_id.deep_view(),
            }),
            Dial::Answering { answer_sdp } => d@ == (DialView::Answering {
                answer_sdp: answer_sdp@,
            }),
            Dial::Done(Ok(_)) => d@ == DialView::Done(Ok::<(), ClientErrorView>(())),
            Dial::Done(Err(e)) => d@ == DialView::Done(Err::<(), ClientErrorView>(e@)),
        },
        match event {
            DialEvent::Opened(Ok(sdp)) => event@ == DialEventView::Opened(
                Ok::<_, Seq<char>>(sdp.deep_view()),
            ),
            DialEvent::Opened(Err(e)) => event@ == DialEventView::Opened(
                Err::<Option<Seq<char>>, _>(e@),
            ),
            DialEvent::TokenFetched(Ok(t)) => event@ == DialEventView::TokenFetched(
                Ok::<_, WhipErrorView>(t@),
            ),
            DialEvent::TokenFetched(Err(e)) => event@ == DialEventView::TokenFetched(
                Err::<Seq<char>, _>(e@),
            ),
            DialEvent::Offered(Ok(s)) => event@ matches DialEventView::Offered(Ok(v)) && v == s@,
            DialEvent::Offered(Err(e)) => event@ matches DialEventView::Offered(Err(v)) && v == e@,
            DialEvent::Answered(Ok(_)) => event@ == DialEventView::Answered(Ok::<(), Seq<char>>(())),
            DialEvent::Answered(Err(e)) => event@ == DialEventView::Answered(
                Err::<(), Seq<char>>(e@),
            ),
        },
{
}

/// A restart and what comes to it say what they hold.
pub proof fn law_restarts_say_what_they_hold(s: IceRestart, event: IceRestartEvent)
    ensures
        match s {
            IceRestart::ReadingRemote => s@ == IceRestartView::ReadingRemote,
            IceRestart::CreatingOffer { remote_sdp } => s@ == (IceRestartView::CreatingOffer {
                remote_sdp: remote_sdp@,
            }),
            IceRestart::SettingOffer { remote_sdp } => s@ == (IceRestartView::SettingOffer {
                remote_sdp: remote_sdp@,
            }),
            IceRestart::ReadingLocal { remote_sdp } => s@ == (IceRestartView::ReadingLocal {
                remote_sdp: remote_sdp@,
            }),
            IceRestart::Patching { remote_sdp, session_url, fragment, etag, token } => s@
                == (IceRestartView::Patching {
                remote_sdp: remote_sdp@,
                session_url: session_url@,
                fragment: fragment@,
                etag: etag@,
                token: token.deep_view(),
            }),
            IceRestart::ParsingAnswer { answer_sdp, etag } => s@ == (IceRestartView::ParsingAnswer {
                answer_sdp: answer_sdp@,
                etag: etag@,
            }),
            IceRestart::SettingAnswer { etag } => s@ == (IceRestartView::SettingAnswer {
                etag: etag@,
            }),
            IceRestart::Done(Ok(_)) => s@ == IceRestartView::Done(Ok::<(), WhipErrorView>(())),
            IceRestart::Done(Err(e)) => s@ == IceRestartView::Done(Err::<(), WhipErrorView>(e@)),
        },
        match event {
            IceRestartEvent::RemoteRead(r) => event@ == IceRestartEventView::RemoteRead(
                r.deep_view(),
            ),
            IceRestartEvent::LocalRead(r) => event@ == IceRestartEventView::LocalRead(
                r.deep_view(),
            ),
            IceRestartEvent::OfferCreated(Ok(_)) => event@ matches IceRestartEventView::OfferCreated(
                Ok(_),
            ),
            IceRestartEvent::OfferCreated(Err(e)) => event@
                matches IceRestartEventView::OfferCreated(Err(v)) && v == e@,
            IceRestartEvent::OfferSet(Ok(_)) => event@ matches IceRestartEventView::OfferSet(Ok(_)),
            IceRestartEvent::OfferSet(Err(e)) => event@ matches IceRestartEventView::OfferSet(
                Err(v),
            ) && v == e@,
            IceRestartEvent::Replied(Ok(r)) => event@ matches IceRestartEventView::Replied(Ok(v))
                && v == r@,
            IceRestartEvent::Replied(Err(e)) => event@ matches IceRestartEventView::Replied(Err(v))
                && v == e@,
            IceRestartEvent::AnswerParsed(Ok(_)) => event@ matches IceRestartEventView::AnswerParsed(
                Ok(_),
            ),
            IceRestartEvent::AnswerParsed(Err(e)) => event@
                matches IceRestartEventView::AnswerParsed(Err(v)) && v == e@,
            IceRestartEvent::AnswerSet(Ok(_)) => event@ matches IceRestartEventView::AnswerSet(
                Ok(_),
            ),
            IceRestartEvent::AnswerSet(Err(e)) => event@ matches IceRestartEventView::AnswerSet(
                Err(v),
            ) && v == e@,
        },
{
}

/// A recovery and what comes to it say what they hold.
pub proof fn law_recoveries_say_what_they_hold(r: Recovery, event: RecoveryEvent)
    ensures
        r@.generation == r.generation,
        match r.stage {
            Stage::WaitingToRestart { attempt, delay } => r@.stage == (
            StageView::WaitingToRestart { attempt, delay: delay@ }),
            Stage::Restarting { attempt, delay } => r@.stage == (StageView::Restarting {
                attempt,
                delay: delay@,
            }),
            Stage::WaitingToRedial { attempt, delay, token } => r@.stage == (
            StageView::WaitingToRedial { attempt, delay: delay@, token: token@ }),
            Stage::Redialing { attempt, delay, token } => r@.stage == (StageView::Redialing {
                attempt,
                delay: delay@,
                token: token@,
            }),
            Stage::Finished => r@.stage == StageView::Finished,
        },
        r.stage@ == r@.stage,
        match event {
            RecoveryEvent::Waited { peer } => event@ == (RecoveryEventView::Waited { peer }),
            RecoveryEvent::Restarted(Ok(_)) => event@ matches RecoveryEventView::Restarted(Ok(_)),
            RecoveryEvent::Restarted(Err(e)) => event@ matches RecoveryEventView::Restarted(Err(v))
                && v == e@,
            RecoveryEvent::WaitedToRedial { alive } => event@ == (
            RecoveryEventView::WaitedToRedial { alive }),
            RecoveryEvent::Redialed(Ok(_)) => event@ matches RecoveryEventView::Redialed(Ok(_)),
            RecoveryEvent::Redialed(Err(e)) => event@ matches RecoveryEventView::Redialed(Err(v))
                && v == e@,
        },
{
}

/// Receiving says what it holds.
pub proof fn law_receiving_says_what_it_holds(s: Receive)
    ensures
        match s {
            Receive::Looking => s@ == ReceiveView::Looking,
            Receive::AwaitingTrack => s@ == ReceiveView::AwaitingTrack,
            Receive::LookingAgain => s@ == ReceiveView::LookingAgain,
            Receive::Reading { track } => s@ == (ReceiveView::Reading { track }),
            Receive::LookingForReplacement { track, why } => s@ == (
            ReceiveView::LookingForReplacement { track, why: why@ }),
            Receive::AwaitingReplacement { track, why } => s@ == (
            ReceiveView::AwaitingReplacement { track, why: why@ }),
            Receive::Decoding { track } => s@ == (ReceiveView::Decoding { track }),
            Receive::Done(Ok(n)) => s@ == ReceiveView::Done(Ok::<usize, ClientErrorView>(n)),
            Receive::Done(Err(e)) => s@ == ReceiveView::Done(Err::<usize, ClientErrorView>(e@)),
        },
{
}

} // verus!
