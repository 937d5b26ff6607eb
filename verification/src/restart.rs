//! One ICE restart round-trip against an existing peer connection, step by
//! step.
use vstd::prelude::*;

use crate::client::{Client, ClientView};
use crate::icerestart;
use crate::text;
use crate::whip::{WhipError, WhipErrorView, WhipRestartResult, WhipRestartResultView};

verus! {

/// What an ICE restart is waiting for.
#[derive(Debug)]
pub enum IceRestart {
    /// The remote description of the peer connection.
    ReadingRemote,
    /// An offer that reopens gathering.
    CreatingOffer { remote_sdp: String },
    /// The peer connection to take the offer, and candidates to be gathered.
    SettingOffer { remote_sdp: String },
    /// The local description of the peer connection.
    ReadingLocal { remote_sdp: String },
    /// The server's reply to the fragment.
    Patching {
        remote_sdp: String,
        session_url: String,
        fragment: String,
        etag: String,
        token: Option<String>,
    },
    /// The WebRTC stack to read the answer.
    ParsingAnswer { answer_sdp: String, etag: String },
    /// The peer connection to take the answer, which brings it back to stable.
    SettingAnswer { etag: String },
    /// Nothing any more.
    Done(Result<(), WhipError>),
}

/// What an [`IceRestart`] says.
#[verifier::ext_equal]
pub enum IceRestartView {
    ReadingRemote,
    CreatingOffer { remote_sdp: Seq<char> },
    SettingOffer { remote_sdp: Seq<char> },
    ReadingLocal { remote_sdp: Seq<char> },
    Patching {
        remote_sdp: Seq<char>,
        session_url: Seq<char>,
        fragment: Seq<char>,
        etag: Seq<char>,
        token: Option<Seq<char>>,
    },
    ParsingAnswer { answer_sdp: Seq<char>, etag: Seq<char> },
    SettingAnswer { etag: Seq<char> },
    Done(Result<(), WhipErrorView>),
}

impl View for IceRestart {
    type V = IceRestartView;

    open spec fn view(&self) -> IceRestartView {
        match self {
            IceRestart::ReadingRemote => IceRestartView::ReadingRemote,
            IceRestart::CreatingOffer { remote_sdp } => IceRestartView::CreatingOffer {
                remote_sdp: remote_sdp@,
            },
            IceRestart::SettingOffer { remote_sdp } => IceRestartView::SettingOffer {
                remote_sdp: remote_sdp@,
            },
            IceRestart::ReadingLocal { remote_sdp } => IceRestartView::ReadingLocal {
                remote_sdp: remote_sdp@,
            },
            IceRestart::Patching { remote_sdp, session_url, fragment, etag, token } =>
                IceRestartView::Patching {
                remote_sdp: remote_sdp@,
                session_url: session_url@,
                fragment: fragment@,
                etag: etag@,
                token: token.deep_view(),
            },
            IceRestart::ParsingAnswer { answer_sdp, etag } => IceRestartView::ParsingAnswer {
                answer_sdp: answer_sdp@,
                etag: etag@,
            },
            IceRestart::SettingAnswer { etag } => IceRestartView::SettingAnswer { etag: etag@ },
            IceRestart::Done(result) => IceRestartView::Done(
                match result {
                    Ok(()) => Ok(()),
                    Err(e) => Err(e@),
                },
            ),
        }
    }
}

/// Something that an ICE restart was waiting for. A failure comes with the
/// WebRTC stack's words.
#[derive(Debug)]
pub enum IceRestartEvent {
    RemoteRead(Option<String>),
    OfferCreated(Result<(), String>),
    OfferSet(Result<(), String>),
    LocalRead(Option<String>),
    Replied(Result<WhipRestartResult, WhipError>),
    AnswerParsed(Result<(), String>),
    AnswerSet(Result<(), String>),
}

/// What an [`IceRestartEvent`] says.
pub enum IceRestartEventView {
    RemoteRead(Option<Seq<char>>),
    OfferCreated(Result<(), Seq<char>>),
    OfferSet(Result<(), Seq<char>>),
    LocalRead(Option<Seq<char>>),
    Replied(Result<WhipRestartResultView, WhipErrorView>),
    AnswerParsed(Result<(), Seq<char>>),
    AnswerSet(Result<(), Seq<char>>),
}

impl View for IceRestartEvent {
    type V = IceRestartEventView;

    open spec fn view(&self) -> IceRestartEventView {
        match self {
            IceRestartEvent::RemoteRead(r) => IceRestartEventView::RemoteRead(r.deep_view()),
            IceRestartEvent::OfferCreated(r) => IceRestartEventView::OfferCreated(
                text::result_view(*r),
            ),
            IceRestartEvent::OfferSet(r) => IceRestartEventView::OfferSet(text::result_view(*r)),
            IceRestartEvent::LocalRead(r) => IceRestartEventView::LocalRead(r.deep_view()),
            IceRestartEvent::Replied(r) => IceRestartEventView::Replied(text::result_view(*r)),
            IceRestartEvent::AnswerParsed(r) => IceRestartEventView::AnswerParsed(
                text::result_view(*r),
            ),
            IceRestartEvent::AnswerSet(r) => IceRestartEventView::AnswerSet(text::result_view(*r)),
        }
    }
}

/// A restart that failed for this reason.
pub open spec fn failed(why: Seq<char>) -> IceRestartView {
    IceRestartView::Done(Err(WhipErrorView::TokenFetch(why)))
}

/// Whether taking in `event` cannot raise a session version past its maximum.
pub open spec fn can_take(s: IceRestartView, event: IceRestartEventView) -> bool {
    match (s, event) {
        (
            IceRestartView::Patching { remote_sdp, .. },
            IceRestartEventView::Replied(Ok(reply)),
        ) => icerestart::can_fold(remote_sdp, reply.fragment),
        _ => true,
    }
}

/// The restart after `event`, for a client `c`. An event that the restart was
/// not waiting for changes nothing.
pub open spec fn restart_step(
    c: ClientView,
    s: IceRestartView,
    event: IceRestartEventView,
) -> IceRestartView {
    match (s, event) {
        (IceRestartView::ReadingRemote, IceRestartEventView::RemoteRead(remote)) => match remote {
            Some(remote_sdp) => IceRestartView::CreatingOffer { remote_sdp },
            None => failed("no remote description to restart against"@),
        },
        (
            IceRestartView::CreatingOffer { remote_sdp },
            IceRestartEventView::OfferCreated(created),
        ) => match created {
            Ok(_) => IceRestartView::SettingOffer { remote_sdp },
            Err(e) => failed("create restart offer: "@ + e),
        },
        (IceRestartView::SettingOffer { remote_sdp }, IceRestartEventView::OfferSet(set)) =>
            match set {
            Ok(_) => IceRestartView::ReadingLocal { remote_sdp },
            Err(e) => failed("set restart offer: "@ + e),
        },
        (IceRestartView::ReadingLocal { remote_sdp }, IceRestartEventView::LocalRead(local)) =>
            match local {
            Some(local_sdp) => IceRestartView::Patching {
                remote_sdp,
                session_url: c.session_url,
                fragment: icerestart::sdp_text(
                    icerestart::fragment_lines(icerestart::sdp_lines(local_sdp)),
                ),
                etag: c.etag,
                token: c.token(),
            },
            None => failed("no local description after restart offer"@),
        },
        (IceRestartView::Patching { remote_sdp, .. }, IceRestartEventView::Replied(replied)) =>
            match replied {
            Err(e) => IceRestartView::Done(Err(e)),
            Ok(reply) => match icerestart::folded_answer(remote_sdp, reply.fragment) {
                Some(answer_sdp) => IceRestartView::ParsingAnswer { answer_sdp, etag: reply.etag },
                None => failed("ICE restart reply has no ICE credentials"@),
            },
        },
        (
            IceRestartView::ParsingAnswer { etag, .. },
            IceRestartEventView::AnswerParsed(parsed),
        ) => match parsed {
            Ok(_) => IceRestartView::SettingAnswer { etag },
            Err(e) => failed("parse restart answer: "@ + e),
        },
        (IceRestartView::SettingAnswer { .. }, IceRestartEventView::AnswerSet(set)) => match set {
            Ok(_) => IceRestartView::Done(Ok(())),
            Err(e) => failed("set restart answer: "@ + e),
        },
        _ => s,
    }
}

/// The client after `event`: it takes over the new ICE session's tag when the
/// answer was applied, and changes in nothing else.
pub open spec fn after_restart_step(
    c: ClientView,
    s: IceRestartView,
    event: IceRestartEventView,
) -> ClientView {
    match (s, event) {
        (IceRestartView::SettingAnswer { etag }, IceRestartEventView::AnswerSet(Ok(_))) =>
            ClientView { etag, ..c },
        _ => c,
    }
}

/// A restart that failed for this reason, with words on the details.
fn failed_with(what: &str, details: &str) -> (r: IceRestart)
    ensures
        r@ == failed(what@ + details@),
{
    IceRestart::Done(Err(WhipError::TokenFetch(text::concatenate(what, details))))
}

/// A restart that failed for this reason.
fn failed_because(why: &str) -> (r: IceRestart)
    ensures
        r@ == failed(why@),
{
    IceRestart::Done(Err(WhipError::TokenFetch(why.to_owned())))
}

impl IceRestart {
    /// Begins a restart.
    pub fn begin() -> (r: IceRestart)
        ensures
            r@ == IceRestartView::ReadingRemote,
    {
        IceRestart::ReadingRemote
    }

    /// Whether [`step`](IceRestart::step) can take in `event`.
    pub fn can_take(&self, event: &IceRestartEvent) -> (r: bool)
        ensures
            r == can_take(self@, event@),
    {
        match (self, event) {
            (IceRestart::Patching { remote_sdp, .. }, IceRestartEvent::Replied(Ok(reply))) =>
                icerestart::can_apply_ice_fragment(remote_sdp.as_str(), reply.fragment.as_str()),
            _ => true,
        }
    }

    /// Takes in an event.
    pub fn step(self, client: &mut Client, event: IceRestartEvent) -> (r: IceRestart)
        requires
            can_take(self@, event@),
        ensures
            r@ == restart_step(old(client)@, self@, event@),
            final(client)@ == after_restart_step(old(client)@, self@, event@),
    {
        match (self, event) {
            (IceRestart::ReadingRemote, IceRestartEvent::RemoteRead(remote)) => match remote {
                Some(remote_sdp) => IceRestart::CreatingOffer { remote_sdp },
                None => failed_because("no remote description to restart against"),
            },
            (IceRestart::CreatingOffer { remote_sdp }, IceRestartEvent::OfferCreated(created)) =>
                match created {
                Ok(_) => IceRestart::SettingOffer { remote_sdp },
                Err(e) => failed_with("create restart offer: ", e.as_str()),
            },
            (IceRestart::SettingOffer { remote_sdp }, IceRestartEvent::OfferSet(set)) => match set {
                Ok(_) => IceRestart::ReadingLocal { remote_sdp },
                Err(e) => failed_with("set restart offer: ", e.as_str()),
            },
            (IceRestart::ReadingLocal { remote_sdp }, IceRestartEvent::LocalRead(local)) =>
                match local {
                Some(local_sdp) => IceRestart::Patching {
                    remote_sdp,
                    session_url: client.session_url(),
                    fragment: icerestart::ice_fragment_from_sdp(local_sdp.as_str()),
                    etag: client.etag(),
                    token: client.token(),
                },
                None => failed_because("no local description after restart offer"),
            },
            (IceRestart::Patching { remote_sdp, .. }, IceRestartEvent::Replied(replied)) =>
                match replied {
                Err(e) => IceRestart::Done(Err(e)),
                Ok(reply) => match icerestart::apply_ice_fragment(
                    remote_sdp.as_str(),
                    reply.fragment.as_str(),
                ) {
                    Some(answer_sdp) => IceRestart::ParsingAnswer { answer_sdp, etag: reply.etag },
                    None => failed_because("ICE restart reply has no ICE credentials"),
                },
            },
            (IceRestart::ParsingAnswer { etag, .. }, IceRestartEvent::AnswerParsed(parsed)) =>
                match parsed {
                Ok(_) => IceRestart::SettingAnswer { etag },
                Err(e) => failed_with("parse restart answer: ", e.as_str()),
            },
            (IceRestart::SettingAnswer { etag }, IceRestartEvent::AnswerSet(set)) => match set {
                Ok(_) => {
                    client.set_etag(etag);
                    IceRestart::Done(Ok(()))
                },
                Err(e) => failed_with("set restart answer: ", e.as_str()),
            },
            (restart, _) => restart,
        }
    }
}

/// A restart touches nothing above the transport: the client keeps everything
/// but the tag of its ICE session, and that changes only when the restart
/// succeeds.
pub proof fn law_restart_changes_etag_only(
    c: ClientView,
    s: IceRestartView,
    event: IceRestartEventView,
)
    requires
        !(s is Done),
    ensures
        after_restart_step(c, s, event) == (ClientView {
            etag: after_restart_step(c, s, event).etag,
            ..c
        }),
        after_restart_step(c, s, event) != c ==> (restart_step(c, s, event) matches
            IceRestartView::Done(Ok(_))),
{
}

/// Every failure of a restart that the server did not cause can be retried.
pub proof fn law_local_failures_are_retryable(
    c: ClientView,
    s: IceRestartView,
    event: IceRestartEventView,
)
    requires
        !(s is Done),
        !(event is Replied),
    ensures
        restart_step(c, s, event) matches IceRestartView::Done(Err(e)) ==> e.restart_retryable(),
{
}

} // verus!
