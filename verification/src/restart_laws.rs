//! What an ICE restart does with what it learns.
use vstd::prelude::*;

use crate::client::ClientView;
use crate::icerestart;
use crate::restart;
use crate::restart::{IceRestartEventView, IceRestartView};
use crate::whip::{WhipErrorView, WhipRestartResultView};

verus! {

/// A restart PATCHes the fragment of the new local description onto the client's
/// session, with the client's tag and token, once the peer connection has made
/// and taken an offer.
pub proof fn law_restart_sends_fragment(c: ClientView, remote: Seq<char>, local: Seq<char>)
    ensures
        ({
            let s0 = IceRestartView::ReadingRemote;
            let s1 = restart::restart_step(c, s0, IceRestartEventView::RemoteRead(Some(remote)));
            let s2 = restart::restart_step(c, s1, IceRestartEventView::OfferCreated(Ok(())));
            let s3 = restart::restart_step(c, s2, IceRestartEventView::OfferSet(Ok(())));
            let s4 = restart::restart_step(c, s3, IceRestartEventView::LocalRead(Some(local)));
            &&& s1 is CreatingOffer && s2 is SettingOffer && s3 is ReadingLocal
            &&& s4 == IceRestartView::Patching {
                remote_sdp: remote,
                session_url: c.session_url,
                fragment: icerestart::sdp_text(
                    icerestart::fragment_lines(icerestart::sdp_lines(local)),
                ),
                etag: c.etag,
                token: c.token(),
            }
        }),
{
}

/// The server's reply is folded into the remote description that the restart
/// began with; the folded answer is read, applied, and then, and only then, the
/// reply's tag is the client's.
pub proof fn law_restart_applies_reply(
    c: ClientView,
    remote: Seq<char>,
    url: Seq<char>,
    fragment: Seq<char>,
    etag: Seq<char>,
    token: Option<Seq<char>>,
    reply: WhipRestartResultView,
)
    ensures
        ({
            let s4 = IceRestartView::Patching {
                remote_sdp: remote,
                session_url: url,
                fragment,
                etag,
                token,
            };
            let replied = IceRestartEventView::Replied(Ok(reply));
            let parsed = IceRestartEventView::AnswerParsed(Ok(()));
            let set = IceRestartEventView::AnswerSet(Ok(()));
            let s5 = restart::restart_step(c, s4, replied);
            let s6 = restart::restart_step(c, s5, parsed);
            let s7 = restart::restart_step(c, s6, set);
            match icerestart::folded_answer(remote, reply.fragment) {
                Some(answer) => {
                    &&& s5 == IceRestartView::ParsingAnswer { answer_sdp: answer, etag: reply.etag }
                    &&& s6 == IceRestartView::SettingAnswer { etag: reply.etag }
                    &&& s7 == IceRestartView::Done(Ok::<(), WhipErrorView>(()))
                    &&& restart::after_restart_step(c, s4, replied) == c
                    &&& restart::after_restart_step(c, s5, parsed) == c
                    &&& restart::after_restart_step(c, s6, set) == (ClientView {
                        etag: reply.etag,
                        ..c
                    })
                },
                None => s5 == IceRestartView::Done(
                    Err::<(), _>(
                        WhipErrorView::TokenFetch("ICE restart reply has no ICE credentials"@),
                    ),
                ),
            }
        }),
{
}

/// An answer that was read is applied under its tag, and when it is applied the
/// restart has succeeded and the tag is the client's.
pub proof fn law_answer_is_applied(c: ClientView, answer: Seq<char>, etag: Seq<char>)
    ensures
        ({
            let parsing = IceRestartView::ParsingAnswer { answer_sdp: answer, etag };
            let setting = IceRestartView::SettingAnswer { etag };
            let set = IceRestartEventView::AnswerSet(Ok(()));
            &&& restart::restart_step(c, parsing, IceRestartEventView::AnswerParsed(Ok(())))
                == setting
            &&& restart::restart_step(c, setting, set) == IceRestartView::Done(
                Ok::<(), WhipErrorView>(()),
            )
            &&& restart::after_restart_step(c, setting, set) == (ClientView { etag, ..c })
        }),
{
}

/// Whatever goes wrong ends the restart: an error of signaling as it came, and
/// anything else with words on what failed and why.
pub proof fn law_restart_failures(c: ClientView, s: IceRestartView, why: Seq<char>, e: WhipErrorView)
    ensures
        s is ReadingRemote ==> restart::restart_step(c, s, IceRestartEventView::RemoteRead(None))
            == IceRestartView::Done(
            Err::<(), _>(WhipErrorView::TokenFetch("no remote description to restart against"@)),
        ),
        s is CreatingOffer ==> restart::restart_step(
            c,
            s,
            IceRestartEventView::OfferCreated(Err(why)),
        ) == IceRestartView::Done(
            Err::<(), _>(WhipErrorView::TokenFetch("create restart offer: "@ + why)),
        ),
        s is SettingOffer ==> restart::restart_step(c, s, IceRestartEventView::OfferSet(Err(why)))
            == IceRestartView::Done(
            Err::<(), _>(WhipErrorView::TokenFetch("set restart offer: "@ + why)),
        ),
        s is ReadingLocal ==> restart::restart_step(c, s, IceRestartEventView::LocalRead(None))
            == IceRestartView::Done(
            Err::<(), _>(WhipErrorView::TokenFetch("no local description after restart offer"@)),
        ),
        s is Patching ==> restart::restart_step(c, s, IceRestartEventView::Replied(Err(e)))
            == IceRestartView::Done(Err::<(), _>(e)),
        s is ParsingAnswer ==> restart::restart_step(
            c,
            s,
            IceRestartEventView::AnswerParsed(Err(why)),
        ) == IceRestartView::Done(
            Err::<(), _>(WhipErrorView::TokenFetch("parse restart answer: "@ + why)),
        ),
        s is SettingAnswer ==> restart::restart_step(c, s, IceRestartEventView::AnswerSet(Err(why)))
            == IceRestartView::Done(
            Err::<(), _>(WhipErrorView::TokenFetch("set restart answer: "@ + why)),
        ),
{
}

/// The remote description that a restart began with stays with it until the reply
/// is folded into it.
pub proof fn law_restart_keeps_remote(c: ClientView, remote: Seq<char>)
    ensures
        ({
            let created = restart::restart_step(
                c,
                IceRestartView::CreatingOffer { remote_sdp: remote },
                IceRestartEventView::OfferCreated(Ok(())),
            );
            let set = restart::restart_step(c, created, IceRestartEventView::OfferSet(Ok(())));
            &&& created == IceRestartView::SettingOffer { remote_sdp: remote }
            &&& set == IceRestartView::ReadingLocal { remote_sdp: remote }
        }),
{
}

/// A restart goes on only by what it waits for: anything else changes nothing.
/// The client changes only when an answer was applied.
pub proof fn law_restart_waits(c: ClientView, s: IceRestartView, event: IceRestartEventView)
    ensures
        ({
            let awaited = match s {
                IceRestartView::ReadingRemote => event is RemoteRead,
                IceRestartView::CreatingOffer { .. } => event is OfferCreated,
                IceRestartView::SettingOffer { .. } => event is OfferSet,
                IceRestartView::ReadingLocal { .. } => event is LocalRead,
                IceRestartView::Patching { .. } => event is Replied,
                IceRestartView::ParsingAnswer { .. } => event is AnswerParsed,
                IceRestartView::SettingAnswer { .. } => event is AnswerSet,
                IceRestartView::Done(_) => false,
            };
            &&& !awaited ==> restart::restart_step(c, s, event) == s
            &&& !(s is SettingAnswer && (event matches IceRestartEventView::AnswerSet(Ok(_))))
                ==> restart::after_restart_step(c, s, event) == c
        }),
{
}

/// Every event can be taken in but a reply whose fold would raise a session
/// version past its maximum.
pub proof fn law_what_can_be_taken(s: IceRestartView, event: IceRestartEventView)
    ensures
        !restart::can_take(s, event) <==> (s matches IceRestartView::Patching { remote_sdp, .. } && (
        event matches IceRestartEventView::Replied(Ok(reply)) && !icerestart::can_fold(
            remote_sdp,
            reply.fragment,
        ))),
{
}

} // verus!
