//! What a dial asks for, from its beginning to its end.
use vstd::prelude::*;

use crate::client::{ClientErrorView, ClientView};
use crate::dial;
use crate::dial::{DialEventView, DialView};
use crate::types::ConnectionStatus;
use crate::whip::{WhipErrorView, WhipResultView};

verus! {

/// A redial is told as reconnecting, and a first connect as connecting.
pub proof fn law_dial_status(resuming: bool)
    ensures
        resuming ==> dial::dial_status(resuming) == ConnectionStatus::Reconnecting,
        !resuming ==> dial::dial_status(resuming) == ConnectionStatus::Connecting,
{
}

/// The dial and the client after it was opened with an offer and, if it then asks
/// for a token, given this one.
pub open spec fn offered(
    c: ClientView,
    resume: Option<Seq<char>>,
    sdp: Seq<char>,
    fetched: Seq<char>,
) -> (ClientView, DialView) {
    let opened = dial::dial_step(
        c,
        DialView::Opening { resume_token: resume },
        DialEventView::Opened(Ok(Some(sdp))),
    );
    if opened.1 is FetchingToken {
        dial::dial_step(opened.0, opened.1, DialEventView::TokenFetched(Ok(fetched)))
    } else {
        opened
    }
}

/// A dial that began with a resume token makes its offer with exactly that one,
/// and one that began without makes it without, whichever way the token to
/// authenticate with came.
pub proof fn law_dial_keeps_resume_token(
    c: ClientView,
    resume: Option<Seq<char>>,
    sdp: Seq<char>,
    fetched: Seq<char>,
)
    ensures
        offered(c, resume, sdp, fetched).1 matches DialView::Offering { resume_token, .. }
            && resume_token == resume,
{
}

/// An offer goes to the configured endpoint with the local description that was
/// opened. It authenticates with the token that was fetched if there is an
/// endpoint for tokens, and with the static one, if any, otherwise. Who is on the
/// call is told with it only if no token was fetched. The token is remembered, and
/// nothing else of the client changes.
pub proof fn law_offer_made(
    c: ClientView,
    resume: Option<Seq<char>>,
    sdp: Seq<char>,
    fetched: Seq<char>,
)
    ensures
        ({
            let (after, d) = offered(c, resume, sdp, fetched);
            &&& d matches DialView::Offering { endpoint, offer_sdp, token, resource_id, .. }
            &&& endpoint == c.config.whip_endpoint@
            &&& offer_sdp == sdp
            &&& c.config.token_url is Some ==> token == Some(fetched) && resource_id is None
            &&& c.config.token_url is None && c.config.token is Some ==> token == Some(
                c.config.token->0@,
            )
            &&& c.config.token_url is None && c.config.token is None ==> token is None
            &&& c.config.token_url is None && c.config.resource_id is Some ==> resource_id == Some(
                c.config.resource_id->0@,
            )
            &&& c.config.resource_id is None ==> resource_id is None
            &&& after == (ClientView { last_token: token, ..c })
        }),
{
}

/// A token is asked for if and only if there is an endpoint for tokens: there,
/// with the configured key and who is on the call, before anything is offered and
/// with the client as it was.
pub proof fn law_token_asked_for(c: ClientView, resume: Option<Seq<char>>, sdp: Seq<char>)
    ensures
        ({
            let opened = dial::dial_step(
                c,
                DialView::Opening { resume_token: resume },
                DialEventView::Opened(Ok(Some(sdp))),
            );
            &&& opened.1 is FetchingToken <==> c.config.token_url is Some
            &&& opened.1 matches DialView::FetchingToken {
                token_url,
                api_key,
                resource_id,
                ..
            } ==> {
                &&& token_url == c.config.token_url->0@
                &&& c.config.api_key is Some <==> api_key is Some
                &&& c.config.api_key is Some ==> api_key == Some(c.config.api_key->0@)
                &&& c.config.resource_id is Some <==> resource_id is Some
                &&& c.config.resource_id is Some ==> resource_id == Some(c.config.resource_id->0@)
                &&& opened.0 == c
            }
        }),
{
}

/// A token that was fetched is what the offer authenticates with; the local
/// description and the resume token are those that the dial had before, and the
/// client remembers the token.
pub proof fn law_fetched_token_is_used(
    c: ClientView,
    url: Seq<char>,
    key: Option<Seq<char>>,
    id: Option<Seq<char>>,
    sdp: Seq<char>,
    resume: Option<Seq<char>>,
    fetched: Seq<char>,
)
    ensures
        ({
            let fetching = DialView::FetchingToken {
                token_url: url,
                api_key: key,
                resource_id: id,
                offer_sdp: sdp,
                resume_token: resume,
            };
            let (after, d) = dial::dial_step(c, fetching, DialEventView::TokenFetched(Ok(fetched)));
            &&& d matches DialView::Offering { endpoint, offer_sdp, token, resume_token, resource_id }
            &&& endpoint == c.config.whip_endpoint@
            &&& offer_sdp == sdp
            &&& token == Some(fetched)
            &&& resume_token == resume
            &&& c.config.token_url is Some ==> resource_id is None
            &&& c.config.token_url is None ==> resource_id == c.config.resource_id.deep_view()
            &&& after == (ClientView { last_token: Some(fetched), ..c })
        }),
{
}

/// A reply to the offer puts the client into its session, with the URL, the tag,
/// the resume token and the resume status of the reply, and its answer is what is
/// applied; the dial has succeeded when it is.
pub proof fn law_session_entered(
    c: ClientView,
    endpoint: Seq<char>,
    sdp: Seq<char>,
    token: Option<Seq<char>>,
    resume: Option<Seq<char>>,
    id: Option<Seq<char>>,
    s: WhipResultView,
)
    ensures
        ({
            let offering = DialView::Offering {
                endpoint,
                offer_sdp: sdp,
                token,
                resume_token: resume,
                resource_id: id,
            };
            let (after, d) = dial::dial_step(c, offering, DialEventView::Offered(Ok(s)));
            &&& d == DialView::Answering { answer_sdp: s.answer_sdp }
            &&& after == (ClientView {
                session_url: s.session_url,
                etag: s.etag,
                resume_token: s.resume_token,
                resume_status: s.resume_status,
                ..c
            })
            &&& dial::dial_step(after, d, DialEventView::Answered(Ok(()))) == (
                after,
                DialView::Done(Ok::<(), ClientErrorView>(())),
            )
        }),
{
}

/// Whatever goes wrong ends the dial with the error that came and leaves the
/// client as it is: an error of the WebRTC stack while opening and answering, one
/// of signaling while fetching a token and offering. A peer connection without a
/// local description is an error too.
pub proof fn law_dial_failures(c: ClientView, d: DialView, why: Seq<char>, e: WhipErrorView)
    ensures
        d is Opening ==> {
            &&& dial::dial_step(c, d, DialEventView::Opened(Err(why))) == (
                c,
                DialView::Done(Err::<(), _>(ClientErrorView::WebRTC(why))),
            )
            &&& dial::dial_step(c, d, DialEventView::Opened(Ok(None))) == (
                c,
                DialView::Done(
                    Err::<(), _>(
                        ClientErrorView::WebRTC(
                            "local description not available after ICE gathering"@,
                        ),
                    ),
                ),
            )
        },
        d is FetchingToken ==> dial::dial_step(c, d, DialEventView::TokenFetched(Err(e))) == (
            c,
            DialView::Done(Err::<(), _>(ClientErrorView::Whip(e))),
        ),
        d is Offering ==> dial::dial_step(c, d, DialEventView::Offered(Err(e))) == (
            c,
            DialView::Done(Err::<(), _>(ClientErrorView::Whip(e))),
        ),
        d is Answering ==> dial::dial_step(c, d, DialEventView::Answered(Err(why))) == (
            c,
            DialView::Done(Err::<(), _>(ClientErrorView::WebRTC(why))),
        ),
{
}

/// A dial goes on only by what it waits for: anything else changes nothing.
pub proof fn law_dial_waits(c: ClientView, d: DialView, event: DialEventView)
    ensures
        ({
            let awaited = match d {
                DialView::Opening { .. } => event is Opened,
                DialView::FetchingToken { .. } => event is TokenFetched,
                DialView::Offering { .. } => event is Offered,
                DialView::Answering { .. } => event is Answered,
                DialView::Done(_) => false,
            };
            !awaited ==> dial::dial_step(c, d, event) == (c, d)
        }),
{
}

/// The error to tell is that of a dial that ended with one, in words.
pub proof fn law_error_to_tell(d: DialView)
    ensures
        d matches DialView::Done(Err(e)) ==> d.error_to_tell() == Some(e.message()),
        !(d matches DialView::Done(Err(_))) ==> d.error_to_tell() is None,
{
}

} // verus!
