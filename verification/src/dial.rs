//! Building a transport and completing WHIP signaling, step by step.
use vstd::prelude::*;

use crate::client;
use crate::client::{Client, ClientError, ClientErrorView, ClientView, Notice, NoticeView};
use crate::types::ConnectionStatus;
use crate::whip;
use crate::whip::{WhipError, WhipErrorView, WhipResult, WhipResultView};

verus! {

/// What a dial is waiting for.
#[derive(Debug)]
pub enum Dial {
    /// A peer connection with its local description, ICE candidates gathered.
    Opening { resume_token: Option<String> },
    /// A token from the token endpoint.
    FetchingToken {
        token_url: String,
        api_key: Option<String>,
        resource_id: Option<String>,
        offer_sdp: String,
        resume_token: Option<String>,
    },
    /// The server's reply to the offer.
    Offering {
        endpoint: String,
        offer_sdp: String,
        token: Option<String>,
        resume_token: Option<String>,
        resource_id: Option<String>,
    },
    /// The peer connection to take the answer.
    Answering { answer_sdp: String },
    /// Nothing any more.
    Done(Result<(), ClientError>),
}

/// What a [`Dial`] says.
#[verifier::ext_equal]
pub enum DialView {
    Opening { resume_token: Option<Seq<char>> },
    FetchingToken {
        token_url: Seq<char>,
        api_key: Option<Seq<char>>,
        resource_id: Option<Seq<char>>,
        offer_sdp: Seq<char>,
        resume_token: Option<Seq<char>>,
    },
    Offering {
        endpoint: Seq<char>,
        offer_sdp: Seq<char>,
        token: Option<Seq<char>>,
        resume_token: Option<Seq<char>>,
        resource_id: Option<Seq<char>>,
    },
    Answering { answer_sdp: Seq<char> },
    Done(Result<(), ClientErrorView>),
}

impl View for Dial {
    type V = DialView;

    open spec fn view(&self) -> DialView {
        match self {
            Dial::Opening { resume_token } => DialView::Opening {
                resume_token: resume_token.deep_view(),
            },
            Dial::FetchingToken { token_url, api_key, resource_id, offer_sdp, resume_token } =>
                DialView::FetchingToken {
                token_url: token_url@,
                api_key: api_key.deep_view(),
                resource_id: resource_id.deep_view(),
                offer_sdp: offer_sdp@,
                resume_token: resume_token.deep_view(),
            },
            Dial::Offering { endpoint, offer_sdp, token, resume_token, resource_id } =>
                DialView::Offering {
                endpoint: endpoint@,
                offer_sdp: offer_sdp@,
                token: token.deep_view(),
                resume_token: resume_token.deep_view(),
                resource_id: resource_id.deep_view(),
            },
            Dial::Answering { answer_sdp } => DialView::Answering { answer_sdp: answer_sdp@ },
            Dial::Done(result) => DialView::Done(
                match result {
                    Ok(()) => Ok(()),
                    Err(e) => Err(e@),
                },
            ),
        }
    }
}

impl DialView {
    /// The error to tell the caller, in words: that of a dial that failed.
    pub open spec fn error_to_tell(self) -> Option<Seq<char>> {
        match self {
            DialView::Done(Err(e)) => Some(e.message()),
            _ => None,
        }
    }
}

/// Something that a dial was waiting for.
#[derive(Debug)]
pub enum DialEvent {
    /// The local description, if the peer connection has one, or the WebRTC
    /// stack's words on what failed.
    Opened(Result<Option<String>, String>),
    TokenFetched(Result<String, WhipError>),
    Offered(Result<WhipResult, WhipError>),
    /// The answer was applied, or the WebRTC stack's words on what failed.
    Answered(Result<(), String>),
}

/// What a [`DialEvent`] says.
pub enum DialEventView {
    Opened(Result<Option<Seq<char>>, Seq<char>>),
    TokenFetched(Result<Seq<char>, WhipErrorView>),
    Offered(Result<WhipResultView, WhipErrorView>),
    Answered(Result<(), Seq<char>>),
}

impl View for DialEvent {
    type V = DialEventView;

    open spec fn view(&self) -> DialEventView {
        match self {
            DialEvent::Opened(r) => DialEventView::Opened(
                match r {
                    Ok(sdp) => Ok(sdp.deep_view()),
                    Err(e) => Err(e@),
                },
            ),
            DialEvent::TokenFetched(r) => DialEventView::TokenFetched(
                crate::text::result_view(*r),
            ),
            DialEvent::Offered(r) => DialEventView::Offered(crate::text::result_view(*r)),
            DialEvent::Answered(r) => DialEventView::Answered(
                match r {
                    Ok(()) => Ok(()),
                    Err(e) => Err(e@),
                },
            ),
        }
    }
}

/// The status while a dial is under way.
pub open spec fn dial_status(resuming: bool) -> ConnectionStatus {
    if resuming {
        ConnectionStatus::Reconnecting
    } else {
        ConnectionStatus::Connecting
    }
}

/// The offer to make with `token`. Who is on the call is told by a header only
/// where no token was fetched: a fetched one has it signed in.
pub open spec fn offering(
    c: ClientView,
    offer_sdp: Seq<char>,
    token: Option<Seq<char>>,
    resume_token: Option<Seq<char>>,
) -> DialView {
    DialView::Offering {
        endpoint: c.config.whip_endpoint@,
        offer_sdp,
        token,
        resume_token,
        resource_id: if c.config.token_url is Some {
            None
        } else {
            c.config.resource_id.deep_view()
        },
    }
}

/// The client and the dial after `event`. An event that the dial was not
/// waiting for changes nothing.
pub open spec fn dial_step(c: ClientView, d: DialView, event: DialEventView) -> (
    ClientView,
    DialView,
) {
    match (d, event) {
        (DialView::Opening { resume_token }, DialEventView::Opened(opened)) => match opened {
            Err(e) => (c, DialView::Done(Err(ClientErrorView::WebRTC(e)))),
            Ok(None) => (
                c,
                DialView::Done(
                    Err(
                        ClientErrorView::WebRTC(
                            "local description not available after ICE gathering"@,
                        ),
                    ),
                ),
            ),
            Ok(Some(offer_sdp)) => match c.config.token_url.deep_view() {
                Some(token_url) => (
                    c,
                    DialView::FetchingToken {
                        token_url,
                        api_key: c.config.api_key.deep_view(),
                        resource_id: c.config.resource_id.deep_view(),
                        offer_sdp,
                        resume_token,
                    },
                ),
                None => {
                    let token = c.config.token.deep_view();
                    (
                        ClientView { last_token: token, ..c },
                        offering(c, offer_sdp, token, resume_token),
                    )
                },
            },
        },
        (
            DialView::FetchingToken { offer_sdp, resume_token, .. },
            DialEventView::TokenFetched(fetched),
        ) => match fetched {
            Err(e) => (c, DialView::Done(Err(ClientErrorView::Whip(e)))),
            Ok(token) => (
                ClientView { last_token: Some(token), ..c },
                offering(c, offer_sdp, Some(token), resume_token),
            ),
        },
        (DialView::Offering { .. }, DialEventView::Offered(offered)) => match offered {
            Err(e) => (c, DialView::Done(Err(ClientErrorView::Whip(e)))),
            Ok(session) => (
                c.in_session(session),
                DialView::Answering { answer_sdp: session.answer_sdp },
            ),
        },
        (DialView::Answering { .. }, DialEventView::Answered(answered)) => match answered {
            Err(e) => (c, DialView::Done(Err(ClientErrorView::WebRTC(e)))),
            Ok(()) => (c, DialView::Done(Ok(()))),
        },
        _ => (c, d),
    }
}

impl Dial {
    /// Begins to dial. With a resume token the server reattaches the new
    /// transport to the conversation the previous one was having; without one
    /// it is an ordinary first connect.
    pub fn begin(client: &mut Client, resume_token: Option<String>) -> (r: (Dial, Notice))
        ensures
            final(client)@ == (ClientView {
                status: dial_status(resume_token is Some),
                ..old(client)@
            }),
            r.0@ == (DialView::Opening { resume_token: resume_token.deep_view() }),
            r.1@ == NoticeView::Status(dial_status(resume_token is Some)),
    {
        let status = if resume_token.is_some() {
            ConnectionStatus::Reconnecting
        } else {
            ConnectionStatus::Connecting
        };
        client.set_status(status);
        (Dial::Opening { resume_token }, Notice::Status(status))
    }

    /// The error to tell the caller, in words: that of a dial that failed.
    pub fn error_to_tell(&self) -> (r: Option<String>)
        ensures
            r.deep_view() == self@.error_to_tell(),
    {
        match self {
            Dial::Done(Err(e)) => Some(e.message()),
            _ => None,
        }
    }

    /// The offer to make with `token`.
    fn offer(
        client: &Client,
        offer_sdp: String,
        token: Option<String>,
        resume_token: Option<String>,
    ) -> (r: Dial)
        ensures
            r@ == offering(client@, offer_sdp@, token.deep_view(), resume_token.deep_view()),
    {
        let config = client.config();
        let resource_id = if config.token_url.is_some() {
            None
        } else {
            client::copy_text(&config.resource_id)
        };
        Dial::Offering {
            endpoint: config.whip_endpoint.clone(),
            offer_sdp,
            token,
            resume_token,
            resource_id,
        }
    }

    /// Takes in an event.
    pub fn step(self, client: &mut Client, event: DialEvent) -> (r: Dial)
        ensures
            (final(client)@, r@) == dial_step(old(client)@, self@, event@),
    {
        match (self, event) {
            (Dial::Opening { resume_token }, DialEvent::Opened(opened)) => match opened {
                Err(e) => Dial::Done(Err(ClientError::WebRTC(e))),
                Ok(None) => Dial::Done(
                    Err(
                        ClientError::WebRTC(
                            "local description not available after ICE gathering".to_owned(),
                        ),
                    ),
                ),
                Ok(Some(offer_sdp)) => {
                    let token_url = client::copy_text(&client.config().token_url);
                    match token_url {
                        Some(token_url) => Dial::FetchingToken {
                            token_url,
                            api_key: client::copy_text(&client.config().api_key),
                            resource_id: client::copy_text(&client.config().resource_id),
                            offer_sdp,
                            resume_token,
                        },
                        None => {
                            let token = client::copy_text(&client.config().token);
                            client.set_last_token(client::copy_text(&token));
                            Dial::offer(client, offer_sdp, token, resume_token)
                        },
                    }
                },
            },
            (
                Dial::FetchingToken { offer_sdp, resume_token, .. },
                DialEvent::TokenFetched(fetched),
            ) => match fetched {
                Err(e) => Dial::Done(Err(ClientError::Whip(e))),
                Ok(token) => {
                    client.set_last_token(Some(token.clone()));
                    Dial::offer(client, offer_sdp, Some(token), resume_token)
                },
            },
            (Dial::Offering { .. }, DialEvent::Offered(offered)) => match offered {
                Err(e) => Dial::Done(Err(ClientError::Whip(e))),
                Ok(session) => Dial::Answering { answer_sdp: client.enter_session(session) },
            },
            (Dial::Answering { .. }, DialEvent::Answered(answered)) => match answered {
                Err(e) => Dial::Done(Err(ClientError::WebRTC(e))),
                Ok(()) => Dial::Done(Ok(())),
            },
            (dial, _) => dial,
        }
    }
}

/// Who is on the call is told exactly once: to the token endpoint if there is
/// one, which signs it into the token, and otherwise with the offer.
pub proof fn law_resource_id_told_once(
    c: ClientView,
    offer_sdp: Seq<char>,
    resume_token: Option<Seq<char>>,
    fetched: Seq<char>,
)
    ensures
        ({
            let id = c.config.resource_id.deep_view();
            let opened = dial_step(
                c,
                DialView::Opening { resume_token },
                DialEventView::Opened(Ok(Some(offer_sdp))),
            );
            match c.config.token_url.deep_view() {
                Some(url) => {
                    let asked = dial_step(
                        opened.0,
                        opened.1,
                        DialEventView::TokenFetched(Ok(fetched)),
                    );
                    &&& opened.1 == DialView::FetchingToken {
                        token_url: url,
                        api_key: c.config.api_key.deep_view(),
                        resource_id: id,
                        offer_sdp,
                        resume_token,
                    }
                    &&& asked.1 matches DialView::Offering { resource_id, .. }
                    &&& resource_id is None
                },
                None => opened.1 matches DialView::Offering { resource_id, .. } && resource_id
                    == id,
            }
        }),
{
}

/// The requests that come of telling who is on the call: with an id, the token
/// request carries it in its body and the offer has a header for it; without
/// one, the token request has no body and the offer no such header.
pub proof fn law_resource_id_on_the_wire(
    url: Seq<char>,
    key: Option<Seq<char>>,
    sdp: Seq<char>,
    token: Option<Seq<char>>,
    resume: Option<Seq<char>>,
    id: Option<Seq<char>>,
)
    ensures
        ({
            let asked = whip::token_request(url, key, id);
            let offered = whip::offer_request(url, sdp, token, resume, id);
            match id {
                Some(i) => {
                    &&& asked.body == Some(whip::token_request_body(i))
                    &&& offered.headers.contains(("X-StreamCore-Resource-Id"@, i))
                },
                None => {
                    &&& asked.body is None
                    &&& forall|v: Seq<char>|
                        !(#[trigger] offered.headers.contains(("X-StreamCore-Resource-Id"@, v)))
                },
            }
        }),
{
    reveal_strlit("X-StreamCore-Resource-Id");
    reveal_strlit("Content-Type");
    reveal_strlit("Authorization");
    let offered = whip::offer_request(url, sdp, token, resume, id);
    match id {
        Some(i) => {
            assert(offered.headers.last() == ("X-StreamCore-Resource-Id"@, i));
            assert(offered.headers[offered.headers.len() - 1] == ("X-StreamCore-Resource-Id"@, i));
        },
        None => {
            let base = seq![("Content-Type"@, "application/sdp"@)] + whip::bearer(token);
            assert(offered.headers =~= base);
            assert("X-StreamCore-Resource-Id"@.len() != "Content-Type"@.len());
            assert("X-StreamCore-Resource-Id"@.len() != "Authorization"@.len());
            assert forall|v: Seq<char>|
                !(#[trigger] offered.headers.contains(("X-StreamCore-Resource-Id"@, v))) by {
                assert forall|i: int| 0 <= i < base.len() implies base[i].0
                    != "X-StreamCore-Resource-Id"@ by {
                    if i > 0 {
                        assert(base[i].0 == "Authorization"@);
                    }
                }
            }
        },
    }
}

/// Whatever token an offer is made with is remembered, and ending the session
/// authenticates with it.
pub proof fn law_session_token_is_remembered(c: ClientView, d: DialView, event: DialEventView)
    ensures
        ({
            let after = dial_step(c, d, event);
            after.1 != d ==> (after.1 matches DialView::Offering { token, .. }
                ==> after.0.last_token == token && (token is Some ==> after.0.token() == token))
        }),
{
}

/// A token that was fetched overrides the static one: with a token endpoint, an
/// offer is made with what the endpoint gave and nothing else.
pub proof fn law_fetched_token_overrides(
    c: ClientView,
    offer_sdp: Seq<char>,
    resume_token: Option<Seq<char>>,
    fetched: Seq<char>,
)
    requires
        c.config.token_url is Some,
    ensures
        ({
            let opened = dial_step(
                c,
                DialView::Opening { resume_token },
                DialEventView::Opened(Ok(Some(offer_sdp))),
            );
            let asked = dial_step(opened.0, opened.1, DialEventView::TokenFetched(Ok(fetched)));
            &&& opened.1 is FetchingToken
            &&& asked.1 matches DialView::Offering { token, .. }
            &&& token == Some(fetched)
        }),
{
}

/// A dial succeeds only by an answer that was applied, and from then on the
/// client is in the session that the server's reply brought.
pub proof fn law_dial_success(c: ClientView, d: DialView, event: DialEventView)
    requires
        !(d is Done),
    ensures
        (dial_step(c, d, event).1 matches DialView::Done(Ok(_))) ==> d is Answering && (event matches
            DialEventView::Answered(Ok(_))) && dial_step(c, d, event).0 == c,
        dial_step(c, d, event).1 is Answering && !(d is Answering) ==> (event matches
            DialEventView::Offered(Ok(session)) && dial_step(c, d, event).0 == c.in_session(
            session,
        )),
{
}

/// Every error that ends a dial is told: a step has an error to tell exactly when
/// it ends the dial without success.
pub proof fn law_dial_error_is_told(c: ClientView, d: DialView, event: DialEventView)
    ensures
        ({
            let after = dial_step(c, d, event).1;
            &&& after.error_to_tell() is Some <==> after is Done && !(after matches DialView::Done(
                Ok(_),
            ))
            &&& after matches DialView::Done(Err(e)) ==> after.error_to_tell() == Some(e.message())
        }),
{
}

/// Dialing leaves the conversation, the generation and the configuration as
/// they are, and never touches a recovery.
pub proof fn law_dial_keeps_conversation(c: ClientView, d: DialView, event: DialEventView)
    ensures
        ({
            let after = dial_step(c, d, event).0;
            &&& after.conversation == c.conversation
            &&& after.generation == c.generation
            &&& after.cancelled == c.cancelled
            &&& after.config == c.config
            &&& after.reconnecting == c.reconnecting
            &&& after.status == c.status
        }),
{
}

} // verus!
