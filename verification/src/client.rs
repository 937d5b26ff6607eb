//! What a client knows of its call, and what each thing that happens makes of
//! it. The transport itself is driven from outside.
use vstd::prelude::*;

use crate::conversation;
use crate::conversation::{Conversation, ConversationView, DcNotice};
use crate::text;
use crate::types::{
    Config, ConnectionStatus, DataChannelMessage, ReconnectEvent, ReconnectEventView,
    TranscriptEntry,
};
use crate::whip::{WhipError, WhipErrorView, WhipResult, WhipResultView};

verus! {

/// Errors that can occur during client operations.
#[derive(Debug)]
pub enum ClientError {
    /// The WebRTC stack failed, with its words.
    WebRTC(String),
    Whip(WhipError),
    Audio(String),
}

/// What a [`ClientError`] says.
#[verifier::ext_equal]
pub enum ClientErrorView {
    WebRTC(Seq<char>),
    Whip(WhipErrorView),
    Audio(Seq<char>),
}

impl View for ClientError {
    type V = ClientErrorView;

    open spec fn view(&self) -> ClientErrorView {
        match self {
            ClientError::WebRTC(e) => ClientErrorView::WebRTC(e@),
            ClientError::Whip(e) => ClientErrorView::Whip(e@),
            ClientError::Audio(e) => ClientErrorView::Audio(e@),
        }
    }
}

impl ClientErrorView {
    /// The error in words.
    pub open spec fn message(self) -> Seq<char> {
        match self {
            ClientErrorView::WebRTC(e) => "WebRTC error: "@ + e,
            ClientErrorView::Whip(e) => "WHIP error: "@ + e.message(),
            ClientErrorView::Audio(e) => "Audio error: "@ + e,
        }
    }
}

impl ClientError {
    /// The error in words.
    pub fn message(&self) -> (r: String)
        ensures
            r@ == self@.message(),
    {
        match self {
            ClientError::WebRTC(e) => text::concatenate("WebRTC error: ", e.as_str()),
            ClientError::Whip(e) => text::concatenate("WHIP error: ", e.message().as_str()),
            ClientError::Audio(e) => text::concatenate("Audio error: ", e.as_str()),
        }
    }
}

/// The state of a peer connection, as the WebRTC stack reports it.
#[derive(Debug, Clone, Copy, PartialEq, Eq, Structural)]
pub enum PeerState {
    Unspecified,
    New,
    Connecting,
    Connected,
    Disconnected,
    Failed,
    Closed,
}

/// Something to tell the caller.
#[derive(Debug)]
pub enum Notice {
    /// The connection status changed.
    Status(ConnectionStatus),
    /// Recovery made progress.
    Reconnect(ReconnectEvent),
}

/// What a [`Notice`] says.
#[verifier::ext_equal]
pub enum NoticeView {
    Status(ConnectionStatus),
    Reconnect(ReconnectEventView),
}

impl View for Notice {
    type V = NoticeView;

    open spec fn view(&self) -> NoticeView {
        match self {
            Notice::Status(s) => NoticeView::Status(*s),
            Notice::Reconnect(e) => NoticeView::Reconnect(e@),
        }
    }
}

impl DeepView for Notice {
    type V = NoticeView;

    open spec fn deep_view(&self) -> NoticeView {
        self@
    }
}

/// What a change of the peer connection's state calls for.
#[derive(Debug, Clone, Copy, PartialEq, Eq, Structural)]
pub enum PeerReaction {
    /// The status changed to this.
    Status(ConnectionStatus),
    /// Recovery has to start.
    Recover,
    Ignore,
}

/// A client's call.
#[derive(Debug)]
pub struct Client {
    config: Config,
    status: ConnectionStatus,
    conversation: Conversation,
    session_url: String,
    /// Most recently used JWT, either the static one or one fetched. Ending the
    /// session reuses it.
    last_token: Option<String>,
    /// ETag of the current ICE session, sent as `If-Match` on a restart.
    etag: String,
    /// Set on disconnecting so an in-flight recovery abandons itself.
    cancelled: bool,
    /// Single-use credential that reattaches a redial to this conversation.
    resume_token: String,
    /// The server's answer on the last offer: "new", "resumed", or "expired".
    resume_status: String,
    /// Whether a recovery is in flight.
    reconnecting: bool,
    /// Bumped by connecting and disconnecting so an in-flight recovery abandons
    /// itself rather than fighting the connection replacing it.
    generation: u64,
}

/// What a [`Client`] knows.
#[verifier::ext_equal]
pub struct ClientView {
    pub config: Config,
    pub status: ConnectionStatus,
    pub conversation: ConversationView,
    pub session_url: Seq<char>,
    pub last_token: Option<Seq<char>>,
    pub etag: Seq<char>,
    pub cancelled: bool,
    pub resume_token: Seq<char>,
    pub resume_status: Seq<char>,
    pub reconnecting: bool,
    pub generation: u64,
}

impl View for Client {
    type V = ClientView;

    closed spec fn view(&self) -> ClientView {
        ClientView {
            config: self.config,
            status: self.status,
            conversation: self.conversation@,
            session_url: self.session_url@,
            last_token: self.last_token.deep_view(),
            etag: self.etag@,
            cancelled: self.cancelled,
            resume_token: self.resume_token@,
            resume_status: self.resume_status@,
            reconnecting: self.reconnecting,
            generation: self.generation,
        }
    }
}

impl ClientView {
    /// The token to authenticate with: the one last used, or else the static
    /// one.
    pub open spec fn token(self) -> Option<Seq<char>> {
        match self.last_token {
            Some(t) => Some(t),
            None => self.config.token.deep_view(),
        }
    }

    /// The client on its way into a new conversation: recoveries of earlier ones
    /// are abandoned, and so is their resume token.
    pub open spec fn connecting(self) -> ClientView {
        ClientView {
            cancelled: false,
            generation: next_generation(self.generation),
            resume_token: Seq::empty(),
            ..self
        }
    }

    /// The client while it ends its session: nothing of the session is left but
    /// the status and the transcript.
    pub open spec fn disconnecting(self) -> ClientView {
        ClientView {
            cancelled: true,
            generation: next_generation(self.generation),
            etag: Seq::empty(),
            resume_token: Seq::empty(),
            resume_status: Seq::empty(),
            session_url: Seq::empty(),
            last_token: None,
            ..self
        }
    }

    /// The client in the session that an offer brought.
    pub open spec fn in_session(self, session: WhipResultView) -> ClientView {
        ClientView {
            session_url: session.session_url,
            etag: session.etag,
            resume_token: session.resume_token,
            resume_status: session.resume_status,
            ..self
        }
    }

    /// Whether a recovery that began in `generation` has to give up because the
    /// client connected anew or disconnected.
    pub open spec fn abandons(self, generation: u64) -> bool {
        self.cancelled || self.generation != generation
    }

    /// What `state` calls for. A connection that is no longer the live one says
    /// nothing by closing.
    pub open spec fn reaction(self, state: PeerState, live: bool) -> PeerReaction {
        match state {
            PeerState::Connected => PeerReaction::Status(ConnectionStatus::Connected),
            PeerState::Closed => if live {
                PeerReaction::Status(ConnectionStatus::Disconnected)
            } else {
                PeerReaction::Ignore
            },
            PeerState::Failed => PeerReaction::Recover,
            PeerState::Disconnected => PeerReaction::Recover,
            _ => PeerReaction::Ignore,
        }
    }
}

/// The generation after `g`.
pub open spec fn next_generation(g: u64) -> u64 {
    if g == u64::MAX {
        0
    } else {
        (g + 1) as u64
    }
}

/// What is needed to end a session on the server.
#[derive(Debug)]
pub struct Teardown {
    pub session_url: String,
    /// The token to authenticate with, if one is at hand.
    pub token: Option<String>,
    /// Where to fetch a token first: the endpoint and the API key for it.
    pub fetch: Option<(String, Option<String>)>,
}

/// A copy of `text`, if it is there.
pub(crate) fn copy_text(text: &Option<String>) -> (r: Option<String>)
    ensures
        r.deep_view() == text.deep_view(),
{
    match text {
        Some(t) => Some(t.clone()),
        None => None,
    }
}

impl Client {
    /// A client that has not connected yet.
    pub fn new(config: Config) -> (r: Self)
        ensures
            r@ == (ClientView {
                config,
                status: ConnectionStatus::Idle,
                conversation: ConversationView { transcript: Seq::empty(), pending: Seq::empty() },
                session_url: Seq::empty(),
                last_token: None,
                etag: Seq::empty(),
                cancelled: false,
                resume_token: Seq::empty(),
                resume_status: Seq::empty(),
                reconnecting: false,
                generation: 0,
            }),
    {
        Client {
            config,
            status: ConnectionStatus::Idle,
            conversation: Conversation::new(),
            session_url: String::new(),
            last_token: None,
            etag: String::new(),
            cancelled: false,
            resume_token: String::new(),
            resume_status: String::new(),
            reconnecting: false,
            generation: 0,
        }
    }

    /// The configuration.
    pub fn config(&self) -> (r: &Config)
        ensures
            *r == self@.config,
    {
        &self.config
    }

    /// Current connection status.
    pub fn status(&self) -> (r: ConnectionStatus)
        ensures
            r == self@.status,
    {
        self.status
    }

    /// Copy of the current conversation transcript.
    pub fn transcript(&self) -> (r: Vec<TranscriptEntry>)
        ensures
            r.deep_view() == self@.conversation.transcript,
            conversation::consistent(self@.conversation),
    {
        self.conversation.transcript()
    }

    /// The URL of the session, empty without one.
    pub fn session_url(&self) -> (r: String)
        ensures
            r@ == self@.session_url,
    {
        self.session_url.clone()
    }

    /// The tag of the current ICE session, empty if none is known.
    pub fn etag(&self) -> (r: String)
        ensures
            r@ == self@.etag,
    {
        self.etag.clone()
    }

    /// The credential that reattaches a redial to this conversation, empty if
    /// there is none.
    pub fn resume_token(&self) -> (r: String)
        ensures
            r@ == self@.resume_token,
    {
        self.resume_token.clone()
    }

    /// Whether the server said that the last offer resumed the conversation.
    pub fn resumed(&self) -> (r: bool)
        ensures
            r == (self@.resume_status == "resumed"@),
    {
        text::same_text(self.resume_status.as_str(), "resumed")
    }

    /// Whether a recovery is in flight.
    pub fn reconnecting(&self) -> (r: bool)
        ensures
            r == self@.reconnecting,
    {
        self.reconnecting
    }

    /// How often the client connected or disconnected.
    pub fn generation(&self) -> (r: u64)
        ensures
            r == self@.generation,
    {
        self.generation
    }

    /// Whether a recovery that began in `generation` has to give up.
    pub fn abandons(&self, generation: u64) -> (r: bool)
        ensures
            r == self@.abandons(generation),
    {
        self.cancelled || self.generation != generation
    }

    /// The token to authenticate with: the one last used, or else the static
    /// one.
    pub fn token(&self) -> (r: Option<String>)
        ensures
            r.deep_view() == self@.token(),
    {
        match &self.last_token {
            Some(t) => Some(t.clone()),
            None => copy_text(&self.config.token),
        }
    }

    /// Sets the status.
    pub(crate) fn set_status(&mut self, status: ConnectionStatus)
        ensures
            final(self)@ == (ClientView { status, ..old(self)@ }),
    {
        self.status = status;
    }

    /// Sets the tag of the current ICE session.
    pub(crate) fn set_etag(&mut self, etag: String)
        ensures
            final(self)@ == (ClientView { etag: etag@, ..old(self)@ }),
    {
        self.etag = etag;
    }

    /// Remembers the token that authenticates the session.
    pub(crate) fn set_last_token(&mut self, token: Option<String>)
        ensures
            final(self)@ == (ClientView { last_token: token.deep_view(), ..old(self)@ }),
    {
        self.last_token = token;
    }

    /// Says whether a recovery is in flight.
    pub(crate) fn set_reconnecting(&mut self, reconnecting: bool)
        ensures
            final(self)@ == (ClientView { reconnecting, ..old(self)@ }),
    {
        self.reconnecting = reconnecting;
    }

    /// Takes over the session that an offer brought, and hands out its answer.
    pub(crate) fn enter_session(&mut self, session: WhipResult) -> (answer_sdp: String)
        ensures
            final(self)@ == old(self)@.in_session(session@),
            answer_sdp@ == session@.answer_sdp,
    {
        self.session_url = session.session_url;
        self.etag = session.etag;
        self.resume_token = session.resume_token;
        self.resume_status = session.resume_status;
        session.answer_sdp
    }

    /// Begins to connect. A fresh connect abandons whatever came before,
    /// including any resume token: this is a new conversation, not a
    /// continuation.
    pub fn connect(&mut self)
        ensures
            final(self)@ == old(self)@.connecting(),
    {
        self.cancelled = false;
        self.generation = self.generation.wrapping_add(1);
        self.resume_token = String::new();
    }

    /// Begins to disconnect, and says what is needed to end the session on the
    /// server.
    ///
    /// Abandons any in-flight recovery, which would otherwise resume a session
    /// that is about to be deleted. The token is the one last used, or else the
    /// static one; without either, one has to be fetched if there is an endpoint
    /// for it, so that ending the session still authenticates.
    pub fn disconnect(&mut self) -> (r: Teardown)
        ensures
            final(self)@ == old(self)@.disconnecting(),
            r.session_url@ == old(self)@.session_url,
            r.token.deep_view() == old(self)@.token(),
            r.fetch.deep_view() == (if old(self)@.token() is None {
                match old(self)@.config.token_url.deep_view() {
                    Some(url) => Some((url, old(self)@.config.api_key.deep_view())),
                    None => None,
                }
            } else {
                None
            }),
    {
        let token = self.token();
        let session_url = self.session_url.clone();
        self.cancelled = true;
        self.generation = self.generation.wrapping_add(1);
        self.etag = String::new();
        self.resume_token = String::new();
        self.resume_status = String::new();
        self.session_url = String::new();
        self.last_token = None;
        let mut fetch: Option<(String, Option<String>)> = None;
        if token.is_none() {
            if let Some(url) = &self.config.token_url {
                fetch = Some((url.clone(), copy_text(&self.config.api_key)));
            }
        }
        Teardown { session_url, token, fetch }
    }

    /// Ends disconnecting.
    pub fn disconnected(&mut self) -> (r: Notice)
        ensures
            final(self)@ == (ClientView { status: ConnectionStatus::Idle, ..old(self)@ }),
            r@ == NoticeView::Status(ConnectionStatus::Idle),
    {
        self.status = ConnectionStatus::Idle;
        Notice::Status(ConnectionStatus::Idle)
    }

    /// Takes in a data channel message and says what it calls for.
    pub fn handle_dc_message(&mut self, msg: &DataChannelMessage) -> (r: DcNotice)
        ensures
            final(self)@ == (ClientView {
                conversation: conversation::after_message(old(self)@.conversation, *msg),
                ..old(self)@
            }),
            conversation::is_notice_of(r, *msg, final(self)@.conversation),
    {
        self.conversation.handle_dc_message(msg)
    }

    /// Takes in a change of a peer connection's state and says what it calls
    /// for; `live` tells whether the connection is the one in use.
    pub fn on_peer_state(&mut self, state: PeerState, live: bool) -> (r: PeerReaction)
        ensures
            r == old(self)@.reaction(state, live),
            final(self)@ == (match r {
                PeerReaction::Status(status) => ClientView { status, ..old(self)@ },
                _ => old(self)@,
            }),
    {
        let reaction = match state {
            PeerState::Connected => PeerReaction::Status(ConnectionStatus::Connected),
            PeerState::Closed => if live {
                PeerReaction::Status(ConnectionStatus::Disconnected)
            } else {
                PeerReaction::Ignore
            },
            PeerState::Failed => PeerReaction::Recover,
            PeerState::Disconnected => PeerReaction::Recover,
            _ => PeerReaction::Ignore,
        };
        if let PeerReaction::Status(status) = reaction {
            self.status = status;
        }
        reaction
    }
}

impl Teardown {
    /// The token to end the session with, where `fetched` is what fetching one
    /// brought, if that was tried and succeeded.
    pub fn delete_token(self, fetched: Option<String>) -> (r: Option<String>)
        ensures
            r.deep_view() == (if self.token is Some {
                self.token.deep_view()
            } else {
                fetched.deep_view()
            }),
    {
        match self.token {
            Some(t) => Some(t),
            None => fetched,
        }
    }
}

/// Connecting and disconnecting abandon every recovery that was in flight, and
/// leave none of its credentials.
pub proof fn law_leaving_abandons_recovery(c: ClientView)
    ensures
        c.connecting().abandons(c.generation),
        c.disconnecting().abandons(c.generation),
        forall|g: u64| c.disconnecting().abandons(g),
        c.connecting().resume_token.len() == 0,
        c.disconnecting().resume_token.len() == 0,
        c.disconnecting().session_url.len() == 0,
        c.disconnecting().etag.len() == 0,
        c.disconnecting().last_token is None,
{
}

/// Neither connecting nor disconnecting touches the conversation, the status or
/// the configuration.
pub proof fn law_leaving_keeps_conversation(c: ClientView)
    ensures
        c.connecting().conversation == c.conversation,
        c.disconnecting().conversation == c.conversation,
        c.connecting().status == c.status,
        c.disconnecting().status == c.status,
        c.connecting().config == c.config,
        c.disconnecting().config == c.config,
{
}

} // verus!
