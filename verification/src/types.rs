//! The types that the client's callers see.
use vstd::prelude::*;

use crate::text;

verus! {

/// Current state of the voice agent connection.
#[derive(Debug, Clone, Copy, PartialEq, Eq, Structural)]
pub enum ConnectionStatus {
    Idle,
    Connecting,
    Connected,
    /// The transport dropped and recovery is in flight. The session, and with
    /// it the conversation, is still alive on the server: this is not a
    /// terminal state and usually resolves back to `Connected`.
    Reconnecting,
    Error,
    Disconnected,
}

impl ConnectionStatus {
    /// The status in words.
    pub open spec fn name(self) -> Seq<char> {
        match self {
            ConnectionStatus::Idle => "idle"@,
            ConnectionStatus::Connecting => "connecting"@,
            ConnectionStatus::Connected => "connected"@,
            ConnectionStatus::Reconnecting => "reconnecting"@,
            ConnectionStatus::Error => "error"@,
            ConnectionStatus::Disconnected => "disconnected"@,
        }
    }

    /// The status in words.
    pub fn to_string(&self) -> (r: String)
        ensures
            r@ == self.name(),
    {
        match self {
            ConnectionStatus::Idle => "idle".to_owned(),
            ConnectionStatus::Connecting => "connecting".to_owned(),
            ConnectionStatus::Connected => "connected".to_owned(),
            ConnectionStatus::Reconnecting => "reconnecting".to_owned(),
            ConnectionStatus::Error => "error".to_owned(),
            ConnectionStatus::Disconnected => "disconnected".to_owned(),
        }
    }
}

/// Which recovery mechanism an attempt used.
#[derive(Debug, Clone, Copy, PartialEq, Eq, Structural)]
pub enum ReconnectPhase {
    /// Keeps the existing transport alive. Only possible while the connection
    /// is `Disconnected`; nothing above the transport notices.
    IceRestart,
    /// Rebuilds the transport and reattaches it to the same server-side
    /// conversation. The only option once the connection has `Failed`.
    Resume,
}

/// Where a recovery attempt got to.
#[derive(Debug, Clone, Copy, PartialEq, Eq, Structural)]
pub enum ReconnectOutcome {
    Attempting,
    Recovered,
    /// The call works but the server could not resume the session, so the
    /// agent has forgotten the conversation and will not know what was already
    /// said. Worth surfacing to the user rather than only logging.
    RecoveredWithoutHistory,
    Failed,
}

/// Progress of the recovery sequence.
#[derive(Debug, Clone)]
pub struct ReconnectEvent {
    /// 1-based attempt number, counted within the phase; zero where the phase
    /// allows no attempt.
    pub attempt: u32,
    /// Attempts this phase makes before moving on or giving up.
    pub max_attempts: u32,
    /// Which mechanism this attempt used.
    pub phase: ReconnectPhase,
    pub outcome: ReconnectOutcome,
    /// Why the attempt failed, when `outcome` is `Failed`.
    pub error: Option<String>,
}

/// What a [`ReconnectEvent`] says.
#[verifier::ext_equal]
pub struct ReconnectEventView {
    pub attempt: u32,
    pub max_attempts: u32,
    pub phase: ReconnectPhase,
    pub outcome: ReconnectOutcome,
    pub error: Option<Seq<char>>,
}

impl View for ReconnectEvent {
    type V = ReconnectEventView;

    open spec fn view(&self) -> ReconnectEventView {
        ReconnectEventView {
            attempt: self.attempt,
            max_attempts: self.max_attempts,
            phase: self.phase,
            outcome: self.outcome,
            error: self.error.deep_view(),
        }
    }
}

/// A single transcript message in the conversation.
#[derive(Debug)]
pub struct TranscriptEntry {
    /// `"user"` or `"assistant"`.
    pub role: String,
    pub text: String,
    /// Whether the text may still change.
    pub partial: bool,
}

/// What a [`TranscriptEntry`] says.
#[verifier::ext_equal]
pub struct EntryView {
    pub role: Seq<char>,
    pub text: Seq<char>,
    pub partial: bool,
}

impl View for TranscriptEntry {
    type V = EntryView;

    open spec fn view(&self) -> EntryView {
        EntryView { role: self.role@, text: self.text@, partial: self.partial }
    }
}

impl DeepView for TranscriptEntry {
    type V = EntryView;

    open spec fn deep_view(&self) -> EntryView {
        self@
    }
}

impl Clone for TranscriptEntry {
    fn clone(&self) -> (r: Self)
        ensures
            r@ == self@,
    {
        TranscriptEntry {
            role: self.role.clone(),
            text: self.text.clone(),
            partial: self.partial,
        }
    }
}

/// Server-reported state of the voice agent pipeline.
#[derive(Debug, Clone, Copy, PartialEq, Eq, Structural)]
pub enum AgentState {
    Listening,
    Thinking,
    Speaking,
}

impl AgentState {
    /// The state in words.
    pub open spec fn name(self) -> Seq<char> {
        match self {
            AgentState::Listening => "listening"@,
            AgentState::Thinking => "thinking"@,
            AgentState::Speaking => "speaking"@,
        }
    }

    /// The state that `s` names, if it names one.
    pub open spec fn named(s: Seq<char>) -> Option<AgentState> {
        if s == AgentState::Listening.name() {
            Some(AgentState::Listening)
        } else if s == AgentState::Thinking.name() {
            Some(AgentState::Thinking)
        } else if s == AgentState::Speaking.name() {
            Some(AgentState::Speaking)
        } else {
            None
        }
    }

    /// The state that `s` names, if it names one.
    pub fn from_str(s: &str) -> (r: Option<Self>)
        ensures
            r == AgentState::named(s@),
    {
        if text::same_text(s, "listening") {
            Some(AgentState::Listening)
        } else if text::same_text(s, "thinking") {
            Some(AgentState::Thinking)
        } else if text::same_text(s, "speaking") {
            Some(AgentState::Speaking)
        } else {
            None
        }
    }

    /// The state in words.
    pub fn to_string(&self) -> (r: String)
        ensures
            r@ == self.name(),
    {
        match self {
            AgentState::Listening => "listening".to_owned(),
            AgentState::Thinking => "thinking".to_owned(),
            AgentState::Speaking => "speaking".to_owned(),
        }
    }
}

/// A state is read back from its name, and a text that names a state is that
/// state's name.
pub proof fn law_agent_state_names(state: AgentState, s: Seq<char>)
    ensures
        AgentState::named(state.name()) == Some(state),
        AgentState::named(s) == Some(state) ==> s == state.name(),
{
    reveal_strlit("listening");
    reveal_strlit("thinking");
    reveal_strlit("speaking");
    assert("listening"@[0] == 'l' && "thinking"@[0] == 't' && "speaking"@[0] == 's');
}

/// A single latency measurement from the server pipeline.
#[derive(Debug, Clone)]
pub struct TimingEvent {
    pub stage: String,
    pub ms: i64,
}

/// A message received on the WebRTC data channel.
#[derive(Debug, Clone)]
pub struct DataChannelMessage {
    /// `"transcript"`, `"response"`, `"error"`, `"timing"` or `"state"`.
    pub msg_type: String,
    pub text: String,
    /// Whether a transcript's text will not change any more.
    pub is_final: bool,
    pub message: String,
    pub stage: String,
    pub ms: i64,
    pub state: String,
}

/// A length of time in nanoseconds, at most [`MAX_DELAY_NANOS`].
#[derive(Debug, Clone, Copy, PartialEq, Eq, Structural)]
pub struct Delay {
    nanos: u128,
}

/// The longest [`Delay`]: the largest number of seconds that 64 bits hold, and
/// 999,999,999 nanoseconds.
pub const MAX_DELAY_NANOS: u128 = 18_446_744_073_709_551_615_999_999_999;

impl View for Delay {
    type V = nat;

    closed spec fn view(&self) -> nat {
        self.nanos as nat
    }
}

impl Delay {
    #[verifier::type_invariant]
    spec fn fits(self) -> bool {
        self.nanos <= MAX_DELAY_NANOS
    }

    /// A number of seconds.
    pub fn from_secs(secs: u64) -> (r: Self)
        ensures
            r@ == secs * 1_000_000_000,
    {
        Delay { nanos: secs as u128 * 1_000_000_000 }
    }

    /// A number of nanoseconds, if it is not too large.
    pub fn from_nanos(nanos: u128) -> (r: Option<Self>)
        ensures
            r is Some == (nanos <= MAX_DELAY_NANOS),
            r matches Some(d) ==> d@ == nanos,
    {
        if nanos <= MAX_DELAY_NANOS {
            Some(Delay { nanos })
        } else {
            None
        }
    }

    /// The number of nanoseconds.
    pub fn as_nanos(&self) -> (r: u128)
        ensures
            r == self@,
            r <= MAX_DELAY_NANOS,
    {
        proof {
            use_type_invariant(self);
        }
        self.nanos
    }

    /// Whether twice this is still a delay.
    pub fn can_double(&self) -> (r: bool)
        ensures
            r == (2 * self@ <= MAX_DELAY_NANOS),
    {
        self.nanos <= MAX_DELAY_NANOS / 2
    }

    /// Twice this.
    pub fn doubled(&self) -> (r: Self)
        requires
            2 * self@ <= MAX_DELAY_NANOS,
        ensures
            r@ == 2 * self@,
    {
        Delay { nanos: self.nanos * 2 }
    }
}

/// Configuration for a [`Client`](crate::Client).
#[derive(Debug, Clone)]
pub struct Config {
    /// WHIP signaling endpoint URL.
    /// Defaults to `"http://localhost:8080/whip"`.
    pub whip_endpoint: String,
    /// Optional JWT for authenticating with the WHIP endpoint.
    pub token: Option<String>,
    /// Token endpoint URL. If set, a JWT is fetched from it before each WHIP
    /// connection. Overrides `token` when both are set.
    pub token_url: Option<String>,
    /// API key sent as Bearer header when fetching from `token_url`.
    pub api_key: Option<String>,
    /// Who is on the call: an app user ID, or the number a phone call came
    /// from. The server passes it to an external agent, which can then remember
    /// a caller across separate calls.
    ///
    /// With `token_url` set it goes in the token request body and the server
    /// signs it into the token. Otherwise it goes as a header, which the server
    /// only trusts when there is no signed claim.
    pub resource_id: Option<String>,
    /// ICE server URLs for the WebRTC connection.
    /// Defaults to `["stun:stun.l.google.com:19302"]`.
    pub ice_servers: Vec<String>,
    /// How many ICE restarts to attempt on a dropped connection before the
    /// resume phase takes over. Defaults to 3. Zero disables the phase.
    pub reconnect_attempts: u32,
    /// Wait before the first ICE restart attempt, doubling for each retry.
    /// Defaults to 2s.
    pub reconnect_delay: Delay,
    /// How many times to redial with the session's resume token after ICE
    /// restart is no longer possible. Defaults to 2. Zero disables the phase.
    pub resume_attempts: u32,
    /// Wait before the first resume redial, doubling for each retry. Defaults
    /// to 1s.
    pub resume_delay: Delay,
}

impl Default for Config {
    fn default() -> (r: Self)
        ensures
            r.whip_endpoint@ == "http://localhost:8080/whip"@,
            r.token is None,
            r.token_url is None,
            r.api_key is None,
            r.resource_id is None,
            r.ice_servers.deep_view() == seq!["stun:stun.l.google.com:19302"@],
            r.reconnect_attempts == 3,
            r.reconnect_delay@ == 2_000_000_000,
            r.resume_attempts == 2,
            r.resume_delay@ == 1_000_000_000,
    {
        let mut ice_servers: Vec<String> = Vec::new();
        ice_servers.push("stun:stun.l.google.com:19302".to_owned());
        assert(ice_servers.deep_view() =~= seq!["stun:stun.l.google.com:19302"@]);
        Config {
            whip_endpoint: "http://localhost:8080/whip".to_owned(),
            token: None,
            token_url: None,
            api_key: None,
            resource_id: None,
            ice_servers,
            reconnect_attempts: 3,
            reconnect_delay: Delay::from_secs(2),
            resume_attempts: 2,
            resume_delay: Delay::from_secs(1),
        }
    }
}

} // verus!
