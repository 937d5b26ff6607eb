//! What connecting, disconnecting and the peer connection make of a client.
use vstd::prelude::*;

use crate::client;
use crate::client::{ClientErrorView, ClientView, PeerReaction, PeerState};
use crate::types::ConnectionStatus;
use crate::whip::WhipResultView;

verus! {

/// A fresh connect takes a new generation, clears an earlier cancellation and
/// gives up the resume token, and touches nothing else.
pub proof fn law_connect(c: ClientView)
    ensures
        ({
            let after = c.connecting();
            &&& !after.cancelled
            &&& after.generation as int == (c.generation + 1) % 0x1_0000_0000_0000_0000
            &&& after.resume_token.len() == 0
            &&& after.config == c.config && after.status == c.status
            &&& after.conversation == c.conversation && after.session_url == c.session_url
            &&& after.last_token == c.last_token && after.etag == c.etag
            &&& after.resume_status == c.resume_status && after.reconnecting == c.reconnecting
        }),
{
}

/// Disconnecting takes a new generation, cancels what is in flight and leaves
/// nothing of the session, and touches nothing else.
pub proof fn law_disconnect(c: ClientView)
    ensures
        ({
            let after = c.disconnecting();
            &&& after.cancelled
            &&& after.generation as int == (c.generation + 1) % 0x1_0000_0000_0000_0000
            &&& after.session_url.len() == 0 && after.etag.len() == 0
            &&& after.resume_token.len() == 0 && after.resume_status.len() == 0
            &&& after.last_token is None
            &&& after.config == c.config && after.status == c.status
            &&& after.conversation == c.conversation && after.reconnecting == c.reconnecting
        }),
{
}

/// A session brings its URL, its tag, its resume token and whether it was
/// resumed, and touches nothing else.
pub proof fn law_session(c: ClientView, s: WhipResultView)
    ensures
        ({
            let after = c.in_session(s);
            &&& after.session_url == s.session_url && after.etag == s.etag
            &&& after.resume_token == s.resume_token && after.resume_status == s.resume_status
            &&& after.config == c.config && after.status == c.status
            &&& after.conversation == c.conversation && after.last_token == c.last_token
            &&& after.cancelled == c.cancelled && after.reconnecting == c.reconnecting
            &&& after.generation == c.generation
        }),
{
}

/// A recovery has to give up if and only if the client disconnected, or connected
/// or disconnected since the recovery began.
pub proof fn law_when_to_give_up(c: ClientView, generation: u64)
    ensures
        c.abandons(generation) <==> c.cancelled || c.generation != generation,
        client::next_generation(generation) as int == (generation + 1) % 0x1_0000_0000_0000_0000,
{
}

/// The token to authenticate with is the one last used, or else the static one.
pub proof fn law_token(c: ClientView)
    ensures
        c.last_token is Some ==> c.token() == c.last_token,
        c.last_token is None && c.config.token is Some ==> c.token() == Some(c.config.token->0@),
        c.last_token is None && c.config.token is None ==> c.token() is None,
{
}

/// A peer connection that connected makes the client connected, one that dropped
/// or failed calls for recovery, one that closed makes the client disconnected if
/// it is the one in use, and nothing else calls for anything.
pub proof fn law_peer_states(c: ClientView, state: PeerState, live: bool)
    ensures
        ({
            let r = c.reaction(state, live);
            &&& r == PeerReaction::Status(ConnectionStatus::Connected) <==> state is Connected
            &&& r == PeerReaction::Status(ConnectionStatus::Disconnected) <==> state is Closed
                && live
            &&& r == PeerReaction::Recover <==> state is Failed || state is Disconnected
            &&& r == PeerReaction::Ignore <==> state is Unspecified || state is New || state
                is Connecting || (state is Closed && !live)
        }),
{
}

/// What is said of each error: where it came from, and its words.
pub proof fn law_client_error_words(e: ClientErrorView)
    ensures
        e matches ClientErrorView::WebRTC(why) ==> e.message() == "WebRTC error: "@ + why,
        e matches ClientErrorView::Audio(why) ==> e.message() == "Audio error: "@ + why,
        e matches ClientErrorView::Whip(w) ==> e.message() == "WHIP error: "@ + w.message(),
{
}

/// The words for each status.
pub proof fn law_status_words()
    ensures
        ConnectionStatus::Idle.name() == "idle"@,
        ConnectionStatus::Connecting.name() == "connecting"@,
        ConnectionStatus::Connected.name() == "connected"@,
        ConnectionStatus::Reconnecting.name() == "reconnecting"@,
        ConnectionStatus::Error.name() == "error"@,
        ConnectionStatus::Disconnected.name() == "disconnected"@,
{
}

} // verus!
