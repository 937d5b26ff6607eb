//! What holds of a client over everything that may happen to it.
use vstd::prelude::*;

use crate::client::{ClientView, PeerReaction, PeerState};
use crate::conversation;
use crate::conversation::ConversationView;
use crate::dial;
use crate::dial::{DialEventView, DialView};
use crate::recovery;
use crate::recovery::{RecoveryEventView, RecoveryView};
use crate::restart;
use crate::restart::{IceRestartEventView, IceRestartView};
use crate::types::{ConnectionStatus, DataChannelMessage};

verus! {

/// Something that happens to a client: a call of one of the functions that
/// change it.
pub enum Happening {
    Connect,
    Disconnect,
    Disconnected,
    Message(DataChannelMessage),
    PeerState { state: PeerState, live: bool },
    DialBegins { resuming: bool },
    DialGoesOn { dial: DialView, event: DialEventView },
    RestartGoesOn { restart: IceRestartView, event: IceRestartEventView },
    RecoveryBegins,
    RecoveryGoesOn { recovery: RecoveryView, event: RecoveryEventView },
}

/// The client after `h`.
pub open spec fn after(c: ClientView, h: Happening) -> ClientView {
    match h {
        Happening::Connect => c.connecting(),
        Happening::Disconnect => c.disconnecting(),
        Happening::Disconnected => ClientView { status: ConnectionStatus::Idle, ..c },
        Happening::Message(msg) => ClientView {
            conversation: conversation::after_message(c.conversation, msg),
            ..c
        },
        Happening::PeerState { state, live } => match c.reaction(state, live) {
            PeerReaction::Status(status) => ClientView { status, ..c },
            _ => c,
        },
        Happening::DialBegins { resuming } => ClientView {
            status: dial::dial_status(resuming),
            ..c
        },
        Happening::DialGoesOn { dial, event } => dial::dial_step(c, dial, event).0,
        Happening::RestartGoesOn { restart, event } => restart::after_restart_step(
            c,
            restart,
            event,
        ),
        Happening::RecoveryBegins => if c.reconnecting {
            c
        } else {
            recovery::recovery_start(c).client
        },
        Happening::RecoveryGoesOn { recovery, event } => recovery::recovery_step(
            c,
            recovery,
            event,
        ).client,
    }
}

/// The client after all of `hs`, one after another.
pub open spec fn after_all(c: ClientView, hs: Seq<Happening>) -> ClientView
    decreases hs.len(),
{
    if hs.len() == 0 {
        c
    } else {
        after(after_all(c, hs.drop_last()), hs.last())
    }
}

/// The conversation after the messages among `hs`, all else left out.
pub open spec fn after_messages(c: ConversationView, hs: Seq<Happening>) -> ConversationView
    decreases hs.len(),
{
    if hs.len() == 0 {
        c
    } else {
        let before = after_messages(c, hs.drop_last());
        match hs.last() {
            Happening::Message(msg) => conversation::after_message(before, msg),
            _ => before,
        }
    }
}

/// How often the client connects or disconnects in `hs`.
pub open spec fn turns(hs: Seq<Happening>) -> nat
    decreases hs.len(),
{
    if hs.len() == 0 {
        0
    } else if hs.last() is Connect || hs.last() is Disconnect {
        turns(hs.drop_last()) + 1
    } else {
        turns(hs.drop_last())
    }
}

/// The conversation survives whatever happens to the connection: it is what the
/// messages alone make of it, and the configuration never changes.
pub proof fn law_conversation_survives(c: ClientView, hs: Seq<Happening>)
    ensures
        after_all(c, hs).conversation == after_messages(c.conversation, hs),
        after_all(c, hs).config == c.config,
    decreases hs.len(),
{
    if hs.len() > 0 {
        law_conversation_survives(c, hs.drop_last());
    }
}

/// A conversation stays consistent, and what was said for good stays said,
/// whatever happens.
pub proof fn law_history_stays(c: ClientView, hs: Seq<Happening>)
    ensures
        conversation::finals(c.conversation.transcript).is_prefix_of(
            conversation::finals(after_all(c, hs).conversation.transcript),
        ),
        conversation::consistent(c.conversation) ==> conversation::consistent(
            after_all(c, hs).conversation,
        ),
    decreases hs.len(),
{
    let first = conversation::finals(c.conversation.transcript);
    if hs.len() == 0 {
        assert(first =~= first.subrange(0, first.len() as int));
    } else {
        let before = after_all(c, hs.drop_last());
        law_history_stays(c, hs.drop_last());
        if let Happening::Message(msg) = hs.last() {
            conversation::law_final_entries_stay(before.conversation, msg);
            if conversation::consistent(c.conversation) {
                conversation::law_message_keeps_consistent(before.conversation, msg);
            }
            let middle = conversation::finals(before.conversation.transcript);
            let last = conversation::finals(after_all(c, hs).conversation.transcript);
            assert(first =~= last.subrange(0, first.len() as int)) by {
                assert(middle =~= last.subrange(0, middle.len() as int));
            }
        }
    }
}

/// The generation counts how often the client connected and disconnected.
pub proof fn law_generation_counts(c: ClientView, hs: Seq<Happening>)
    ensures
        after_all(c, hs).generation as int == (c.generation + turns(hs)) % 0x1_0000_0000_0000_0000,
    decreases hs.len(),
{
    if hs.len() > 0 {
        law_generation_counts(c, hs.drop_last());
    }
}

/// A recovery never fights the connection that replaced its own: once the client
/// has connected anew or disconnected, whatever else happens, every recovery
/// from before has to give up. (The generation comes round after 2^64 turns.)
pub proof fn law_stale_recovery_gives_up(c: ClientView, hs: Seq<Happening>)
    requires
        0 < turns(hs) < 0x1_0000_0000_0000_0000,
    ensures
        after_all(c, hs).abandons(c.generation),
{
    law_generation_counts(c, hs);
}

/// After disconnecting, every recovery has to give up until the client connects
/// anew.
pub proof fn law_disconnect_cancels(c: ClientView, hs: Seq<Happening>, generation: u64)
    requires
        forall|i: int| 0 <= i < hs.len() ==> !(#[trigger] hs[i] is Connect),
    ensures
        after_all(c.disconnecting(), hs).abandons(generation),
        after_all(c.disconnecting(), hs).cancelled,
    decreases hs.len(),
{
    if hs.len() > 0 {
        let front = hs.drop_last();
        assert forall|i: int| 0 <= i < front.len() implies !(#[trigger] front[i] is Connect) by {
            assert(front[i] == hs[i]);
        }
        law_disconnect_cancels(c, front, generation);
        assert(hs[hs.len() - 1] == hs.last());
    }
}

} // verus!
