//! What each data channel message makes of the conversation, and what is told of
//! it.
use vstd::prelude::*;

use crate::conversation;
use crate::conversation::{ConversationView, DcNotice};
use crate::types::{AgentState, DataChannelMessage, EntryView};

verus! {

/// A message with the user's words or with a part of a reply brings the newest
/// entry: the user's words as they are, partial until they are final, and the
/// reply as far as it came, always partial.
pub proof fn law_message_brings_entry(c: ConversationView, msg: DataChannelMessage)
    ensures
        ({
            let after = conversation::after_message(c, msg);
            &&& msg.msg_type@ == "transcript"@ ==> after.transcript.len() > 0
                && after.transcript.last() == (EntryView {
                role: "user"@,
                text: msg.text@,
                partial: !msg.is_final,
            })
            &&& msg.msg_type@ == "response"@ ==> after.transcript.len() > 0
                && after.transcript.last() == (EntryView {
                role: "assistant"@,
                text: c.pending + msg.text@,
                partial: true,
            })
        }),
{
    lemma_kinds_differ();
}

proof fn lemma_kinds_differ()
    ensures
        "transcript"@ != "response"@,
        "transcript"@ != "error"@,
        "transcript"@ != "timing"@,
        "transcript"@ != "state"@,
        "response"@ != "error"@,
        "response"@ != "timing"@,
        "response"@ != "state"@,
        "error"@ != "timing"@,
        "error"@ != "state"@,
        "timing"@ != "state"@,
{
    reveal_strlit("transcript");
    reveal_strlit("response");
    reveal_strlit("error");
    reveal_strlit("timing");
    reveal_strlit("state");
    assert("transcript"@.len() == 10 && "response"@.len() == 8 && "timing"@.len() == 6);
    assert("error"@[0] == 'e' && "state"@[0] == 's');
}

/// What stands before the newest entry: the entries there were, in order, without
/// those that the message replaces. The user's words replace the user's partial
/// ones, a part of a reply replaces the partial reply, and the user's final words
/// replace both and settle the reply that was coming in, if any.
pub proof fn law_message_keeps_entries(c: ConversationView, msg: DataChannelMessage)
    ensures
        ({
            let t = c.transcript;
            let kept = conversation::after_message(c, msg).transcript.drop_last();
            &&& msg.msg_type@ == "transcript"@ && !msg.is_final ==> kept == t.filter(
                |e: EntryView| !(e.partial && e.role == "user"@),
            )
            &&& msg.msg_type@ == "response"@ ==> kept == t.filter(
                |e: EntryView| !(e.partial && e.role == "assistant"@),
            )
            &&& msg.msg_type@ == "transcript"@ && msg.is_final ==> kept == t.filter(
                |e: EntryView| !(e.partial && (e.role == "user"@ || e.role == "assistant"@)),
            ) + (if c.pending.len() > 0 {
                seq![EntryView { role: "assistant"@, text: c.pending, partial: false }]
            } else {
                Seq::empty()
            })
        }),
{
    lemma_kinds_differ();
    let t = c.transcript;
    let kept = conversation::after_message(c, msg).transcript.drop_last();
    if msg.msg_type@ == "transcript"@ && !msg.is_final {
        lemma_same_filter(
            t,
            true,
            false,
            |e: EntryView| !(e.partial && e.role == "user"@),
        );
        assert(kept =~= conversation::without_partials(t, true, false));
    }
    if msg.msg_type@ == "response"@ {
        lemma_same_filter(
            t,
            false,
            true,
            |e: EntryView| !(e.partial && e.role == "assistant"@),
        );
        assert(kept =~= conversation::without_partials(t, false, true));
    }
    if msg.msg_type@ == "transcript"@ && msg.is_final {
        let keep = |e: EntryView|
            !(e.partial && (e.role == "user"@ || e.role == "assistant"@));
        lemma_same_filter(t, true, true, keep);
        let settled = if c.pending.len() > 0 {
            seq![EntryView { role: "assistant"@, text: c.pending, partial: false }]
        } else {
            Seq::empty()
        };
        assert(kept =~= t.filter(keep) + settled);
    }
}

proof fn lemma_same_filter(
    t: Seq<EntryView>,
    user: bool,
    assistant: bool,
    keep: spec_fn(EntryView) -> bool,
)
    requires
        forall|e: EntryView| #[trigger]
            keep(e) == !(e.partial && ((user && e.role == "user"@) || (assistant && e.role
                == "assistant"@))),
    ensures
        conversation::without_partials(t, user, assistant) == t.filter(keep),
    decreases t.len(),
{
    reveal(Seq::filter);
    if t.len() > 0 {
        lemma_same_filter(t.drop_last(), user, assistant, keep);
        assert(keep(t.last()) == keep(t.last()));
    } else {
        assert(conversation::without_partials(t, user, assistant) =~= t.filter(keep));
    }
}

/// The reply that is coming in grows by each of its parts, is over with the
/// user's final words, and nothing else touches it. A message of another kind
/// changes nothing at all.
pub proof fn law_message_and_reply(c: ConversationView, msg: DataChannelMessage)
    ensures
        ({
            let after = conversation::after_message(c, msg);
            &&& msg.msg_type@ == "response"@ ==> after.pending == c.pending + msg.text@
            &&& msg.msg_type@ == "transcript"@ && msg.is_final ==> after.pending.len() == 0
            &&& msg.msg_type@ == "transcript"@ && !msg.is_final ==> after.pending == c.pending
            &&& msg.msg_type@ != "transcript"@ && msg.msg_type@ != "response"@ ==> after == c
        }),
{
    lemma_kinds_differ();
}

/// Whatever a message brings to the transcript is told: with each of the user's
/// words and each part of a reply come the entry that the message brought and all
/// entries, and a transcript is told at no other time.
pub proof fn law_transcript_is_told(c: ConversationView, msg: DataChannelMessage, n: DcNotice)
    requires
        conversation::is_notice_of(n, msg, conversation::after_message(c, msg)),
    ensures
        n is Transcript <==> msg.msg_type@ == "transcript"@ || msg.msg_type@ == "response"@,
        n matches DcNotice::Transcript { entry, all } ==> {
            &&& all.deep_view() == conversation::after_message(c, msg).transcript
            &&& entry@ == all.deep_view().last()
            &&& entry@ == (if msg.msg_type@ == "transcript"@ {
                EntryView { role: "user"@, text: msg.text@, partial: !msg.is_final }
            } else {
                EntryView { role: "assistant"@, text: c.pending + msg.text@, partial: true }
            })
        },
{
    lemma_kinds_differ();
    law_message_brings_entry(c, msg);
}

/// What is told of the messages that leave the transcript alone: an error with
/// its words, a latency with its stage and length unless the stage is empty, a
/// state of the agent if it is one of the three, and nothing of a message that is
/// not known, but that it is not.
pub proof fn law_other_messages_are_told(
    after: ConversationView,
    msg: DataChannelMessage,
    n: DcNotice,
)
    requires
        conversation::is_notice_of(n, msg, after),
    ensures
        ({
            let kind = msg.msg_type@;
            &&& kind == "error"@ <==> n is Error
            &&& n matches DcNotice::Error(e) ==> e@ == msg.message@
            &&& kind == "timing"@ && msg.stage@.len() > 0 <==> n is Timing
            &&& n matches DcNotice::Timing(t) ==> t.stage@ == msg.stage@ && t.ms == msg.ms
            &&& kind == "state"@ && (msg.state@ == "listening"@ || msg.state@ == "thinking"@
                || msg.state@ == "speaking"@) <==> n is AgentState
            &&& n matches DcNotice::AgentState(s) ==> {
                &&& s is Listening <==> msg.state@ == "listening"@
                &&& s is Thinking <==> msg.state@ == "thinking"@
                &&& s is Speaking <==> msg.state@ == "speaking"@
            }
            &&& kind != "transcript"@ && kind != "response"@ && kind != "error"@ && kind
                != "timing"@ && kind != "state"@ <==> n is Unknown
        }),
{
    lemma_kinds_differ();
    reveal_strlit("listening");
    reveal_strlit("thinking");
    reveal_strlit("speaking");
    assert("listening"@[0] == 'l' && "thinking"@[0] == 't' && "speaking"@[0] == 's');
}

/// The names of the agent's states.
pub proof fn law_agent_states(s: Seq<char>)
    ensures
        AgentState::named(s) == Some(AgentState::Listening) <==> s == "listening"@,
        AgentState::named(s) == Some(AgentState::Thinking) <==> s == "thinking"@,
        AgentState::named(s) == Some(AgentState::Speaking) <==> s == "speaking"@,
        AgentState::Listening.name() == "listening"@,
        AgentState::Thinking.name() == "thinking"@,
        AgentState::Speaking.name() == "speaking"@,
{
    reveal_strlit("listening");
    reveal_strlit("thinking");
    reveal_strlit("speaking");
    assert("listening"@[0] == 'l' && "thinking"@[0] == 't' && "speaking"@[0] == 's');
}

proof fn lemma_partials(t: Seq<EntryView>, role: Seq<char>)
    ensures
        conversation::partials(t, role).len() == 0 ==> forall|i: int|
            0 <= i < t.len() ==> !((#[trigger] t[i]).partial && t[i].role == role),
        conversation::partials(t, role).len() <= 1 ==> forall|i: int, j: int|
            0 <= i < j < t.len() ==> !((#[trigger] t[i]).partial && t[i].role == role && (
            #[trigger] t[j]).partial && t[j].role == role),
        forall|i: int|
            0 <= i < t.len() && (#[trigger] t[i]).partial && t[i].role == role
                ==> conversation::partials(t, role).contains(t[i]),
    decreases t.len(),
{
    reveal(Seq::filter);
    if t.len() > 0 {
        let front = t.drop_last();
        lemma_partials(front, role);
        let before = conversation::partials(front, role);
        let all = conversation::partials(t, role);
        assert forall|i: int|
            0 <= i < t.len() && (#[trigger] t[i]).partial && t[i].role == role implies all.contains(
            t[i],
        ) by {
            if i < front.len() {
                assert(front[i] == t[i]);
                let k = choose|k: int| 0 <= k < before.len() && before[k] == t[i];
                assert(all[k] == t[i]);
            } else {
                assert(all[all.len() - 1] == t[i]);
            }
        }
        if all.len() <= 1 {
            assert forall|i: int, j: int| 0 <= i < j < t.len() implies !((
            #[trigger] t[i]).partial && t[i].role == role && (#[trigger] t[j]).partial && t[j].role
                == role) by {
                assert(front[i] == t[i]);
                if j < front.len() {
                    assert(front[j] == t[j]);
                }
            }
        }
        if all.len() == 0 {
            assert forall|i: int| 0 <= i < t.len() implies !((#[trigger] t[i]).partial && t[i].role
                == role) by {
                if i < front.len() {
                    assert(front[i] == t[i]);
                }
            }
        }
    }
}

/// At any time at most one entry of each role may still change, and the
/// assistant's shows the reply that is coming in; without it none is coming in.
pub proof fn law_at_most_one_partial(c: ConversationView)
    requires
        conversation::consistent(c),
    ensures
        forall|i: int, j: int|
            0 <= i < j < c.transcript.len() ==> !((#[trigger] c.transcript[i]).partial && (
            #[trigger] c.transcript[j]).partial && c.transcript[i].role == c.transcript[j].role && (
            c.transcript[i].role == "user"@ || c.transcript[i].role == "assistant"@)),
        forall|i: int|
            0 <= i < c.transcript.len() && (#[trigger] c.transcript[i]).partial
                && c.transcript[i].role == "assistant"@ ==> c.transcript[i].text == c.pending,
        c.pending.len() > 0 ==> exists|i: int|
            0 <= i < c.transcript.len() && (#[trigger] c.transcript[i]).partial
                && c.transcript[i].role == "assistant"@,
{
    let t = c.transcript;
    lemma_partials(t, "user"@);
    lemma_partials(t, "assistant"@);
    let p = conversation::partials(t, "assistant"@);
    assert forall|i: int|
        0 <= i < t.len() && (#[trigger] t[i]).partial && t[i].role
            == "assistant"@ implies t[i].text == c.pending by {
        let k = choose|k: int| 0 <= k < p.len() && p[k] == t[i];
        assert(p[k] == p[0]);
    }
    if c.pending.len() > 0 {
        lemma_some_partial(t, "assistant"@);
    }
}

proof fn lemma_some_partial(t: Seq<EntryView>, role: Seq<char>)
    requires
        conversation::partials(t, role).len() > 0,
    ensures
        exists|i: int| 0 <= i < t.len() && (#[trigger] t[i]).partial && t[i].role == role,
    decreases t.len(),
{
    reveal(Seq::filter);
    if t.len() > 0 {
        let front = t.drop_last();
        if t.last().partial && t.last().role == role {
            assert(t[t.len() - 1].partial);
        } else {
            lemma_some_partial(front, role);
            let i = choose|i: int|
                0 <= i < front.len() && (#[trigger] front[i]).partial && front[i].role == role;
            assert(t[i] == front[i]);
        }
    }
}

} // verus!
