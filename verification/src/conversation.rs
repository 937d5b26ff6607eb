//! The conversation as the data channel tells it.
use vstd::prelude::*;

use crate::text;
use crate::types::{AgentState, DataChannelMessage, EntryView, TimingEvent, TranscriptEntry};

verus! {

/// The transcript so far and the assistant's reply that is still coming in.
#[derive(Debug)]
pub struct Conversation {
    transcript: Vec<TranscriptEntry>,
    assist_buf: String,
}

/// What a [`Conversation`] holds.
#[verifier::ext_equal]
pub struct ConversationView {
    pub transcript: Seq<EntryView>,
    /// The assistant's reply that is still coming in.
    pub pending: Seq<char>,
}

impl View for Conversation {
    type V = ConversationView;

    closed spec fn view(&self) -> ConversationView {
        ConversationView { transcript: self.transcript.deep_view(), pending: self.assist_buf@ }
    }
}

/// What a data channel message calls for.
#[derive(Debug)]
pub enum DcNotice {
    /// The transcript changed: its newest entry, and all of it.
    Transcript { entry: TranscriptEntry, all: Vec<TranscriptEntry> },
    /// The server reported an error.
    Error(String),
    /// The server reported a latency.
    Timing(TimingEvent),
    /// The agent changed its state.
    AgentState(AgentState),
    /// A known kind of message that says nothing.
    Silent,
    /// A kind of message that is not known.
    Unknown,
}

/// Whether `e` is an entry of `role` that may still change.
pub open spec fn is_partial_of(e: EntryView, role: Seq<char>) -> bool {
    e.partial && e.role == role
}

/// `transcript` without the entries that may still change of the given roles.
pub open spec fn without_partials(
    transcript: Seq<EntryView>,
    user: bool,
    assistant: bool,
) -> Seq<EntryView> {
    transcript.filter(
        |e: EntryView|
            !(user && is_partial_of(e, "user"@)) && !(assistant && is_partial_of(e, "assistant"@)),
    )
}

/// The conversation after the server's final word on what the user said: the
/// assistant's reply so far is settled before it.
pub open spec fn after_user_final(c: ConversationView, said: Seq<char>) -> ConversationView {
    let kept = without_partials(c.transcript, true, true);
    let replied = if c.pending.len() > 0 {
        kept.push(EntryView { role: "assistant"@, text: c.pending, partial: false })
    } else {
        kept
    };
    ConversationView {
        transcript: replied.push(EntryView { role: "user"@, text: said, partial: false }),
        pending: Seq::empty(),
    }
}

/// The conversation while the user is still speaking.
pub open spec fn after_user_partial(c: ConversationView, said: Seq<char>) -> ConversationView {
    ConversationView {
        transcript: without_partials(c.transcript, true, false).push(
            EntryView { role: "user"@, text: said, partial: true },
        ),
        pending: c.pending,
    }
}

/// The conversation after another part of the assistant's reply.
pub open spec fn after_reply(c: ConversationView, part: Seq<char>) -> ConversationView {
    ConversationView {
        transcript: without_partials(c.transcript, false, true).push(
            EntryView { role: "assistant"@, text: c.pending + part, partial: true },
        ),
        pending: c.pending + part,
    }
}

/// The conversation after `msg`.
pub open spec fn after_message(c: ConversationView, msg: DataChannelMessage) -> ConversationView {
    if msg.msg_type@ == "transcript"@ {
        if msg.is_final {
            after_user_final(c, msg.text@)
        } else {
            after_user_partial(c, msg.text@)
        }
    } else if msg.msg_type@ == "response"@ {
        after_reply(c, msg.text@)
    } else {
        c
    }
}

/// Whether `n` is what `msg` calls for in the conversation `after` it.
pub open spec fn is_notice_of(
    n: DcNotice,
    msg: DataChannelMessage,
    after: ConversationView,
) -> bool {
    let kind = msg.msg_type@;
    if kind == "transcript"@ || kind == "response"@ {
        &&& n matches DcNotice::Transcript { entry, all }
        &&& all.deep_view() == after.transcript
        &&& entry@ == after.transcript.last()
    } else if kind == "error"@ {
        n matches DcNotice::Error(e) && e@ == msg.message@
    } else if kind == "timing"@ {
        if msg.stage@.len() > 0 {
            n matches DcNotice::Timing(t) && t.stage@ == msg.stage@ && t.ms == msg.ms
        } else {
            n is Silent
        }
    } else if kind == "state"@ {
        match AgentState::named(msg.state@) {
            Some(s) => n matches DcNotice::AgentState(t) && t == s,
            None => n is Silent,
        }
    } else {
        n is Unknown
    }
}

/// The entries of `role` that may still change.
pub open spec fn partials(transcript: Seq<EntryView>, role: Seq<char>) -> Seq<EntryView> {
    transcript.filter(|e: EntryView| is_partial_of(e, role))
}

/// The entries that will not change any more.
pub open spec fn finals(transcript: Seq<EntryView>) -> Seq<EntryView> {
    transcript.filter(|e: EntryView| !e.partial)
}

/// The entries that may still change and are neither the user's nor the
/// assistant's.
pub open spec fn stray(transcript: Seq<EntryView>) -> Seq<EntryView> {
    transcript.filter(|e: EntryView| e.partial && e.role != "user"@ && e.role != "assistant"@)
}

/// What holds of every conversation: of each role at most one entry may still
/// change, the assistant's is the reply that is still coming in, and without it
/// no reply is coming in.
pub open spec fn consistent(c: ConversationView) -> bool {
    &&& partials(c.transcript, "user"@).len() <= 1
    &&& partials(c.transcript, "assistant"@) == seq![
        EntryView { role: "assistant"@, text: c.pending, partial: true },
    ] || (partials(c.transcript, "assistant"@).len() == 0 && c.pending.len() == 0)
    &&& stray(c.transcript).len() == 0
}

/// Adds an entry.
fn push_entry(entries: &mut Vec<TranscriptEntry>, role: &str, text: &str, partial: bool)
    ensures
        final(entries).deep_view() == old(entries).deep_view().push(
            EntryView { role: role@, text: text@, partial },
        ),
{
    let entry = TranscriptEntry { role: role.to_owned(), text: text.to_owned(), partial };
    let ghost before = *entries;
    entries.push(entry);
    proof {
        text::lemma_deep_push(before, *entries, entry);
    }
}

/// The entries without those that may still change of the given roles.
fn settled(entries: &Vec<TranscriptEntry>, user: bool, assistant: bool) -> (r: Vec<TranscriptEntry>)
    ensures
        r.deep_view() == without_partials(entries.deep_view(), user, assistant),
{
    let ghost keep = |e: EntryView|
        !(user && is_partial_of(e, "user"@)) && !(assistant && is_partial_of(e, "assistant"@));
    let ghost all = entries.deep_view();
    let mut out: Vec<TranscriptEntry> = Vec::new();
    let mut i: usize = 0;
    proof {
        reveal(Seq::filter);
        assert(out.deep_view() =~= all.take(0).filter(keep));
    }
    while i < entries.len()
        invariant
            i <= entries.len(),
            all == entries.deep_view(),
            keep == (|e: EntryView|
                !(user && is_partial_of(e, "user"@)) && !(assistant && is_partial_of(
                    e,
                    "assistant"@,
                ))),
            out.deep_view() == all.take(i as int).filter(keep),
        decreases entries.len() - i,
    {
        proof {
            reveal(Seq::filter);
            let seen = all.take(i + 1);
            assert(seen.drop_last() =~= all.take(i as int));
            assert(seen.last() == entries[i as int]@);
        }
        let entry = &entries[i];
        let gone = entry.partial && ((user && text::same_text(entry.role.as_str(), "user")) || (
        assistant && text::same_text(entry.role.as_str(), "assistant")));
        if !gone {
            let copy = entry.clone();
            let ghost before = out;
            out.push(copy);
            proof {
                text::lemma_deep_push(before, out, copy);
            }
        }
        i += 1;
    }
    assert(all.take(i as int) =~= all);
    out
}

impl Conversation {
    #[verifier::type_invariant]
    spec fn wf(self) -> bool {
        consistent(self@)
    }

    /// A conversation in which nothing was said.
    pub fn new() -> (r: Self)
        ensures
            r@ == (ConversationView { transcript: Seq::empty(), pending: Seq::empty() }),
    {
        let transcript: Vec<TranscriptEntry> = Vec::new();
        proof {
            assert(transcript.deep_view() =~= Seq::empty());
            law_empty_is_consistent();
        }
        Conversation { transcript, assist_buf: String::new() }
    }

    /// Copy of the transcript.
    pub fn transcript(&self) -> (r: Vec<TranscriptEntry>)
        ensures
            r.deep_view() == self@.transcript,
            consistent(self@),
    {
        proof {
            use_type_invariant(self);
        }
        let r = settled(&self.transcript, false, false);
        proof {
            lemma_no_roles(self.transcript.deep_view());
        }
        r
    }

    /// Takes in a data channel message and says what it calls for.
    pub fn handle_dc_message(&mut self, msg: &DataChannelMessage) -> (r: DcNotice)
        ensures
            final(self)@ == after_message(old(self)@, *msg),
            is_notice_of(r, *msg, final(self)@),
    {
        proof {
            use_type_invariant(&*self);
            law_message_keeps_consistent(self@, *msg);
        }
        let kind = msg.msg_type.as_str();
        if text::same_text(kind, "transcript") {
            if msg.is_final {
                let mut entries = settled(&self.transcript, true, true);
                if !self.assist_buf.as_str().is_empty() {
                    push_entry(&mut entries, "assistant", self.assist_buf.as_str(), false);
                }
                push_entry(&mut entries, "user", msg.text.as_str(), false);
                *self = Conversation { transcript: entries, assist_buf: String::new() };
            } else {
                let mut entries = settled(&self.transcript, true, false);
                push_entry(&mut entries, "user", msg.text.as_str(), true);
                *self = Conversation { transcript: entries, assist_buf: self.assist_buf.clone() };
            }
            self.changed()
        } else if text::same_text(kind, "response") {
            let reply = text::concatenate(self.assist_buf.as_str(), msg.text.as_str());
            let mut entries = settled(&self.transcript, false, true);
            push_entry(&mut entries, "assistant", reply.as_str(), true);
            *self = Conversation { transcript: entries, assist_buf: reply };
            self.changed()
        } else if text::same_text(kind, "error") {
            DcNotice::Error(msg.message.clone())
        } else if text::same_text(kind, "timing") {
            if msg.stage.as_str().is_empty() {
                DcNotice::Silent
            } else {
                DcNotice::Timing(TimingEvent { stage: msg.stage.clone(), ms: msg.ms })
            }
        } else if text::same_text(kind, "state") {
            match AgentState::from_str(msg.state.as_str()) {
                Some(state) => DcNotice::AgentState(state),
                None => DcNotice::Silent,
            }
        } else {
            DcNotice::Unknown
        }
    }

    /// The notice that the transcript changed.
    fn changed(&self) -> (r: DcNotice)
        requires
            self@.transcript.len() > 0,
        ensures
            r matches DcNotice::Transcript { entry, all } && all.deep_view() == self@.transcript
                && entry@ == self@.transcript.last(),
    {
        let all = self.transcript();
        let entry = self.transcript[self.transcript.len() - 1].clone();
        DcNotice::Transcript { entry, all }
    }
}

/// Without roles to drop, nothing is dropped.
proof fn lemma_no_roles(entries: Seq<EntryView>)
    ensures
        without_partials(entries, false, false) == entries,
    decreases entries.len(),
{
    reveal(Seq::filter);
    if entries.len() > 0 {
        let front = entries.drop_last();
        lemma_no_roles(front);
        assert(front.push(entries.last()) =~= entries);
    } else {
        assert(without_partials(entries, false, false) =~= entries);
    }
}

/// How dropping entries that may still change bears on what is left.
proof fn lemma_without_partials(t: Seq<EntryView>, user: bool, assistant: bool)
    ensures
        ({
            let kept = without_partials(t, user, assistant);
            &&& partials(kept, "user"@) == (if user {
                Seq::empty()
            } else {
                partials(t, "user"@)
            })
            &&& partials(kept, "assistant"@) == (if assistant {
                Seq::empty()
            } else {
                partials(t, "assistant"@)
            })
            &&& finals(kept) == finals(t)
            &&& stray(kept) == stray(t)
        }),
    decreases t.len(),
{
    reveal(Seq::filter);
    reveal_strlit("user");
    reveal_strlit("assistant");
    assert("user"@.len() != "assistant"@.len());
    let kept = without_partials(t, user, assistant);
    if t.len() > 0 {
        let front = t.drop_last();
        lemma_without_partials(front, user, assistant);
        let last = t.last();
        let before = without_partials(front, user, assistant);
        if kept.len() > 0 {
            assert(before.push(last).drop_last() =~= before);
        }
    } else {
        assert(partials(kept, "user"@) =~= Seq::empty());
        assert(partials(kept, "assistant"@) =~= Seq::empty());
    }
}

/// How a new entry bears on what stands there.
proof fn lemma_push(t: Seq<EntryView>, e: EntryView)
    ensures
        partials(t.push(e), "user"@) == (if is_partial_of(e, "user"@) {
            partials(t, "user"@).push(e)
        } else {
            partials(t, "user"@)
        }),
        partials(t.push(e), "assistant"@) == (if is_partial_of(e, "assistant"@) {
            partials(t, "assistant"@).push(e)
        } else {
            partials(t, "assistant"@)
        }),
        finals(t.push(e)) == (if e.partial {
            finals(t)
        } else {
            finals(t).push(e)
        }),
        stray(t.push(e)) == (if e.partial && e.role != "user"@ && e.role != "assistant"@ {
            stray(t).push(e)
        } else {
            stray(t)
        }),
{
    reveal(Seq::filter);
    assert(t.push(e).drop_last() =~= t);
}

/// A conversation in which nothing was said is consistent.
pub proof fn law_empty_is_consistent()
    ensures
        consistent(ConversationView { transcript: Seq::empty(), pending: Seq::empty() }),
{
    reveal(Seq::filter);
}

/// Every message keeps a conversation consistent.
pub proof fn law_message_keeps_consistent(c: ConversationView, msg: DataChannelMessage)
    requires
        consistent(c),
    ensures
        consistent(after_message(c, msg)),
{
    reveal_strlit("user");
    reveal_strlit("assistant");
    assert("user"@.len() != "assistant"@.len());
    let t = c.transcript;
    lemma_without_partials(t, true, true);
    lemma_without_partials(t, true, false);
    lemma_without_partials(t, false, true);
    let kept = without_partials(t, true, true);
    let reply = EntryView { role: "assistant"@, text: c.pending, partial: false };
    let said = EntryView { role: "user"@, text: msg.text@, partial: false };
    lemma_push(kept, reply);
    lemma_push(kept.push(reply), said);
    lemma_push(kept, said);
    lemma_push(
        without_partials(t, true, false),
        EntryView { role: "user"@, text: msg.text@, partial: true },
    );
    let more = EntryView { role: "assistant"@, text: c.pending + msg.text@, partial: true };
    lemma_push(without_partials(t, false, true), more);
    assert(Seq::<EntryView>::empty().push(more) =~= seq![more]);
}

/// An entry that will not change any more never changes and never goes: the
/// final entries only grow at the end. An entry that may still change adds
/// none.
pub proof fn law_final_entries_stay(c: ConversationView, msg: DataChannelMessage)
    ensures
        finals(c.transcript).is_prefix_of(finals(after_message(c, msg).transcript)),
        !(msg.msg_type@ == "transcript"@ && msg.is_final) ==> finals(
            after_message(c, msg).transcript,
        ) == finals(c.transcript),
{
    let t = c.transcript;
    lemma_without_partials(t, true, true);
    lemma_without_partials(t, true, false);
    lemma_without_partials(t, false, true);
    let kept = without_partials(t, true, true);
    let reply = EntryView { role: "assistant"@, text: c.pending, partial: false };
    let said = EntryView { role: "user"@, text: msg.text@, partial: false };
    lemma_push(kept, reply);
    lemma_push(kept.push(reply), said);
    lemma_push(kept, said);
    lemma_push(
        without_partials(t, true, false),
        EntryView { role: "user"@, text: msg.text@, partial: true },
    );
    lemma_push(
        without_partials(t, false, true),
        EntryView { role: "assistant"@, text: c.pending + msg.text@, partial: true },
    );
    let f = finals(t);
    assert(f =~= f.push(reply).push(said).subrange(0, f.len() as int));
    assert(f =~= f.push(said).subrange(0, f.len() as int));
    assert(f =~= f.subrange(0, f.len() as int));
}

/// The final word on what the user said settles the conversation: nothing in it
/// may still change, the reply that was coming in, if any, became a final entry
/// of the assistant's, and the user's words come last.
pub proof fn law_final_word_settles(c: ConversationView, said: Seq<char>)
    requires
        consistent(c),
    ensures
        ({
            let after = after_user_final(c, said);
            let reply = EntryView { role: "assistant"@, text: c.pending, partial: false };
            let word = EntryView { role: "user"@, text: said, partial: false };
            &&& after.pending.len() == 0
            &&& finals(after.transcript) == after.transcript
            &&& after.transcript == (if c.pending.len() > 0 {
                finals(c.transcript).push(reply).push(word)
            } else {
                finals(c.transcript).push(word)
            })
        }),
{
    let t = c.transcript;
    let kept = without_partials(t, true, true);
    let reply = EntryView { role: "assistant"@, text: c.pending, partial: false };
    let word = EntryView { role: "user"@, text: said, partial: false };
    lemma_only_finals(t);
    lemma_without_partials(t, true, true);
    lemma_push(kept, reply);
    lemma_push(kept.push(reply), word);
    lemma_push(kept, word);
}

/// Where all entries that may still change are the user's or the assistant's,
/// dropping these leaves the final ones.
proof fn lemma_only_finals(t: Seq<EntryView>)
    requires
        stray(t).len() == 0,
    ensures
        without_partials(t, true, true) == finals(t),
    decreases t.len(),
{
    reveal(Seq::filter);
    if t.len() > 0 {
        lemma_only_finals(t.drop_last());
    } else {
        assert(without_partials(t, true, true) =~= finals(t));
    }
}

/// The conversation after the parts of a reply, one after another.
pub open spec fn after_replies(c: ConversationView, parts: Seq<Seq<char>>) -> ConversationView
    decreases parts.len(),
{
    if parts.len() == 0 {
        c
    } else {
        after_reply(after_replies(c, parts.drop_last()), parts.last())
    }
}

/// The parts of a reply add up, and the newest entry always shows the reply as
/// far as it came.
pub proof fn law_reply_parts_add_up(c: ConversationView, parts: Seq<Seq<char>>)
    ensures
        after_replies(c, parts).pending == c.pending + text::joined(parts, Seq::empty()),
        parts.len() > 0 ==> after_replies(c, parts).transcript.last() == (EntryView {
            role: "assistant"@,
            text: c.pending + text::joined(parts, Seq::empty()),
            partial: true,
        }),
        finals(after_replies(c, parts).transcript) == finals(c.transcript),
    decreases parts.len(),
{
    if parts.len() == 0 {
        assert(c.pending + text::joined(parts, Seq::empty()) =~= c.pending);
    } else {
        let front = parts.drop_last();
        law_reply_parts_add_up(c, front);
        let before = after_replies(c, front);
        if parts.len() == 1 {
            assert(text::joined(front, Seq::empty()) =~= Seq::empty());
            assert(text::joined(parts, Seq::empty()) =~= text::joined(front, Seq::empty())
                + parts.last());
        }
        assert(before.pending + parts.last() =~= c.pending + text::joined(parts, Seq::empty()));
        lemma_without_partials(before.transcript, false, true);
        lemma_push(
            without_partials(before.transcript, false, true),
            EntryView { role: "assistant"@, text: before.pending + parts.last(), partial: true },
        );
    }
}

} // verus!
