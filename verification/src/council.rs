//! Council sessions: a topic discussed by several personas, with follow-up questions.

use vstd::prelude::*;
use crate::text::{append_str, string_of};

verus! {

/// Active council state for follow-up questions.
#[derive(Debug, Clone)]
pub struct CouncilState {
    /// The prompt or topic the council started from
    pub topic: String,
    /// IDs of participating personas
    pub persona_ids: Vec<String>,
    /// Conversation history
    pub history: Vec<CouncilMessage>,
    /// User who initiated the council
    pub initiator_id: String,
    /// Guild ID (if in a guild)
    pub guild_id: Option<String>,
    /// Ground rules and definitions for the discussion
    pub rules: Option<String>,
    /// Whether the council session is active (awaiting interaction)
    pub is_active: bool,
    /// Whether opening statements have been completed
    pub opening_complete: bool,
}

/// A message in the council conversation.
#[derive(Debug, Clone)]
pub struct CouncilMessage {
    /// "user" or "assistant"
    pub role: String,
    /// For assistant messages, which persona spoke
    pub persona_id: Option<String>,
    /// The message content
    pub content: String,
}

/// The number of most recent messages a context summary shows.
pub const SUMMARY_WINDOW: usize = 10;

/// One message as the summary shows it: `[persona]: content` or `[User]: content`.
pub open spec fn summary_line(m: CouncilMessage) -> Seq<char> {
    match m.persona_id {
        Some(p) => "["@ + p@ + "]: "@ + m.content@ + "\n\n"@,
        None => "[User]: "@ + m.content@ + "\n\n"@,
    }
}

/// The summary lines of `ms`, in order.
pub open spec fn summary_lines(ms: Seq<CouncilMessage>) -> Seq<char>
    decreases ms.len(),
{
    if ms.len() == 0 {
        Seq::empty()
    } else {
        summary_lines(ms.drop_last()) + summary_line(ms.last())
    }
}

/// The last `n` messages of `ms` (all of them when there are fewer).
pub open spec fn last_n<T>(ms: Seq<T>, n: nat) -> Seq<T> {
    if ms.len() <= n {
        ms
    } else {
        ms.skip(ms.len() - n)
    }
}

/// The context summary of a council on `topic` with `history`.
pub open spec fn context_summary(topic: Seq<char>, history: Seq<CouncilMessage>) -> Seq<char> {
    if history.len() == 0 {
        "Original topic: "@ + topic
    } else {
        "Original topic: "@ + topic + "\n\nPrevious discussion:\n"@ + summary_lines(
            last_n(history, SUMMARY_WINDOW as nat),
        )
    }
}

impl CouncilState {
    /// A new, active council with no history, no rules and openings pending.
    pub fn new(topic: String, persona_ids: Vec<String>, initiator_id: String, guild_id: Option<String>) -> (s: Self)
        ensures
            s.topic == topic,
            s.persona_ids == persona_ids,
            s.history@.len() == 0,
            s.initiator_id == initiator_id,
            s.guild_id == guild_id,
            s.rules is None,
            s.is_active,
            !s.opening_complete,
    {
        CouncilState {
            topic,
            persona_ids,
            history: Vec::new(),
            initiator_id,
            guild_id,
            rules: None,
            is_active: true,
            opening_complete: false,
        }
    }

    /// A new, active council with ground rules.
    pub fn with_rules(
        topic: String,
        persona_ids: Vec<String>,
        initiator_id: String,
        guild_id: Option<String>,
        rules: Option<String>,
    ) -> (s: Self)
        ensures
            s.topic == topic,
            s.persona_ids == persona_ids,
            s.history@.len() == 0,
            s.initiator_id == initiator_id,
            s.guild_id == guild_id,
            s.rules == rules,
            s.is_active,
            !s.opening_complete,
    {
        CouncilState {
            topic,
            persona_ids,
            history: Vec::new(),
            initiator_id,
            guild_id,
            rules,
            is_active: true,
            opening_complete: false,
        }
    }

    /// Marks the opening statements complete; nothing else changes.
    pub fn mark_opening_complete(&mut self)
        ensures
            *final(self) == (CouncilState { opening_complete: true, ..*old(self) }),
    {
        self.opening_complete = true;
    }

    /// Deactivates the session; nothing else changes.
    pub fn deactivate(&mut self)
        ensures
            *final(self) == (CouncilState { is_active: false, ..*old(self) }),
    {
        self.is_active = false;
    }

    /// Appends a user message to the history.
    pub fn add_user_message(&mut self, content: String)
        ensures
            final(self).history@.len() == old(self).history@.len() + 1,
            final(self).history@.take(old(self).history@.len() as int) == old(self).history@,
            final(self).history@.last().role@ == "user"@,
            final(self).history@.last().persona_id is None,
            final(self).history@.last().content == content,
            final(self).topic == old(self).topic,
            final(self).persona_ids == old(self).persona_ids,
            final(self).initiator_id == old(self).initiator_id,
            final(self).guild_id == old(self).guild_id,
            final(self).rules == old(self).rules,
            final(self).is_active == old(self).is_active,
            final(self).opening_complete == old(self).opening_complete,
    {
        self.history.push(CouncilMessage { role: "user".to_owned(), persona_id: None, content });
        assert(self.history@.take(old(self).history@.len() as int) =~= old(self).history@);
    }

    /// Appends a persona's response to the history.
    pub fn add_persona_response(&mut self, persona_id: &str, content: String)
        ensures
            final(self).history@.len() == old(self).history@.len() + 1,
            final(self).history@.take(old(self).history@.len() as int) == old(self).history@,
            final(self).history@.last().role@ == "assistant"@,
            final(self).history@.last().persona_id matches Some(p) && p@ == persona_id@,
            final(self).history@.last().content == content,
            final(self).topic == old(self).topic,
            final(self).persona_ids == old(self).persona_ids,
            final(self).initiator_id == old(self).initiator_id,
            final(self).guild_id == old(self).guild_id,
            final(self).rules == old(self).rules,
            final(self).is_active == old(self).is_active,
            final(self).opening_complete == old(self).opening_complete,
    {
        self.history.push(
            CouncilMessage {
                role: "assistant".to_owned(),
                persona_id: Some(persona_id.to_owned()),
                content,
            },
        );
        assert(self.history@.take(old(self).history@.len() as int) =~= old(self).history@);
    }

    /// The topic and the last ten messages, as context for a system prompt.
    pub fn get_context_summary(&self) -> (s: String)
        ensures
            s@ == context_summary(self.topic@, self.history@),
    {
        let mut v: Vec<char> = Vec::new();
        append_str(&mut v, "Original topic: ");
        append_str(&mut v, self.topic.as_str());
        let n = self.history.len();
        if n == 0 {
            return string_of(v.as_slice());
        }
        append_str(&mut v, "\n\nPrevious discussion:\n");
        let start: usize = if n <= SUMMARY_WINDOW {
            0
        } else {
            n - SUMMARY_WINDOW
        };
        let ghost head = v@;
        let ghost hist = self.history@;
        let mut i: usize = start;
        assert(hist.subrange(start as int, start as int) =~= Seq::<CouncilMessage>::empty());
        while i < n
            invariant
                start <= i <= n,
                n == hist.len(),
                hist == self.history@,
                v@ == head + summary_lines(hist.subrange(start as int, i as int)),
            decreases n - i,
        {
            let m = &self.history[i];
            match &m.persona_id {
                Some(p) => {
                    append_str(&mut v, "[");
                    append_str(&mut v, p.as_str());
                    append_str(&mut v, "]: ");
                },
                None => {
                    append_str(&mut v, "[User]: ");
                },
            }
            append_str(&mut v, m.content.as_str());
            append_str(&mut v, "\n\n");
            assert(hist.subrange(start as int, i + 1).drop_last() =~= hist.subrange(
                start as int,
                i as int,
            ));
            assert(v@ =~= head + summary_lines(hist.subrange(start as int, i + 1)));
            i = i + 1;
        }
        assert(hist.subrange(start as int, n as int) =~= last_n(hist, SUMMARY_WINDOW as nat));
        string_of(v.as_slice())
    }
}

} // verus!
