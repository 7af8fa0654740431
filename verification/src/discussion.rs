//! Shared discussion types for councils and debates: the context one session
//! hands to another, its summary for a system prompt, and the identifiers of
//! the buttons that steer a session.

use vstd::prelude::*;
use crate::council::{last_n, CouncilMessage, CouncilState};
use crate::debate::DebateConfig;
use crate::personas::PersonaManager;
use crate::text::{
    append_str, byte_len, byte_prefix, byte_take, chars_of, dec, is_boundary, parse_u64, splitn_char,
    starts_with, str_eq, string_of, utf8_len,
};

verus! {

/// Type of discussion session.
#[derive(Debug, Clone, Copy, PartialEq, Eq, Structural)]
pub enum DiscussionType {
    /// Multi-persona council discussion
    Council,
    /// Two-persona debate
    Debate,
}

/// The display name of a discussion type.
pub open spec fn discussion_type_name(t: DiscussionType) -> Seq<char> {
    match t {
        DiscussionType::Council => "Council"@,
        DiscussionType::Debate => "Debate"@,
    }
}

impl DiscussionType {
    /// The display name: `Council` or `Debate`.
    pub fn to_string(&self) -> (s: String)
        ensures
            s@ == discussion_type_name(*self),
    {
        match self {
            DiscussionType::Council => "Council".to_owned(),
            DiscussionType::Debate => "Debate".to_owned(),
        }
    }
}

/// A message within a discussion session.
#[derive(Debug, Clone)]
pub struct DiscussionMessage {
    /// Role: "user", "assistant", or "system"
    pub role: String,
    /// For assistant messages, which persona spoke (persona ID)
    pub speaker: Option<String>,
    /// The message content
    pub content: String,
}

/// A message as plain values: role, speaker and content.
pub open spec fn message_view(m: DiscussionMessage) -> (Seq<char>, Option<Seq<char>>, Seq<char>) {
    (
        m.role@,
        match m.speaker {
            Some(s) => Some(s@),
            None => None,
        },
        m.content@,
    )
}

/// The views of a sequence of messages.
pub open spec fn message_views(ms: Seq<DiscussionMessage>) -> Seq<(Seq<char>, Option<Seq<char>>, Seq<char>)> {
    ms.map_values(|m: DiscussionMessage| message_view(m))
}

impl DiscussionMessage {
    /// A user message.
    pub fn user(content: &str) -> (m: Self)
        ensures
            message_view(m) == ("user"@, None::<Seq<char>>, content@),
    {
        DiscussionMessage { role: "user".to_owned(), speaker: None, content: content.to_owned() }
    }

    /// An assistant message from a persona.
    pub fn persona(persona_id: &str, content: &str) -> (m: Self)
        ensures
            message_view(m) == ("assistant"@, Some(persona_id@), content@),
    {
        DiscussionMessage {
            role: "assistant".to_owned(),
            speaker: Some(persona_id.to_owned()),
            content: content.to_owned(),
        }
    }

    /// A system message.
    pub fn system(content: &str) -> (m: Self)
        ensures
            message_view(m) == ("system"@, None::<Seq<char>>, content@),
    {
        DiscussionMessage { role: "system".to_owned(), speaker: None, content: content.to_owned() }
    }
}

/// Context from a prior discussion thread.
#[derive(Debug, Clone)]
pub struct ThreadContext {
    /// Type of the discussion this one follows
    pub discussion_type: DiscussionType,
    /// The topic or prompt it started from
    pub topic: String,
    /// Participants (persona IDs)
    pub participants: Vec<String>,
    /// Message history
    pub messages: Vec<DiscussionMessage>,
    /// Ground rules/definitions (if any)
    pub rules: Option<String>,
}

impl ThreadContext {
    /// A context with no messages and no rules.
    pub fn new(discussion_type: DiscussionType, topic: &str, participants: Vec<String>) -> (c: Self)
        ensures
            c.discussion_type == discussion_type,
            c.topic@ == topic@,
            c.participants == participants,
            c.messages@.len() == 0,
            c.rules is None,
    {
        ThreadContext {
            discussion_type,
            topic: topic.to_owned(),
            participants,
            messages: Vec::new(),
            rules: None,
        }
    }

    /// Appends a message.
    pub fn add_message(&mut self, message: DiscussionMessage)
        ensures
            final(self).messages@ == old(self).messages@.push(message),
            final(self).discussion_type == old(self).discussion_type,
            final(self).topic == old(self).topic,
            final(self).participants == old(self).participants,
            final(self).rules == old(self).rules,
    {
        self.messages.push(message);
    }

    /// The same context with `rules`.
    pub fn with_rules(self, rules: Option<String>) -> (c: Self)
        ensures
            c == (ThreadContext { rules, ..self }),
    {
        ThreadContext { rules, ..self }
    }

    /// The number of messages.
    pub fn message_count(&self) -> (n: usize)
        ensures
            n == self.messages@.len(),
    {
        self.messages.len()
    }
}

/// A council message as the shared context records it: user messages stay
/// user messages, every other message is the persona's (an empty id if none).
pub open spec fn council_message_view(m: CouncilMessage) -> (Seq<char>, Option<Seq<char>>, Seq<char>) {
    if m.role@ == "user"@ {
        ("user"@, None, m.content@)
    } else {
        (
            "assistant"@,
            Some(
                match m.persona_id {
                    Some(p) => p@,
                    None => Seq::<char>::empty(),
                },
            ),
            m.content@,
        )
    }
}

/// The messages of a debate history of (role, content) pairs: user entries
/// stay user messages; the other entries alternate between the two debaters,
/// starting with the one `first` names.
pub open spec fn debate_message_views(
    history: Seq<(String, String)>,
    persona1: Seq<char>,
    persona2: Seq<char>,
    first: bool,
) -> Seq<(Seq<char>, Option<Seq<char>>, Seq<char>)>
    decreases history.len(),
{
    if history.len() == 0 {
        Seq::empty()
    } else if history[0].0@ == "user"@ {
        seq![("user"@, None::<Seq<char>>, history[0].1@)] + debate_message_views(
            history.drop_first(),
            persona1,
            persona2,
            first,
        )
    } else {
        seq![("assistant"@, Some(if first { persona1 } else { persona2 }), history[0].1@)]
            + debate_message_views(history.drop_first(), persona1, persona2, !first)
    }
}

/// The shared context of a council session.
pub fn council_thread_context(state: &CouncilState) -> (c: ThreadContext)
    ensures
        c.discussion_type == DiscussionType::Council,
        c.topic@ == state.topic@,
        c.participants@ == state.persona_ids@,
        c.rules == state.rules,
        message_views(c.messages@) == state.history@.map_values(|m: CouncilMessage| council_message_view(m)),
{
    let mut messages: Vec<DiscussionMessage> = Vec::new();
    let mut i: usize = 0;
    while i < state.history.len()
        invariant
            i <= state.history@.len(),
            message_views(messages@) == state.history@.take(i as int).map_values(
                |m: CouncilMessage| council_message_view(m),
            ),
        decreases state.history@.len() - i,
    {
        let msg = &state.history[i];
        let m = if str_eq(msg.role.as_str(), "user") {
            DiscussionMessage::user(msg.content.as_str())
        } else {
            match &msg.persona_id {
                Some(p) => DiscussionMessage::persona(p.as_str(), msg.content.as_str()),
                None => DiscussionMessage::persona("", msg.content.as_str()),
            }
        };
        proof {
            reveal_strlit("");
        }
        assert(message_view(m) == council_message_view(state.history@[i as int]));
        let ghost before = message_views(messages@);
        messages.push(m);
        assert(message_views(messages@) =~= before.push(message_view(m)));
        assert(state.history@.take(i + 1) =~= state.history@.take(i as int).push(state.history@[i as int]));
        assert(message_views(messages@) =~= state.history@.take(i + 1).map_values(
            |m: CouncilMessage| council_message_view(m),
        ));
        i = i + 1;
    }
    assert(state.history@.take(state.history@.len() as int) =~= state.history@);
    let mut ctx = ThreadContext::new(DiscussionType::Council, state.topic.as_str(), state.persona_ids.clone());
    ctx.messages = messages;
    ctx.rules = state.rules.clone();
    ctx
}

/// The shared context of a debate, from its configuration, rules and history.
pub fn debate_thread_context(config: &DebateConfig, rules: Option<String>, history: &Vec<(String, String)>) -> (c: ThreadContext)
    ensures
        c.discussion_type == DiscussionType::Debate,
        c.topic@ == config.topic@,
        c.participants@.len() == 2,
        c.participants@[0]@ == config.persona1_id@,
        c.participants@[1]@ == config.persona2_id@,
        c.rules == rules,
        message_views(c.messages@) == debate_message_views(
            history@,
            config.persona1_id@,
            config.persona2_id@,
            true,
        ),
{
    let mut messages: Vec<DiscussionMessage> = Vec::new();
    let mut is_persona1 = true;
    let mut i: usize = 0;
    let ghost p1 = config.persona1_id@;
    let ghost p2 = config.persona2_id@;
    assert(history@.skip(0) =~= history@);
    while i < history.len()
        invariant
            i <= history@.len(),
            p1 == config.persona1_id@,
            p2 == config.persona2_id@,
            message_views(messages@) + debate_message_views(history@.skip(i as int), p1, p2, is_persona1)
                == debate_message_views(history@, p1, p2, true),
        decreases history@.len() - i,
    {
        let ghost rest = history@.skip(i as int);
        assert(rest[0] == history@[i as int]);
        assert(rest.drop_first() =~= history@.skip(i + 1));
        let ghost before = message_views(messages@);
        let entry = &history[i];
        if str_eq(entry.0.as_str(), "user") {
            messages.push(DiscussionMessage::user(entry.1.as_str()));
        } else {
            let speaker = if is_persona1 {
                config.persona1_id.as_str()
            } else {
                config.persona2_id.as_str()
            };
            messages.push(DiscussionMessage::persona(speaker, entry.1.as_str()));
            is_persona1 = !is_persona1;
        }
        assert(message_views(messages@) =~= before.push(message_view(messages@.last())));
        i = i + 1;
    }
    let mut participants: Vec<String> = Vec::new();
    participants.push(config.persona1_id.clone());
    participants.push(config.persona2_id.clone());
    let mut ctx = ThreadContext::new(DiscussionType::Debate, config.topic.as_str(), participants);
    ctx.messages = messages;
    ctx.rules = rules;
    ctx
}

/// The context of a thread: its council session if it has one, else its debate, else none.
pub fn detect_thread_context(
    council: Option<&CouncilState>,
    debate: Option<(&DebateConfig, Option<String>, &Vec<(String, String)>)>,
) -> (r: Option<ThreadContext>)
    ensures
        match council {
            Some(state) => r matches Some(c) && c.discussion_type == DiscussionType::Council
                && c.topic@ == state.topic@ && c.participants@ == state.persona_ids@
                && c.rules == state.rules && message_views(c.messages@)
                == state.history@.map_values(|m: CouncilMessage| council_message_view(m)),
            None => match debate {
                Some((config, rules, history)) => r matches Some(c) && c.discussion_type
                    == DiscussionType::Debate && c.topic@ == config.topic@ && c.participants@.len()
                    == 2 && c.participants@[0]@ == config.persona1_id@ && c.participants@[1]@
                    == config.persona2_id@ && c.rules == rules && message_views(c.messages@)
                    == debate_message_views(history@, config.persona1_id@, config.persona2_id@, true),
                None => r is None,
            },
        },
{
    match council {
        Some(state) => Some(council_thread_context(state)),
        None => match debate {
            Some((config, rules, history)) => Some(debate_thread_context(config, rules, history)),
            None => None,
        },
    }
}

/// How a participant is named in a summary: the persona's display name, else its id.
pub open spec fn display_name(pm: PersonaManager, id: Seq<char>) -> Seq<char> {
    match pm.persona(id) {
        Some(p) => p.name@,
        None => id,
    }
}

/// The display names of `ids`, separated by `, `.
pub open spec fn joined_names(pm: PersonaManager, ids: Seq<String>) -> Seq<char>
    decreases ids.len(),
{
    if ids.len() == 0 {
        Seq::empty()
    } else if ids.len() == 1 {
        display_name(pm, ids[0]@)
    } else {
        joined_names(pm, ids.drop_last()) + ", "@ + display_name(pm, ids.last()@)
    }
}

/// A message as the summary quotes it: over 200 bytes it is cut to its first
/// 197 bytes and marked with `...`.
pub open spec fn preview(content: Seq<char>) -> Seq<char> {
    if utf8_len(content) > 200 {
        byte_take(content, 197) + "..."@
    } else {
        content
    }
}

/// One summary line: `- **speaker**: preview`.
pub open spec fn summary_entry(pm: PersonaManager, m: DiscussionMessage) -> Seq<char> {
    "- **"@ + match m.speaker {
        Some(id) => display_name(pm, id@),
        None => "User"@,
    } + "**: "@ + preview(m.content@) + "\n"@
}

/// The summary lines of `ms`, in order.
pub open spec fn summary_entries(pm: PersonaManager, ms: Seq<DiscussionMessage>) -> Seq<char>
    decreases ms.len(),
{
    if ms.len() == 0 {
        Seq::empty()
    } else {
        summary_entries(pm, ms.drop_last()) + summary_entry(pm, ms.last())
    }
}

/// Every long message of `ms` can be cut at byte 197 (a character boundary).
pub open spec fn previews_cut_cleanly(ms: Seq<DiscussionMessage>) -> bool {
    forall|i: int| 0 <= i < ms.len() ==> (utf8_len(#[trigger] ms[i].content@) > 200 ==> is_boundary(ms[i].content@, 197))
}

/// The number of most recent messages a prior-context summary quotes.
pub const PRIOR_CONTEXT_WINDOW: usize = 10;

/// The summary of a prior discussion for a new participant's system prompt.
pub open spec fn prior_context(ctx: ThreadContext, pm: PersonaManager) -> Seq<char> {
    "## Prior "@ + discussion_type_name(ctx.discussion_type) + " Context\n\n"@ + "**Original Topic:** "@
        + ctx.topic@ + "\n\n"@ + "**Previous Participants:** "@ + joined_names(pm, ctx.participants@)
        + "\n\n"@ + match ctx.rules {
        Some(r) => "**Established Rules:** "@ + r@ + "\n\n"@,
        None => Seq::<char>::empty(),
    } + if ctx.messages@.len() > 0 {
        "**Discussion Summary:**\n"@ + summary_entries(pm, last_n(ctx.messages@, PRIOR_CONTEXT_WINDOW as nat))
    } else {
        Seq::<char>::empty()
    }
        + "\nYou are joining this ongoing discussion. Build upon what has been said while bringing your unique perspective.\n"@
}

/// The display name of the persona `id`, else `id` itself.
pub fn persona_display_name(pm: &PersonaManager, id: &str) -> (s: String)
    ensures
        s@ == display_name(*pm, id@),
{
    match pm.get_persona(id) {
        Some(p) => p.name.clone(),
        None => id.to_owned(),
    }
}

/// A message's preview, as the summary quotes it.
fn append_preview(v: &mut Vec<char>, content: &str)
    requires
        utf8_len(content@) > 200 ==> is_boundary(content@, 197),
    ensures
        final(v)@ == old(v)@ + preview(content@),
{
    if byte_len(content) > 200 {
        let cs = chars_of(content);
        let cut = byte_prefix(cs.as_slice(), 197);
        crate::text::append_chars(v, cut.as_slice());
        append_str(v, "...");
    } else {
        append_str(v, content);
    }
}

/// Formats a prior discussion for inclusion in a system prompt: type, topic,
/// participants, rules, the last ten messages, and an invitation to join.
pub fn format_prior_context(context: &ThreadContext, persona_manager: &PersonaManager) -> (s: String)
    requires
        previews_cut_cleanly(last_n(context.messages@, PRIOR_CONTEXT_WINDOW as nat)),
    ensures
        s@ == prior_context(*context, *persona_manager),
{
    let mut v: Vec<char> = Vec::new();
    append_str(&mut v, "## Prior ");
    let t = context.discussion_type.to_string();
    append_str(&mut v, t.as_str());
    append_str(&mut v, " Context\n\n");
    append_str(&mut v, "**Original Topic:** ");
    append_str(&mut v, context.topic.as_str());
    append_str(&mut v, "\n\n");
    append_str(&mut v, "**Previous Participants:** ");
    let ghost ids = context.participants@;
    let ghost pm = *persona_manager;
    let ghost head = v@;
    let mut i: usize = 0;
    assert(ids.take(0) =~= Seq::<String>::empty());
    while i < context.participants.len()
        invariant
            i <= ids.len(),
            ids == context.participants@,
            pm == *persona_manager,
            v@ == head + joined_names(pm, ids.take(i as int)),
        decreases ids.len() - i,
    {
        if i > 0 {
            append_str(&mut v, ", ");
        }
        let name = persona_display_name(persona_manager, context.participants[i].as_str());
        append_str(&mut v, name.as_str());
        assert(ids.take(i + 1).drop_last() =~= ids.take(i as int));
        assert(v@ =~= head + joined_names(pm, ids.take(i + 1)));
        i = i + 1;
    }
    assert(ids.take(ids.len() as int) =~= ids);
    append_str(&mut v, "\n\n");
    let ghost before_rules = v@;
    match &context.rules {
        Some(r) => {
            append_str(&mut v, "**Established Rules:** ");
            append_str(&mut v, r.as_str());
            append_str(&mut v, "\n\n");
        },
        None => {},
    }
    let ghost before_summary = v@;
    let n = context.messages.len();
    if n > 0 {
        append_str(&mut v, "**Discussion Summary:**\n");
        let start: usize = if n <= PRIOR_CONTEXT_WINDOW {
            0
        } else {
            n - PRIOR_CONTEXT_WINDOW
        };
        let ghost ms = context.messages@;
        let ghost head2 = v@;
        let mut j: usize = start;
        assert(ms.subrange(start as int, start as int) =~= Seq::<DiscussionMessage>::empty());
        assert(last_n(ms, PRIOR_CONTEXT_WINDOW as nat) =~= ms.subrange(start as int, n as int));
        while j < n
            invariant
                start <= j <= n,
                n == ms.len(),
                ms == context.messages@,
                pm == *persona_manager,
                start == (if n <= PRIOR_CONTEXT_WINDOW { 0 } else { n - PRIOR_CONTEXT_WINDOW }),
                previews_cut_cleanly(ms.subrange(start as int, n as int)),
                v@ == head2 + summary_entries(pm, ms.subrange(start as int, j as int)),
            decreases n - j,
        {
            let m = &context.messages[j];
            append_str(&mut v, "- **");
            match &m.speaker {
                Some(id) => {
                    let name = persona_display_name(persona_manager, id.as_str());
                    append_str(&mut v, name.as_str());
                },
                None => {
                    append_str(&mut v, "User");
                },
            }
            append_str(&mut v, "**: ");
            assert(ms.subrange(start as int, n as int)[j - start] == ms[j as int]);
            append_preview(&mut v, m.content.as_str());
            append_str(&mut v, "\n");
            assert(ms.subrange(start as int, j + 1).drop_last() =~= ms.subrange(start as int, j as int));
            assert(v@ =~= head2 + summary_entries(pm, ms.subrange(start as int, j + 1)));
            j = j + 1;
        }
    }
    append_str(&mut v, "\nYou are joining this ongoing discussion. Build upon what has been said while bringing your unique perspective.\n");
    string_of(v.as_slice())
}

/// The prior context for council members joining a debate.
pub fn format_debate_context_for_council(context: &ThreadContext, persona_manager: &PersonaManager) -> (s: String)
    requires
        previews_cut_cleanly(last_n(context.messages@, PRIOR_CONTEXT_WINDOW as nat)),
    ensures
        s@ == prior_context(*context, *persona_manager)
            + "\nAs a council member, provide a fresh perspective that may synthesize or challenge the debate positions.\n"@,
{
    let base = format_prior_context(context, persona_manager);
    let mut v: Vec<char> = Vec::new();
    append_str(&mut v, base.as_str());
    append_str(&mut v, "\nAs a council member, provide a fresh perspective that may synthesize or challenge the debate positions.\n");
    string_of(v.as_slice())
}

/// The prior context for debaters joining a council.
pub fn format_council_context_for_debate(context: &ThreadContext, persona_manager: &PersonaManager) -> (s: String)
    requires
        previews_cut_cleanly(last_n(context.messages@, PRIOR_CONTEXT_WINDOW as nat)),
    ensures
        s@ == prior_context(*context, *persona_manager)
            + "\nAs a debater, take a clear position that addresses the council's discussion points.\n"@,
{
    let base = format_prior_context(context, persona_manager);
    let mut v: Vec<char> = Vec::new();
    append_str(&mut v, base.as_str());
    append_str(&mut v, "\nAs a debater, take a clear position that addresses the council's discussion points.\n");
    string_of(v.as_slice())
}

/// Prefix of the buttons that pick the next council speaker.
pub const SPEAKER_COUNCIL_PREFIX: &'static str = "speaker_council_";
/// Prefix of the button that continues a council.
pub const CONTINUE_COUNCIL_PREFIX: &'static str = "continue_council_";
/// Prefix of the button that dismisses a council.
pub const DISMISS_COUNCIL_PREFIX: &'static str = "dismiss_council_";
/// Prefix of the buttons that pick the next debater.
pub const HEAR_DEBATE_PREFIX: &'static str = "hear_debate_";
/// Prefix of the button that continues a debate.
pub const CONTINUE_DEBATE_PREFIX: &'static str = "debate_continue_";
/// Prefix of the button that ends a debate.
pub const END_DEBATE_PREFIX: &'static str = "debate_end_";

/// `s` without the prefix `p`, if it starts with it (`str::strip_prefix`).
pub open spec fn strip_prefix(s: Seq<char>, p: Seq<char>) -> Option<Seq<char>> {
    if starts_with(s, p) {
        Some(s.skip(p.len() as int))
    } else {
        None
    }
}

/// The id of a council speaker button: `speaker_council_{thread}_{persona}_{index}`.
pub open spec fn speaker_button(thread_id: u64, persona_id: Seq<char>, index: nat) -> Seq<char> {
    "speaker_council_"@ + dec(thread_id as nat) + seq!['_'] + persona_id + seq!['_'] + dec(index)
}

/// The id of a debate button that asks to hear a debater: `hear_debate_{thread}_{persona}`.
pub open spec fn hear_button(thread_id: u64, persona_id: Seq<char>) -> Seq<char> {
    "hear_debate_"@ + dec(thread_id as nat) + seq!['_'] + persona_id
}

/// What a council speaker button id names: the thread and the persona.
pub open spec fn council_speaker(custom_id: Seq<char>) -> Option<(u64, Seq<char>)> {
    match strip_prefix(custom_id, "speaker_council_"@) {
        None => None,
        Some(rest) => {
            let parts = splitn_char(rest, 3, '_');
            if parts.len() >= 2 {
                match parse_u64(parts[0]) {
                    Some(t) => Some((t, parts[1])),
                    None => None,
                }
            } else {
                None
            }
        },
    }
}

/// What a debate hear button id names: the thread and the persona.
pub open spec fn debate_hear(custom_id: Seq<char>) -> Option<(u64, Seq<char>)> {
    match strip_prefix(custom_id, "hear_debate_"@) {
        None => None,
        Some(rest) => {
            let parts = splitn_char(rest, 2, '_');
            if parts.len() == 2 {
                match parse_u64(parts[0]) {
                    Some(t) => Some((t, parts[1])),
                    None => None,
                }
            } else {
                None
            }
        },
    }
}

/// The view of a parsed button id.
pub open spec fn parsed_view(r: Option<(u64, String)>) -> Option<(u64, Seq<char>)> {
    match r {
        Some((t, p)) => Some((t, p@)),
        None => None,
    }
}

/// Splits what follows `prefix` in `custom_id` into at most `n` pieces at `_`
/// and reads a thread id and a persona id from the first two, when there are
/// at least `min_parts` pieces.
fn parse_button_id(custom_id: &str, prefix: &str, n: usize, min_parts: usize) -> (r: Option<(u64, String)>)
    requires
        n >= 1,
        min_parts >= 2,
    ensures
        parsed_view(r) == match strip_prefix(custom_id@, prefix@) {
            None => None,
            Some(rest) => {
                let parts = splitn_char(rest, n as nat, '_');
                if parts.len() >= min_parts {
                    match parse_u64(parts[0]) {
                        Some(t) => Some((t, parts[1])),
                        None => None,
                    }
                } else {
                    None
                }
            },
        },
{
    let cs = chars_of(custom_id);
    let ps = chars_of(prefix);
    if !crate::text::starts_with_chars(cs.as_slice(), ps.as_slice()) {
        return None;
    }
    let rest = crate::text::copy_range(cs.as_slice(), ps.len(), cs.len());
    assert(rest@ =~= cs@.skip(ps@.len() as int));
    let parts = crate::text::splitn_chars(rest.as_slice(), n, '_');
    if parts.len() >= min_parts {
        assert(parts@[0]@ == crate::text::views(parts@)[0]);
        assert(parts@[1]@ == crate::text::views(parts@)[1]);
        match crate::text::parse_u64_chars(parts[0].as_slice()) {
            Some(t) => Some((t, string_of(parts[1].as_slice()))),
            None => None,
        }
    } else {
        None
    }
}

/// Reads (thread id, persona id) from a council speaker button id.
pub fn parse_council_speaker_id(custom_id: &str) -> (r: Option<(u64, String)>)
    ensures
        parsed_view(r) == council_speaker(custom_id@),
{
    let r = parse_button_id(custom_id, SPEAKER_COUNCIL_PREFIX, 3, 2);
    proof {
        reveal_strlit("speaker_council_");
    }
    r
}

/// Reads (thread id, persona id) from a debate hear button id.
pub fn parse_debate_hear_id(custom_id: &str) -> (r: Option<(u64, String)>)
    ensures
        parsed_view(r) == debate_hear(custom_id@),
{
    let r = parse_button_id(custom_id, HEAR_DEBATE_PREFIX, 2, 2);
    proof {
        reveal_strlit("hear_debate_");
        assert forall|s: Seq<char>| #[trigger] splitn_char(s, 2, '_').len() <= 2 by {
            crate::text::lemma_splitn_len(s, 2, '_');
        }
    }
    r
}

/// The look of a button.
#[derive(Debug, Clone, Copy, PartialEq, Eq, Structural)]
pub enum ButtonKind {
    Primary,
    Success,
    Secondary,
}

/// A button to be shown: its id, label and look.
#[derive(Debug, Clone)]
pub struct ButtonSpec {
    pub custom_id: String,
    pub label: String,
    pub kind: ButtonKind,
}

/// A button as plain values.
pub open spec fn button_view(b: ButtonSpec) -> (Seq<char>, Seq<char>, ButtonKind) {
    (b.custom_id@, b.label@, b.kind)
}

/// The id of a control button: its prefix, then the thread id.
pub open spec fn control_button(prefix: Seq<char>, thread_id: u64) -> Seq<char> {
    prefix + dec(thread_id as nat)
}

/// A speaker's label on a button: its display name, cut to 17 bytes and marked
/// with `...` when over 20 bytes.
pub open spec fn speaker_label(pm: PersonaManager, id: Seq<char>) -> Seq<char> {
    let name = display_name(pm, id);
    if utf8_len(name) > 20 {
        byte_take(name, 17) + "..."@
    } else {
        name
    }
}

/// Speaker button `i` of a council over `ids`.
pub open spec fn speaker_entry(pm: PersonaManager, thread_id: u64, ids: Seq<String>, i: int) -> (Seq<char>, Seq<char>, ButtonKind) {
    (speaker_button(thread_id, ids[i]@, i as nat), "Hear "@ + speaker_label(pm, ids[i]@), ButtonKind::Primary)
}

/// Every speaker label of `ids` can be cut at byte 17 where it must be.
pub open spec fn labels_cut_cleanly(pm: PersonaManager, ids: Seq<String>) -> bool {
    forall|i: int| 0 <= i < ids.len() ==> (utf8_len(#[trigger] display_name(pm, ids[i]@)) > 20 ==> is_boundary(display_name(pm, ids[i]@), 17))
}

/// The number of rows of speaker buttons: five to a row, at most two rows.
pub open spec fn speaker_rows(n: nat) -> nat {
    let rows = (n + 4) / 5;
    if rows > 2 {
        2
    } else {
        rows
    }
}

/// The id of a council speaker button.
pub fn speaker_button_id(thread_id: u64, persona_id: &str, index: usize) -> (s: String)
    ensures
        s@ == speaker_button(thread_id, persona_id@, index as nat),
{
    let mut v: Vec<char> = Vec::new();
    append_str(&mut v, SPEAKER_COUNCIL_PREFIX);
    crate::text::append_decimal(&mut v, thread_id);
    v.push('_');
    append_str(&mut v, persona_id);
    v.push('_');
    crate::text::append_decimal(&mut v, index as u64);
    proof {
        reveal_strlit("speaker_council_");
    }
    assert(v@ =~= speaker_button(thread_id, persona_id@, index as nat));
    string_of(v.as_slice())
}

/// The id of a debate button that asks to hear a debater.
pub fn hear_button_id(thread_id: u64, persona_id: &str) -> (s: String)
    ensures
        s@ == hear_button(thread_id, persona_id@),
{
    let mut v: Vec<char> = Vec::new();
    append_str(&mut v, HEAR_DEBATE_PREFIX);
    crate::text::append_decimal(&mut v, thread_id);
    v.push('_');
    append_str(&mut v, persona_id);
    proof {
        reveal_strlit("hear_debate_");
    }
    assert(v@ =~= hear_button(thread_id, persona_id@));
    string_of(v.as_slice())
}

/// The id of a control button.
pub fn control_button_id(prefix: &str, thread_id: u64) -> (s: String)
    ensures
        s@ == control_button(prefix@, thread_id),
{
    let mut v: Vec<char> = Vec::new();
    append_str(&mut v, prefix);
    crate::text::append_decimal(&mut v, thread_id);
    string_of(v.as_slice())
}

fn button(custom_id: String, label: &str, kind: ButtonKind) -> (b: ButtonSpec)
    ensures
        button_view(b) == (custom_id@, label@, kind),
{
    ButtonSpec { custom_id, label: label.to_owned(), kind }
}

/// The label of a speaker button.
fn speaker_button_label(pm: &PersonaManager, id: &str) -> (s: String)
    requires
        utf8_len(display_name(*pm, id@)) > 20 ==> is_boundary(display_name(*pm, id@), 17),
    ensures
        s@ == "Hear "@ + speaker_label(*pm, id@),
{
    let name = persona_display_name(pm, id);
    let mut v: Vec<char> = Vec::new();
    append_str(&mut v, "Hear ");
    if byte_len(name.as_str()) > 20 {
        let cs = chars_of(name.as_str());
        let cut = byte_prefix(cs.as_slice(), 17);
        crate::text::append_chars(&mut v, cut.as_slice());
        append_str(&mut v, "...");
    } else {
        append_str(&mut v, name.as_str());
    }
    string_of(v.as_slice())
}

/// The buttons of a council after its opening statements: up to two rows of
/// five speaker buttons, then a row to continue or dismiss the council.
pub fn create_council_buttons(thread_id: u64, persona_ids: &Vec<String>, persona_manager: &PersonaManager) -> (rows: Vec<Vec<ButtonSpec>>)
    requires
        labels_cut_cleanly(*persona_manager, persona_ids@),
        persona_ids@.len() <= u64::MAX,
    ensures
        rows@.len() == speaker_rows(persona_ids@.len()) + 1,
        forall|r: int| 0 <= r < speaker_rows(persona_ids@.len()) ==> {
            &&& (#[trigger] rows@[r])@.len() == (if persona_ids@.len() - 5 * r >= 5 { 5 } else { persona_ids@.len() - 5 * r })
            &&& forall|j: int| 0 <= j < rows@[r]@.len() ==> button_view(#[trigger] rows@[r]@[j]) == speaker_entry(
                *persona_manager,
                thread_id,
                persona_ids@,
                5 * r + j,
            )
        },
        rows@.last()@.len() == 2,
        button_view(rows@.last()@[0]) == (control_button("continue_council_"@, thread_id), "Continue Discussion"@, ButtonKind::Success),
        button_view(rows@.last()@[1]) == (control_button("dismiss_council_"@, thread_id), "Dismiss Council"@, ButtonKind::Secondary),
{
    let ghost ids = persona_ids@;
    let ghost pm = *persona_manager;
    let n = persona_ids.len();
    let mut rows: Vec<Vec<ButtonSpec>> = Vec::new();
    let mut i: usize = 0;
    let mut row: Vec<ButtonSpec> = Vec::new();
    while i < n && rows.len() < 2
        invariant
            ids == persona_ids@,
            pm == *persona_manager,
            n == ids.len(),
            labels_cut_cleanly(pm, ids),
            i <= n,
            rows@.len() <= 2,
            i == 5 * rows@.len() + row@.len(),
            row@.len() < 5,
            rows@.len() == 2 ==> row@.len() == 0,
            forall|r: int| 0 <= r < rows@.len() ==> {
                &&& (#[trigger] rows@[r])@.len() == 5
                &&& forall|j: int| 0 <= j < 5 ==> button_view(#[trigger] rows@[r]@[j]) == speaker_entry(pm, thread_id, ids, 5 * r + j)
            },
            forall|j: int| 0 <= j < row@.len() ==> button_view(#[trigger] row@[j]) == speaker_entry(pm, thread_id, ids, 5 * rows@.len() + j),
        decreases n - i,
    {
        let id = persona_ids[i].as_str();
        assert(display_name(pm, ids[i as int]@) == display_name(pm, id@));
        let custom_id = speaker_button_id(thread_id, id, i);
        let label = speaker_button_label(persona_manager, id);
        row.push(button(custom_id, label.as_str(), ButtonKind::Primary));
        i = i + 1;
        if row.len() >= 5 {
            let full = row;
            row = Vec::new();
            rows.push(full);
        }
    }
    if row.len() > 0 {
        rows.push(row);
    }
    proof {
        assert(rows@.len() == speaker_rows(n as nat)) by (nonlinear_arith)
            requires
                i <= n,
                rows@.len() <= 2,
                i == 5 * (rows@.len() - (if row@.len() > 0 { 1int } else { 0int })) + row@.len(),
                row@.len() < 5,
                i == n || rows@.len() >= 2,
        {}
    }
    let mut control: Vec<ButtonSpec> = Vec::new();
    control.push(button(control_button_id(CONTINUE_COUNCIL_PREFIX, thread_id), "Continue Discussion", ButtonKind::Success));
    control.push(button(control_button_id(DISMISS_COUNCIL_PREFIX, thread_id), "Dismiss Council", ButtonKind::Secondary));
    proof {
        reveal_strlit("continue_council_");
        reveal_strlit("dismiss_council_");
    }
    rows.push(control);
    rows
}

/// The buttons of a debate: a row to hear either debater, then a row to
/// continue (four more rounds) or end the debate.
pub fn create_debate_buttons(thread_id: u64, persona1_id: &str, persona2_id: &str, persona_manager: &PersonaManager) -> (rows: Vec<Vec<ButtonSpec>>)
    ensures
        rows@.len() == 2,
        rows@[0]@.len() == 2,
        button_view(rows@[0]@[0]) == (hear_button(thread_id, persona1_id@), "Hear "@ + display_name(*persona_manager, persona1_id@), ButtonKind::Primary),
        button_view(rows@[0]@[1]) == (hear_button(thread_id, persona2_id@), "Hear "@ + display_name(*persona_manager, persona2_id@), ButtonKind::Primary),
        rows@[1]@.len() == 2,
        button_view(rows@[1]@[0]) == (control_button("debate_continue_"@, thread_id), "Continue (+4 rounds)"@, ButtonKind::Success),
        button_view(rows@[1]@[1]) == (control_button("debate_end_"@, thread_id), "End Debate"@, ButtonKind::Secondary),
{
    let mut hear: Vec<ButtonSpec> = Vec::new();
    let mut label1: Vec<char> = Vec::new();
    append_str(&mut label1, "Hear ");
    append_str(&mut label1, persona_display_name(persona_manager, persona1_id).as_str());
    let mut label2: Vec<char> = Vec::new();
    append_str(&mut label2, "Hear ");
    append_str(&mut label2, persona_display_name(persona_manager, persona2_id).as_str());
    hear.push(button(hear_button_id(thread_id, persona1_id), string_of(label1.as_slice()).as_str(), ButtonKind::Primary));
    hear.push(button(hear_button_id(thread_id, persona2_id), string_of(label2.as_slice()).as_str(), ButtonKind::Primary));
    let mut control: Vec<ButtonSpec> = Vec::new();
    control.push(button(control_button_id(CONTINUE_DEBATE_PREFIX, thread_id), "Continue (+4 rounds)", ButtonKind::Success));
    control.push(button(control_button_id(END_DEBATE_PREFIX, thread_id), "End Debate", ButtonKind::Secondary));
    proof {
        reveal_strlit("debate_continue_");
        reveal_strlit("debate_end_");
    }
    let mut rows: Vec<Vec<ButtonSpec>> = Vec::new();
    rows.push(hear);
    rows.push(control);
    rows
}

/// The buttons of a paused discussion: continue it, or dismiss the council or
/// end the debate.
pub fn create_awaiting_buttons(thread_id: u64, discussion_type: DiscussionType) -> (row: Vec<ButtonSpec>)
    ensures
        row@.len() == 2,
        discussion_type == DiscussionType::Council ==> button_view(row@[0]) == (control_button("continue_council_"@, thread_id), "Continue Discussion"@, ButtonKind::Success)
            && button_view(row@[1]) == (control_button("dismiss_council_"@, thread_id), "Dismiss Council"@, ButtonKind::Secondary),
        discussion_type == DiscussionType::Debate ==> button_view(row@[0]) == (control_button("debate_continue_"@, thread_id), "Continue Debate"@, ButtonKind::Success)
            && button_view(row@[1]) == (control_button("debate_end_"@, thread_id), "End Debate"@, ButtonKind::Secondary),
{
    proof {
        reveal_strlit("continue_council_");
        reveal_strlit("dismiss_council_");
        reveal_strlit("debate_continue_");
        reveal_strlit("debate_end_");
    }
    let mut row: Vec<ButtonSpec> = Vec::new();
    match discussion_type {
        DiscussionType::Council => {
            row.push(button(control_button_id(CONTINUE_COUNCIL_PREFIX, thread_id), "Continue Discussion", ButtonKind::Success));
            row.push(button(control_button_id(DISMISS_COUNCIL_PREFIX, thread_id), "Dismiss Council", ButtonKind::Secondary));
        },
        DiscussionType::Debate => {
            row.push(button(control_button_id(CONTINUE_DEBATE_PREFIX, thread_id), "Continue Debate", ButtonKind::Success));
            row.push(button(control_button_id(END_DEBATE_PREFIX, thread_id), "End Debate", ButtonKind::Secondary));
        },
    }
    row
}

/// Law: a council speaker button reads back as the thread and persona it was
/// made for, when the persona id holds no underscore.
#[verifier::spinoff_prover]
#[verifier::rlimit(40)]
pub proof fn lemma_council_speaker_round_trip(thread_id: u64, persona_id: Seq<char>, index: nat)
    requires
        !persona_id.contains('_'),
    ensures
        council_speaker(speaker_button(thread_id, persona_id, index)) == Some((thread_id, persona_id)),
{
    let prefix = "speaker_council_"@;
    let d = dec(thread_id as nat);
    let id = speaker_button(thread_id, persona_id, index);
    let rest = d + seq!['_'] + persona_id + seq!['_'] + dec(index);
    crate::text::lemma_parse_dec(thread_id);
    crate::text::lemma_dec_digits(index);
    assert(id =~= prefix + rest);
    assert(id.subrange(0, prefix.len() as int) =~= prefix);
    assert(id.skip(prefix.len() as int) =~= rest);
    assert(rest[d.len() as int] == '_');
    assert forall|j: int| 0 <= j < d.len() implies rest[j] != '_' by {
        assert(rest[j] == d[j]);
    }
    crate::text::lemma_first_char_occurrence(rest, '_', d.len() as int);
    let tail = rest.skip(d.len() as int + 1);
    assert(tail =~= persona_id + seq!['_'] + dec(index));
    assert(tail[persona_id.len() as int] == '_');
    assert forall|j: int| 0 <= j < persona_id.len() implies tail[j] != '_' by {
        assert(tail[j] == persona_id[j]);
    }
    crate::text::lemma_first_char_occurrence(tail, '_', persona_id.len() as int);
    assert(rest.take(d.len() as int) =~= d);
    assert(tail.take(persona_id.len() as int) =~= persona_id);
    let last = tail.skip(persona_id.len() as int + 1);
    assert(splitn_char(last, 1, '_') == seq![last]);
    assert(splitn_char(tail, 2, '_') == seq![tail.take(persona_id.len() as int)] + splitn_char(last, 1, '_'));
    assert(splitn_char(rest, 3, '_') == seq![rest.take(d.len() as int)] + splitn_char(tail, 2, '_'));
    let parts = splitn_char(rest, 3, '_');
    assert(parts.len() == 3);
    assert(parts[0] == d);
    assert(parts[1] == persona_id);
}

/// Law: a debate hear button reads back as the thread and persona it was made for.
#[verifier::spinoff_prover]
pub proof fn lemma_debate_hear_round_trip(thread_id: u64, persona_id: Seq<char>)
    ensures
        debate_hear(hear_button(thread_id, persona_id)) == Some((thread_id, persona_id)),
{
    let prefix = "hear_debate_"@;
    let d = dec(thread_id as nat);
    let id = hear_button(thread_id, persona_id);
    let rest = d + seq!['_'] + persona_id;
    crate::text::lemma_parse_dec(thread_id);
    assert(id =~= prefix + rest);
    assert(id.subrange(0, prefix.len() as int) =~= prefix);
    assert(id.skip(prefix.len() as int) =~= rest);
    assert(rest[d.len() as int] == '_');
    assert forall|j: int| 0 <= j < d.len() implies rest[j] != '_' by {
        assert(rest[j] == d[j]);
    }
    crate::text::lemma_first_char_occurrence(rest, '_', d.len() as int);
    assert(rest.take(d.len() as int) =~= d);
    assert(rest.skip(d.len() as int + 1) =~= persona_id);
    let tail = rest.skip(d.len() as int + 1);
    assert(splitn_char(tail, 1, '_') == seq![tail]);
    assert(splitn_char(rest, 2, '_') == seq![rest.take(d.len() as int)] + splitn_char(tail, 1, '_'));
    let parts = splitn_char(rest, 2, '_');
    assert(parts.len() == 2);
    assert(parts[0] == d);
    assert(parts[1] == persona_id);
}

} // verus!
