//! Debates between two personas: the prompts of each turn, who speaks when,
//! and the text of the messages that carry the debate.

use vstd::prelude::*;
use crate::personas::{catalogue, is_catalogue_entry, Persona, PersonaManager};
use crate::text::{
    append_signed, append_str, byte_len, byte_prefix, byte_take, chars_of,
    is_boundary, lowercase, replace_all, replace_chars, signed_dec, string_of, to_lowercase, utf8_len,
};

verus! {

/// Configuration for a debate session.
#[derive(Debug, Clone)]
pub struct DebateConfig {
    /// First debater persona ID
    pub persona1_id: String,
    /// Second debater persona ID
    pub persona2_id: String,
    /// Topic or question to debate
    pub topic: String,
    /// Number of total responses
    pub rounds: i64,
    /// User who initiated the debate
    pub initiator_id: String,
    /// Guild ID (if in a guild)
    pub guild_id: Option<String>,
}

/// Orchestrates a debate between two personas.
pub struct DebateOrchestrator {
    pub persona_manager: PersonaManager,
}

/// What one turn of a debate asks of the model, and what follows it.
pub struct DebateTurn {
    /// The first debater speaks (odd rounds), else the second.
    pub first_speaks: bool,
    /// The first round is the opening statement.
    pub is_opening: bool,
    /// The system prompt of the speaker.
    pub system_prompt: String,
    /// The user message that starts the turn.
    pub user_message: String,
    /// A pause follows the turn (every round but the last).
    pub pause_after: bool,
}

/// The debate instructions appended to the speaker's system prompt.
pub open spec fn debate_instructions(opponent: Seq<char>, topic: Seq<char>, name: Seq<char>, is_opening: bool) -> Seq<char> {
    if is_opening {
        "\n\n## Debate Context\nYou are participating in a friendly debate against "@ + opponent
            + " on the topic: \""@ + topic
            + "\"\n\nThis is your OPENING STATEMENT. Present your initial position on this topic.\n\nGuidelines:\n- Stay completely in character as "@
            + name
            + "\n- Present your viewpoint clearly and persuasively\n- Keep your response focused and engaging (2-4 paragraphs)\n- Be respectful but feel free to be passionate about your position\n- Use your unique personality and speaking style"@
    } else {
        "\n\n## Debate Context\nYou are in a debate against "@ + opponent + " on the topic: \""@ + topic
            + "\"\n\nRespond to your opponent's previous argument. You may:\n- Counter their points with your own reasoning\n- Acknowledge valid points while presenting alternatives\n- Introduce new perspectives they haven't considered\n- Use examples, analogies, or evidence that fits your character\n\nGuidelines:\n- Stay completely in character as "@
            + name
            + "\n- Keep your response focused (2-3 paragraphs)\n- Be respectful but don't shy away from disagreement\n- Build on the conversation rather than repeating yourself"@
    }
}

/// The user message that starts a turn.
pub open spec fn turn_message(opponent: Seq<char>, topic: Seq<char>, is_opening: bool) -> Seq<char> {
    if is_opening {
        "Begin the debate on: "@ + topic
    } else {
        "Your opponent "@ + opponent + " just said their piece. Respond to continue the debate on: "@ + topic
    }
}

/// A response as an embed shows it: cut to 3997 bytes and marked when over 4000 bytes.
pub open spec fn embed_text(response: Seq<char>) -> Seq<char> {
    if utf8_len(response) > 4000 {
        byte_take(response, 3997) + "..."@
    } else {
        response
    }
}

/// The closing summary of a debate.
pub open spec fn closing_text(topic: Seq<char>, name1: Seq<char>, name2: Seq<char>, rounds: int) -> Seq<char> {
    "**Topic:** "@ + topic + "\n\n**Debaters:** "@ + name1 + " vs "@ + name2 + "\n**Rounds:** "@ + signed_dec(rounds)
}

impl DebateOrchestrator {
    /// An orchestrator with the built-in personas.
    pub fn new() -> (o: Self)
        ensures
            o.persona_manager.entries().len() == catalogue().len(),
            forall|i: int| 0 <= i < catalogue().len() ==> is_catalogue_entry(
                #[trigger] o.persona_manager.entries()[i],
                catalogue()[i],
            ),
    {
        DebateOrchestrator { persona_manager: PersonaManager::new() }
    }

    /// The system prompt of a debater: its own prompt, then the debate instructions.
    pub fn build_debate_prompt(&self, persona: &Persona, opponent_name: &str, topic: &str, is_opening: bool) -> (s: String)
        ensures
            s@ == persona.system_prompt@ + debate_instructions(opponent_name@, topic@, persona.name@, is_opening),
    {
        let mut v: Vec<char> = Vec::new();
        append_str(&mut v, persona.system_prompt.as_str());
        if is_opening {
            append_str(&mut v, "\n\n## Debate Context\nYou are participating in a friendly debate against ");
            append_str(&mut v, opponent_name);
            append_str(&mut v, " on the topic: \"");
            append_str(&mut v, topic);
            append_str(&mut v, "\"\n\nThis is your OPENING STATEMENT. Present your initial position on this topic.\n\nGuidelines:\n- Stay completely in character as ");
            append_str(&mut v, persona.name.as_str());
            append_str(&mut v, "\n- Present your viewpoint clearly and persuasively\n- Keep your response focused and engaging (2-4 paragraphs)\n- Be respectful but feel free to be passionate about your position\n- Use your unique personality and speaking style");
        } else {
            append_str(&mut v, "\n\n## Debate Context\nYou are in a debate against ");
            append_str(&mut v, opponent_name);
            append_str(&mut v, " on the topic: \"");
            append_str(&mut v, topic);
            append_str(&mut v, "\"\n\nRespond to your opponent's previous argument. You may:\n- Counter their points with your own reasoning\n- Acknowledge valid points while presenting alternatives\n- Introduce new perspectives they haven't considered\n- Use examples, analogies, or evidence that fits your character\n\nGuidelines:\n- Stay completely in character as ");
            append_str(&mut v, persona.name.as_str());
            append_str(&mut v, "\n- Keep your response focused (2-3 paragraphs)\n- Be respectful but don't shy away from disagreement\n- Build on the conversation rather than repeating yourself");
        }
        assert(v@ =~= persona.system_prompt@ + debate_instructions(opponent_name@, topic@, persona.name@, is_opening));
        string_of(v.as_slice())
    }

    /// The plan of round `round` (counted from 1) of a debate of `config.rounds`
    /// rounds: odd rounds belong to the first debater, the first round opens,
    /// and every round but the last is followed by a pause.
    pub fn plan_turn(&self, persona1: &Persona, persona2: &Persona, config: &DebateConfig, round: i64) -> (t: DebateTurn)
        requires
            1 <= round,
        ensures
            t.first_speaks == (round % 2 == 1),
            t.is_opening == (round == 1),
            t.pause_after == (round < config.rounds),
            t.first_speaks ==> t.system_prompt@ == persona1.system_prompt@ + debate_instructions(
                persona2.name@,
                config.topic@,
                persona1.name@,
                t.is_opening,
            ) && t.user_message@ == turn_message(persona2.name@, config.topic@, t.is_opening),
            !t.first_speaks ==> t.system_prompt@ == persona2.system_prompt@ + debate_instructions(
                persona1.name@,
                config.topic@,
                persona2.name@,
                t.is_opening,
            ) && t.user_message@ == turn_message(persona1.name@, config.topic@, t.is_opening),
    {
        let is_opening = round == 1;
        let first_speaks = round % 2 == 1;
        let (current, opponent) = if first_speaks {
            (persona1, persona2)
        } else {
            (persona2, persona1)
        };
        let system_prompt = self.build_debate_prompt(current, opponent.name.as_str(), config.topic.as_str(), is_opening);
        let mut m: Vec<char> = Vec::new();
        if is_opening {
            append_str(&mut m, "Begin the debate on: ");
            append_str(&mut m, config.topic.as_str());
        } else {
            append_str(&mut m, "Your opponent ");
            append_str(&mut m, opponent.name.as_str());
            append_str(&mut m, " just said their piece. Respond to continue the debate on: ");
            append_str(&mut m, config.topic.as_str());
        }
        DebateTurn {
            first_speaks,
            is_opening,
            system_prompt,
            user_message: string_of(m.as_slice()),
            pause_after: round < config.rounds,
        }
    }
}

/// The text of a response embed: at most 4000 bytes, cut at 3997 bytes with
/// `...` when longer (the cut must fall on a character boundary).
pub fn debate_embed_text(response: &str) -> (s: String)
    requires
        utf8_len(response@) > 4000 ==> is_boundary(response@, 3997),
    ensures
        s@ == embed_text(response@),
{
    if byte_len(response) > 4000 {
        let cs = chars_of(response);
        let mut v = byte_prefix(cs.as_slice(), 3997);
        append_str(&mut v, "...");
        string_of(v.as_slice())
    } else {
        response.to_owned()
    }
}

/// The footer of a response embed: `Response {round}/{total}`.
pub fn debate_embed_footer(round: i64, total_rounds: i64) -> (s: String)
    ensures
        s@ == "Response "@ + signed_dec(round as int) + "/"@ + signed_dec(total_rounds as int),
{
    let mut v: Vec<char> = Vec::new();
    append_str(&mut v, "Response ");
    append_signed(&mut v, round);
    append_str(&mut v, "/");
    append_signed(&mut v, total_rounds);
    string_of(v.as_slice())
}

/// The description of the closing embed.
pub fn debate_closing_text(persona1: &Persona, persona2: &Persona, topic: &str, rounds: i64) -> (s: String)
    ensures
        s@ == closing_text(topic@, persona1.name@, persona2.name@, rounds as int),
{
    let mut v: Vec<char> = Vec::new();
    append_str(&mut v, "**Topic:** ");
    append_str(&mut v, topic);
    append_str(&mut v, "\n\n**Debaters:** ");
    append_str(&mut v, persona1.name.as_str());
    append_str(&mut v, " vs ");
    append_str(&mut v, persona2.name.as_str());
    append_str(&mut v, "\n**Rounds:** ");
    append_signed(&mut v, rounds);
    string_of(v.as_slice())
}

/// The key under which a persona's portrait is looked up from its display
/// name: lower-cased, with spaces and hyphens as underscores.
pub fn portrait_key(name: &str) -> (s: String)
    ensures
        s@ == replace_all(replace_all(lowercase(name@), seq![' '], seq!['_']), seq!['-'], seq!['_']),
{
    let lower = to_lowercase(name);
    let cs = chars_of(lower.as_str());
    let mut space: Vec<char> = Vec::new();
    space.push(' ');
    let mut hyphen: Vec<char> = Vec::new();
    hyphen.push('-');
    let mut under: Vec<char> = Vec::new();
    under.push('_');
    let a = replace_chars(cs.as_slice(), space.as_slice(), under.as_slice());
    let b = replace_chars(a.as_slice(), hyphen.as_slice(), under.as_slice());
    assert(space@ =~= seq![' ']);
    assert(hyphen@ =~= seq!['-']);
    assert(under@ =~= seq!['_']);
    string_of(b.as_slice())
}


/// The message for a debater the catalogue lacks.
pub fn missing_persona_message(id: &str) -> (m: String)
    ensures
        m@ == "Persona '"@ + id@ + "' not found"@,
{
    let mut v: Vec<char> = Vec::new();
    append_str(&mut v, "Persona '");
    append_str(&mut v, id);
    append_str(&mut v, "' not found");
    string_of(v.as_slice())
}

/// The message posted when a debater's response could not be had; the turn
/// is skipped.
pub fn skipped_turn_message(persona_name: &str) -> (m: String)
    ensures
        m@ == "*"@ + persona_name@ + " seems lost in thought... (API error, skipping turn)*"@,
{
    let mut v: Vec<char> = Vec::new();
    append_str(&mut v, "*");
    append_str(&mut v, persona_name);
    append_str(&mut v, " seems lost in thought... (API error, skipping turn)*");
    string_of(v.as_slice())
}

/// A debate in progress: the round about to be played, the rounds in all,
/// and the responses so far (each as the assistant's turn).
pub struct DebateRun {
    round: i64,
    rounds: i64,
    history: Vec<(String, String)>,
    stopped: bool,
}

impl DebateRun {
    /// The round about to be played (counted from 1).
    pub closed spec fn current_round(&self) -> i64 {
        self.round
    }

    /// The rounds in all.
    pub closed spec fn total_rounds(&self) -> i64 {
        self.rounds
    }

    /// The responses so far, oldest first.
    pub closed spec fn responses(&self) -> Seq<Seq<char>> {
        self.history@.map_values(|t: (String, String)| t.1@)
    }

    /// Every entry of the history is an assistant turn.
    pub closed spec fn wf(&self) -> bool {
        &&& 1 <= self.round
        &&& forall|k: int| 0 <= k < self.history@.len() ==> (#[trigger] self.history@[k]).0@ == "assistant"@
        &&& self.history@.len() < self.round
    }

    /// Whether the debate was cut short by a failed post.
    pub closed spec fn was_stopped(&self) -> bool {
        self.stopped
    }

    /// A debate of `rounds` rounds, before its first.
    pub fn start(rounds: i64) -> (r: DebateRun)
        ensures
            r.wf(),
            r.current_round() == 1,
            r.total_rounds() == rounds,
            r.responses().len() == 0,
            !r.was_stopped(),
    {
        let r = DebateRun { round: 1, rounds, history: Vec::new(), stopped: false };
        assert(r.responses() =~= Seq::<Seq<char>>::empty());
        r
    }

    /// Whether another round is to be played.
    pub fn has_next_round(&self) -> (b: bool)
        ensures
            b == (!self.was_stopped() && self.current_round() <= self.total_rounds()),
    {
        !self.stopped && self.round <= self.rounds
    }

    /// The round about to be played.
    pub fn round(&self) -> (r: i64)
        ensures
            r == self.current_round(),
    {
        self.round
    }

    /// The history handed to the model: the responses so far.
    pub fn history(&self) -> (h: &Vec<(String, String)>)
        ensures
            h@.map_values(|t: (String, String)| t.1@) == self.responses(),
            forall|k: int| self.wf() && 0 <= k < h@.len() ==> (#[trigger] h@[k]).0@ == "assistant"@,
    {
        &self.history
    }

    /// The round's response arrived: it joins the history and play moves on.
    pub fn response_received(&mut self, response: String)
        requires
            old(self).wf(),
            old(self).current_round() <= old(self).total_rounds(),
            old(self).current_round() < i64::MAX,
        ensures
            final(self).wf(),
            final(self).responses() == old(self).responses().push(response@),
            final(self).current_round() == old(self).current_round() + 1,
            final(self).total_rounds() == old(self).total_rounds(),
            final(self).was_stopped() == old(self).was_stopped(),
    {
        let ghost before = self.history@;
        self.history.push(("assistant".to_owned(), response));
        assert(self.history@.map_values(|t: (String, String)| t.1@) =~= before.map_values(
            |t: (String, String)| t.1@,
        ).push(response@));
        self.round = self.round + 1;
    }

    /// The round's response could not be had: the turn is skipped.
    pub fn response_failed(&mut self)
        requires
            old(self).wf(),
            old(self).current_round() <= old(self).total_rounds(),
            old(self).current_round() < i64::MAX,
        ensures
            final(self).wf(),
            final(self).responses() == old(self).responses(),
            final(self).current_round() == old(self).current_round() + 1,
            final(self).total_rounds() == old(self).total_rounds(),
            final(self).was_stopped() == old(self).was_stopped(),
    {
        self.round = self.round + 1;
    }

    /// Posting a response failed: the debate ends there.
    pub fn post_failed(&mut self)
        ensures
            final(self).was_stopped(),
            final(self).responses() == old(self).responses(),
            final(self).current_round() == old(self).current_round(),
            final(self).total_rounds() == old(self).total_rounds(),
            final(self).wf() == old(self).wf(),
    {
        self.stopped = true;
    }
}

/// Law: a debate never holds more responses than rounds played, so never
/// more than its rounds.
pub proof fn lemma_debate_responses_bounded(r: &DebateRun)
    requires
        r.wf(),
        r.current_round() <= r.total_rounds() + 1,
    ensures
        r.responses().len() < r.current_round(),
        r.responses().len() <= r.total_rounds(),
{
}

} // verus!
