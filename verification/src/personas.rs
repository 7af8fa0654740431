//! The persona catalogue, system prompt construction and persona choices.

use vstd::prelude::*;
use crate::plugins::commands::{ChoiceSpec, OptionSpec};
use crate::text::{append_decimal, append_str, chars_of, str_eq, string_of};

verus! {

/// A persona: display name, system prompt, description, optional portrait and embed colour.
#[derive(Debug, Clone)]
pub struct Persona {
    pub name: String,
    pub system_prompt: String,
    pub description: String,
    /// Optional portrait URL for embed author icon
    pub portrait_url: Option<String>,
    /// Embed accent color (Discord color format)
    pub color: u32,
}

/// The personas, each under its id.
#[derive(Debug, Clone)]
pub struct PersonaManager {
    personas: Vec<(String, Persona)>,
}

/// The built-in personas: id, display name, description and colour, in order.
pub open spec fn catalogue() -> Seq<(Seq<char>, Seq<char>, Seq<char>, u32)> {
    seq![
        ("obi"@, "Obi-Wan"@, "A wise Jedi Master who speaks with patience, diplomacy, and philosophical insight"@, 0x4A90D9u32),
        ("muppet"@, "Muppet Friend"@, "A warm, enthusiastic friend who brings Muppet-style joy, humor, and heart to every conversation!"@, 0xFF6B35u32),
        ("chef"@, "Chef"@, "A passionate chef who shares recipes and cooking wisdom"@, 0xE74C3Cu32),
        ("teacher"@, "Teacher"@, "A patient teacher who explains things clearly"@, 0x27AE60u32),
        ("analyst"@, "Step-by-Step Analyst"@, "An analyst who breaks things down into clear steps"@, 0x3498DBu32),
        ("visionary"@, "The Visionary"@, "A future-focused big-picture thinker who transforms chaos into actionable plans"@, 0x9B59B6u32),
        ("noir"@, "Noir Detective"@, "A hard-boiled 1940s detective who treats every question like a case to crack"@, 0x2C3E50u32),
        ("zen"@, "Zen Master"@, "A contemplative sage who brings calm wisdom and mindful perspective"@, 0x1ABC9Cu32),
        ("bard"@, "The Bard"@, "A charismatic storyteller who weaves narrative magic into every conversation"@, 0xF39C12u32),
        ("coach"@, "The Coach"@, "A motivational coach who helps you get in the game and reach your potential"@, 0xE67E22u32),
        ("scientist"@, "The Scientist"@, "A curious researcher who loves explaining how things work"@, 0x00CED1u32),
        ("gamer"@, "The Gamer"@, "A friendly gamer who speaks the language of gaming culture"@, 0x9146FFu32),
        ("architect"@, "The Architect"@, "A systems thinker who designs for scale, trade-offs, and the long game"@, 0x34495Eu32),
        ("debugger"@, "The Debugger"@, "A tenacious bug hunter who tracks down root causes with methodical precision"@, 0xC0392Bu32),
        ("review"@, "The Code Review Specialist"@, "A thoughtful code review specialist who makes code better and helps developers grow"@, 0x16A085u32),
        ("devops"@, "The DevOps"@, "An automation expert who makes deployments boring and systems observable"@, 0x2980B9u32),
        ("designer"@, "The Designer"@, "A UX advocate who designs with empathy, clarity, and accessibility"@, 0xE91E63u32),
    ]
}

/// Law: every built-in persona has its own colour, and none is black.
pub proof fn lemma_catalogue_colors_distinct()
    ensures
        forall|i: int, j: int| 0 <= i < j < catalogue().len() ==> #[trigger] catalogue()[i].3 != #[trigger] catalogue()[j].3,
        forall|i: int| 0 <= i < catalogue().len() ==> #[trigger] catalogue()[i].3 != 0,
{
    let c = catalogue();
    assert forall|i: int, j: int| 0 <= i < j < c.len() implies #[trigger] c[i].3 != #[trigger] c[j].3 by {
        assert(c.len() == 17);
    }
}

/// The system prompt of a built-in persona. The prompt files that the personas'
/// full prompts come from are not part of this crate; each persona speaks from
/// its name and description.
pub open spec fn catalogue_prompt(name: Seq<char>, description: Seq<char>) -> Seq<char> {
    "You are "@ + name + ". "@ + description + "."@
}

fn make_persona(name: &str, description: &str, color: u32) -> (p: Persona)
    ensures
        p.name@ == name@,
        p.description@ == description@,
        p.system_prompt@ == catalogue_prompt(name@, description@),
        p.portrait_url is None,
        p.color == color,
{
    let mut prompt: Vec<char> = Vec::new();
    append_str(&mut prompt, "You are ");
    append_str(&mut prompt, name);
    append_str(&mut prompt, ". ");
    append_str(&mut prompt, description);
    append_str(&mut prompt, ".");
    Persona {
        name: name.to_owned(),
        system_prompt: string_of(prompt.as_slice()),
        description: description.to_owned(),
        portrait_url: None,
        color,
    }
}

/// Entry `i` of the manager is built-in persona `i` of the catalogue.
pub open spec fn is_catalogue_entry(e: (String, Persona), c: (Seq<char>, Seq<char>, Seq<char>, u32)) -> bool {
    &&& e.0@ == c.0
    &&& e.1.name@ == c.1
    &&& e.1.description@ == c.2
    &&& e.1.color == c.3
    &&& e.1.portrait_url is None
    &&& e.1.system_prompt@ == catalogue_prompt(c.1, c.2)
}

/// The persona listed first under `id` among `entries`.
pub open spec fn lookup(entries: Seq<(String, Persona)>, id: Seq<char>) -> Option<Persona>
    decreases entries.len(),
{
    if entries.len() == 0 {
        None
    } else if entries[0].0@ == id {
        Some(entries[0].1)
    } else {
        lookup(entries.drop_first(), id)
    }
}

impl PersonaManager {
    /// The personas with their ids, in catalogue order.
    pub closed spec fn entries(&self) -> Seq<(String, Persona)> {
        self.personas@
    }

    /// The persona with id `id`, if any.
    pub open spec fn persona(&self, id: Seq<char>) -> Option<Persona> {
        lookup(self.entries(), id)
    }

    /// Loads all built-in personas.
    pub fn new() -> (m: PersonaManager)
        ensures
            m.entries().len() == catalogue().len(),
            forall|i: int| 0 <= i < catalogue().len() ==> is_catalogue_entry(
                #[trigger] m.entries()[i],
                catalogue()[i],
            ),
    {
        let mut v: Vec<(String, Persona)> = Vec::new();
        v.push(("obi".to_owned(), make_persona("Obi-Wan", "A wise Jedi Master who speaks with patience, diplomacy, and philosophical insight", 0x4A90D9)));
        v.push(("muppet".to_owned(), make_persona("Muppet Friend", "A warm, enthusiastic friend who brings Muppet-style joy, humor, and heart to every conversation!", 0xFF6B35)));
        v.push(("chef".to_owned(), make_persona("Chef", "A passionate chef who shares recipes and cooking wisdom", 0xE74C3C)));
        v.push(("teacher".to_owned(), make_persona("Teacher", "A patient teacher who explains things clearly", 0x27AE60)));
        v.push(("analyst".to_owned(), make_persona("Step-by-Step Analyst", "An analyst who breaks things down into clear steps", 0x3498DB)));
        v.push(("visionary".to_owned(), make_persona("The Visionary", "A future-focused big-picture thinker who transforms chaos into actionable plans", 0x9B59B6)));
        v.push(("noir".to_owned(), make_persona("Noir Detective", "A hard-boiled 1940s detective who treats every question like a case to crack", 0x2C3E50)));
        v.push(("zen".to_owned(), make_persona("Zen Master", "A contemplative sage who brings calm wisdom and mindful perspective", 0x1ABC9C)));
        v.push(("bard".to_owned(), make_persona("The Bard", "A charismatic storyteller who weaves narrative magic into every conversation", 0xF39C12)));
        v.push(("coach".to_owned(), make_persona("The Coach", "A motivational coach who helps you get in the game and reach your potential", 0xE67E22)));
        v.push(("scientist".to_owned(), make_persona("The Scientist", "A curious researcher who loves explaining how things work", 0x00CED1)));
        v.push(("gamer".to_owned(), make_persona("The Gamer", "A friendly gamer who speaks the language of gaming culture", 0x9146FF)));
        v.push(("architect".to_owned(), make_persona("The Architect", "A systems thinker who designs for scale, trade-offs, and the long game", 0x34495E)));
        v.push(("debugger".to_owned(), make_persona("The Debugger", "A tenacious bug hunter who tracks down root causes with methodical precision", 0xC0392B)));
        v.push(("review".to_owned(), make_persona("The Code Review Specialist", "A thoughtful code review specialist who makes code better and helps developers grow", 0x16A085)));
        v.push(("devops".to_owned(), make_persona("The DevOps", "An automation expert who makes deployments boring and systems observable", 0x2980B9)));
        v.push(("designer".to_owned(), make_persona("The Designer", "A UX advocate who designs with empathy, clarity, and accessibility", 0xE91E63)));
        let m = PersonaManager { personas: v };
        assert(is_catalogue_entry(m.entries()[0], catalogue()[0]));
        assert(is_catalogue_entry(m.entries()[1], catalogue()[1]));
        assert(is_catalogue_entry(m.entries()[2], catalogue()[2]));
        assert(is_catalogue_entry(m.entries()[3], catalogue()[3]));
        assert(is_catalogue_entry(m.entries()[4], catalogue()[4]));
        assert(is_catalogue_entry(m.entries()[5], catalogue()[5]));
        assert(is_catalogue_entry(m.entries()[6], catalogue()[6]));
        assert(is_catalogue_entry(m.entries()[7], catalogue()[7]));
        assert(is_catalogue_entry(m.entries()[8], catalogue()[8]));
        assert(is_catalogue_entry(m.entries()[9], catalogue()[9]));
        assert(is_catalogue_entry(m.entries()[10], catalogue()[10]));
        assert(is_catalogue_entry(m.entries()[11], catalogue()[11]));
        assert(is_catalogue_entry(m.entries()[12], catalogue()[12]));
        assert(is_catalogue_entry(m.entries()[13], catalogue()[13]));
        assert(is_catalogue_entry(m.entries()[14], catalogue()[14]));
        assert(is_catalogue_entry(m.entries()[15], catalogue()[15]));
        assert(is_catalogue_entry(m.entries()[16], catalogue()[16]));
        m
    }

    /// The persona with id `name`, if any.
    pub fn get_persona(&self, name: &str) -> (r: Option<&Persona>)
        ensures
            match r {
                Some(p) => self.persona(name@) == Some(*p),
                None => self.persona(name@) is None,
            },
    {
        let mut i: usize = 0;
        assert(self.personas@.skip(0) =~= self.personas@);
        while i < self.personas.len()
            invariant
                i <= self.personas@.len(),
                self.persona(name@) == lookup(self.personas@.skip(i as int), name@),
            decreases self.personas@.len() - i,
        {
            assert(self.personas@.skip(i as int)[0] == self.personas@[i as int]);
            assert(self.personas@.skip(i as int).drop_first() =~= self.personas@.skip(i + 1));
            if str_eq(self.personas[i].0.as_str(), name) {
                return Some(&self.personas[i].1);
            }
            i = i + 1;
        }
        None
    }

    /// Every persona with its id.
    pub fn list_personas(&self) -> (r: Vec<(&String, &Persona)>)
        ensures
            r@.len() == self.entries().len(),
            forall|i: int| 0 <= i < r@.len() ==> *(#[trigger] r@[i]).0 == self.entries()[i].0 && *r@[i].1
                == self.entries()[i].1,
    {
        let mut r: Vec<(&String, &Persona)> = Vec::new();
        let mut i: usize = 0;
        while i < self.personas.len()
            invariant
                i <= self.personas@.len(),
                r@.len() == i,
                forall|j: int| 0 <= j < i ==> *(#[trigger] r@[j]).0 == self.personas@[j].0 && *r@[j].1
                    == self.personas@[j].1,
            decreases self.personas@.len() - i,
        {
            r.push((&self.personas[i].0, &self.personas[i].1));
            i = i + 1;
        }
        r
    }
}

/// The base prompt for `persona`: its system prompt, or a generic assistant.
pub open spec fn base_prompt(p: Option<Persona>) -> Seq<char> {
    match p {
        Some(p) => p.system_prompt@,
        None => "You are a helpful assistant."@,
    }
}

/// `base` with the modifier instruction appended (explain, simple, steps, recipe).
pub open spec fn with_modifier(base: Seq<char>, modifier: Option<Seq<char>>) -> Seq<char> {
    match modifier {
        Some(m) => if m == "explain"@ {
            base + " Focus on providing clear explanations."@
        } else if m == "simple"@ {
            base + " Explain in a simple and concise way. Give analogies a beginner might understand."@
        } else if m == "steps"@ {
            base + " Break this out into clear, actionable steps."@
        } else if m == "recipe"@ {
            base + " Respond with a recipe if this prompt has food. If it does not have food, return 'Give me some food to work with'."@
        } else {
            base
        },
        None => base,
    }
}

/// The response-style section for a verbosity level ("normal" and others add none).
pub open spec fn verbosity_suffix(verbosity: Seq<char>) -> Seq<char> {
    if verbosity == "concise"@ {
        "\n\n## Response Style\nKeep responses brief and to the point. Aim for 2-3 sentences unless the topic truly requires more. If more detail might help, end with \"Want me to elaborate?\""@
    } else if verbosity == "detailed"@ {
        "\n\n## Response Style\nProvide comprehensive, detailed explanations. Include examples, context, and thorough coverage of the topic. The user wants depth."@
    } else {
        Seq::<char>::empty()
    }
}

/// The paragraph-limit instruction for `max` paragraphs.
pub open spec fn paragraph_limit_text(max: nat) -> Seq<char> {
    "\n\nIMPORTANT: Limit your response to "@ + crate::text::dec(max) + " paragraph(s) maximum."@
}

/// The option's view.
pub open spec fn opt_view(o: Option<&str>) -> Option<Seq<char>> {
    match o {
        Some(s) => Some(s@),
        None => None,
    }
}

impl PersonaManager {
    /// The system prompt for a persona with a modifier, at normal verbosity.
    pub fn get_system_prompt(&self, persona_name: &str, modifier: Option<&str>) -> (s: String)
        ensures
            s@ == with_modifier(base_prompt(self.persona(persona_name@)), opt_view(modifier)),
    {
        let s = self.get_system_prompt_with_verbosity(persona_name, modifier, "normal");
        proof {
            reveal_strlit("normal");
            reveal_strlit("concise");
            reveal_strlit("detailed");
        }
        assert("normal"@.len() != "concise"@.len());
        assert("normal"@.len() != "detailed"@.len());
        assert(verbosity_suffix("normal"@) =~= Seq::<char>::empty());
        s
    }

    /// The system prompt with the modifier applied first, then the verbosity suffix.
    pub fn get_system_prompt_with_verbosity(
        &self,
        persona_name: &str,
        modifier: Option<&str>,
        verbosity: &str,
    ) -> (s: String)
        ensures
            s@ == with_modifier(base_prompt(self.persona(persona_name@)), opt_view(modifier))
                + verbosity_suffix(verbosity@),
    {
        let mut v: Vec<char> = Vec::new();
        match self.get_persona(persona_name) {
            Some(p) => append_str(&mut v, p.system_prompt.as_str()),
            None => append_str(&mut v, "You are a helpful assistant."),
        }
        match modifier {
            Some(m) => {
                if str_eq(m, "explain") {
                    append_str(&mut v, " Focus on providing clear explanations.");
                } else if str_eq(m, "simple") {
                    append_str(&mut v, " Explain in a simple and concise way. Give analogies a beginner might understand.");
                } else if str_eq(m, "steps") {
                    append_str(&mut v, " Break this out into clear, actionable steps.");
                } else if str_eq(m, "recipe") {
                    append_str(&mut v, " Respond with a recipe if this prompt has food. If it does not have food, return 'Give me some food to work with'.");
                }
            },
            None => {},
        }
        let with_mod = string_of(v.as_slice());
        self.apply_verbosity_suffix(with_mod.as_str(), verbosity)
    }

    /// Applies the verbosity suffix to a prompt.
    fn apply_verbosity_suffix(&self, prompt: &str, verbosity: &str) -> (s: String)
        ensures
            s@ == prompt@ + verbosity_suffix(verbosity@),
    {
        let mut v: Vec<char> = Vec::new();
        append_str(&mut v, prompt);
        if str_eq(verbosity, "concise") {
            append_str(&mut v, "\n\n## Response Style\nKeep responses brief and to the point. Aim for 2-3 sentences unless the topic truly requires more. If more detail might help, end with \"Want me to elaborate?\"");
        } else if str_eq(verbosity, "detailed") {
            append_str(&mut v, "\n\n## Response Style\nProvide comprehensive, detailed explanations. Include examples, context, and thorough coverage of the topic. The user wants depth.");
        } else {
            assert(v@ =~= prompt@ + Seq::<char>::empty());
        }
        string_of(v.as_slice())
    }

    /// The portrait URL of a persona: its own, else `{base}/{id}.png` from the
    /// configured base URL (trailing slashes dropped), else none. The base URL
    /// is read from the environment by the caller.
    pub fn get_portrait_url(&self, persona_id: &str, base_url: Option<&str>) -> (r: Option<String>)
        ensures
            match self.persona(persona_id@) {
                Some(p) if p.portrait_url is Some => r == p.portrait_url,
                _ => match base_url {
                    Some(b) => r matches Some(u) && u@ == trim_trailing_slashes(b@) + seq!['/'] + persona_id@ + ".png"@,
                    None => r is None,
                },
            },
    {
        match self.get_persona(persona_id) {
            Some(p) => {
                if p.portrait_url.is_some() {
                    return p.portrait_url.clone();
                }
            },
            None => {},
        }
        match base_url {
            Some(b) => {
                let cs = chars_of(b);
                let mut end = cs.len();
                assert(cs@.take(cs@.len() as int) =~= cs@);
                while end > 0 && cs[end - 1] == '/'
                    invariant
                        end <= cs@.len(),
                        trim_trailing_slashes(cs@) == trim_trailing_slashes(cs@.take(end as int)),
                    decreases end,
                {
                    assert(cs@.take(end as int).drop_last() =~= cs@.take(end - 1));
                    end = end - 1;
                }
                assert(cs@.take(cs@.len() as int) =~= cs@);
                let mut v = crate::text::copy_range(cs.as_slice(), 0, end);
                assert(v@ =~= cs@.take(end as int));
                v.push('/');
                append_str(&mut v, persona_id);
                append_str(&mut v, ".png");
                Some(string_of(v.as_slice()))
            },
            None => None,
        }
    }

    /// A copy of a persona with its portrait URL resolved against `base_url`.
    pub fn get_persona_with_portrait(&self, name: &str, base_url: Option<&str>) -> (r: Option<Persona>)
        ensures
            match self.persona(name@) {
                Some(p) => r matches Some(q) && q.name == p.name && q.system_prompt == p.system_prompt
                    && q.description == p.description && q.color == p.color && (p.portrait_url is Some
                    ==> q.portrait_url == p.portrait_url) && (p.portrait_url is None ==> match base_url {
                    Some(b) => q.portrait_url matches Some(u) && u@ == trim_trailing_slashes(b@) + seq!['/'] + name@ + ".png"@,
                    None => q.portrait_url is None,
                }),
                None => r is None,
            },
    {
        match self.get_persona(name) {
            Some(p) => {
                let mut persona = Persona {
                    name: p.name.clone(),
                    system_prompt: p.system_prompt.clone(),
                    description: p.description.clone(),
                    portrait_url: p.portrait_url.clone(),
                    color: p.color,
                };
                if persona.portrait_url.is_none() {
                    persona.portrait_url = self.get_portrait_url(name, base_url);
                }
                Some(persona)
            },
            None => None,
        }
    }
}

/// `s` without its trailing slashes (`trim_end_matches('/')`).
pub open spec fn trim_trailing_slashes(s: Seq<char>) -> Seq<char>
    decreases s.len(),
{
    if s.len() > 0 && s.last() == '/' {
        trim_trailing_slashes(s.drop_last())
    } else {
        s
    }
}

/// Applies a paragraph limit to a system prompt: 0 (or less) leaves it unchanged.
pub fn apply_paragraph_limit(prompt: &str, max_paragraphs: i64) -> (s: String)
    ensures
        max_paragraphs > 0 ==> s@ == prompt@ + paragraph_limit_text(max_paragraphs as nat),
        max_paragraphs <= 0 ==> s@ == prompt@,
{
    let mut v: Vec<char> = Vec::new();
    append_str(&mut v, prompt);
    if max_paragraphs > 0 {
        append_str(&mut v, "\n\nIMPORTANT: Limit your response to ");
        append_decimal(&mut v, max_paragraphs as u64);
        append_str(&mut v, " paragraph(s) maximum.");
    }
    string_of(v.as_slice())
}

/// The paragraph-limit sentence a builder appends: none without a positive limit.
pub open spec fn paragraph_limit_suffix(max: Option<u32>) -> Seq<char> {
    match max {
        Some(m) => if m > 0 {
            paragraph_limit_text(m as nat)
        } else {
            Seq::<char>::empty()
        },
        None => Seq::<char>::empty(),
    }
}

/// Builder for system prompts: persona, optional modifier, verbosity and paragraph limit.
pub struct PromptBuilder<'a> {
    persona_manager: &'a PersonaManager,
    persona_id: String,
    modifier: Option<String>,
    verbosity: String,
    max_paragraphs: Option<u32>,
}

impl<'a> PromptBuilder<'a> {
    /// The persona manager the prompt is built from.
    pub closed spec fn manager(&self) -> PersonaManager {
        *self.persona_manager
    }

    /// The persona the prompt is built for.
    pub closed spec fn persona_id(&self) -> Seq<char> {
        self.persona_id@
    }

    /// The modifier, if any.
    pub closed spec fn modifier(&self) -> Option<Seq<char>> {
        match self.modifier {
            Some(m) => Some(m@),
            None => None,
        }
    }

    /// The verbosity level.
    pub closed spec fn verbosity(&self) -> Seq<char> {
        self.verbosity@
    }

    /// The paragraph limit, if any.
    pub closed spec fn max_paragraphs(&self) -> Option<u32> {
        self.max_paragraphs
    }

    /// The prompt `build` returns.
    pub open spec fn prompt(&self) -> Seq<char> {
        with_modifier(base_prompt(self.manager().persona(self.persona_id())), self.modifier())
            + verbosity_suffix(self.verbosity()) + paragraph_limit_suffix(self.max_paragraphs())
    }

    /// A builder for `persona_id` with no modifier, normal verbosity and no limit.
    pub fn new(persona_manager: &'a PersonaManager, persona_id: &str) -> (b: PromptBuilder<'a>)
        ensures
            b.manager() == *persona_manager,
            b.persona_id() == persona_id@,
            b.modifier() is None,
            b.verbosity() == "normal"@,
            b.max_paragraphs() is None,
    {
        PromptBuilder {
            persona_manager,
            persona_id: persona_id.to_owned(),
            modifier: None,
            verbosity: "normal".to_owned(),
            max_paragraphs: None,
        }
    }

    /// Sets an optional modifier (explain, simple, steps, recipe).
    pub fn with_modifier(self, modifier: Option<&str>) -> (b: PromptBuilder<'a>)
        ensures
            b.manager() == self.manager(),
            b.persona_id() == self.persona_id(),
            b.modifier() == opt_view(modifier),
            b.verbosity() == self.verbosity(),
            b.max_paragraphs() == self.max_paragraphs(),
    {
        let m = match modifier {
            Some(s) => Some(s.to_owned()),
            None => None,
        };
        PromptBuilder { modifier: m, ..self }
    }

    /// Sets the verbosity level (concise, normal, detailed).
    pub fn with_verbosity(self, verbosity: &str) -> (b: PromptBuilder<'a>)
        ensures
            b.manager() == self.manager(),
            b.persona_id() == self.persona_id(),
            b.modifier() == self.modifier(),
            b.verbosity() == verbosity@,
            b.max_paragraphs() == self.max_paragraphs(),
    {
        PromptBuilder { verbosity: verbosity.to_owned(), ..self }
    }

    /// Sets the maximum number of paragraphs.
    pub fn with_max_paragraphs(self, max: Option<u32>) -> (b: PromptBuilder<'a>)
        ensures
            b.manager() == self.manager(),
            b.persona_id() == self.persona_id(),
            b.modifier() == self.modifier(),
            b.verbosity() == self.verbosity(),
            b.max_paragraphs() == max,
    {
        PromptBuilder { max_paragraphs: max, ..self }
    }

    /// Builds the final system prompt.
    pub fn build(self) -> (s: String)
        ensures
            s@ == self.prompt(),
    {
        let m: Option<&str> = match &self.modifier {
            Some(s) => Some(s.as_str()),
            None => None,
        };
        let base = self.persona_manager.get_system_prompt_with_verbosity(
            self.persona_id.as_str(),
            m,
            self.verbosity.as_str(),
        );
        let mut v: Vec<char> = Vec::new();
        append_str(&mut v, base.as_str());
        match self.max_paragraphs {
            Some(max) => {
                if max > 0 {
                    append_str(&mut v, "\n\nIMPORTANT: Limit your response to ");
                    append_decimal(&mut v, max as u64);
                    append_str(&mut v, " paragraph(s) maximum.");
                } else {
                    assert(v@ =~= base@ + Seq::<char>::empty());
                }
            },
            None => {
                assert(v@ =~= base@ + Seq::<char>::empty());
            },
        }
        string_of(v.as_slice())
    }
}

/// All persona choices offered to users: (display name, id).
pub const PERSONA_CHOICES: [(&'static str, &'static str); 17] = [
    ("Obi-Wan", "obi"),
    ("Muppet Friend", "muppet"),
    ("Chef", "chef"),
    ("Teacher", "teacher"),
    ("Analyst", "analyst"),
    ("Visionary", "visionary"),
    ("Noir Detective", "noir"),
    ("Zen Master", "zen"),
    ("Bard", "bard"),
    ("Coach", "coach"),
    ("Scientist", "scientist"),
    ("Gamer", "gamer"),
    ("Architect", "architect"),
    ("Debugger", "debugger"),
    ("Code Review", "review"),
    ("DevOps", "devops"),
    ("Designer", "designer"),
];

/// The persona ids that users may choose: those of the catalogue.
pub open spec fn is_persona_id(id: Seq<char>) -> bool {
    exists|i: int| 0 <= i < catalogue().len() && (#[trigger] catalogue()[i]).0 == id
}

/// Whether `id` names one of the persona choices.
pub fn is_valid_persona(id: &str) -> (r: bool)
    ensures
        r == is_persona_id(id@),
{
    let choices = PERSONA_CHOICES;
    let mut i: usize = 0;
    while i < 17
        invariant
            i <= 17,
            choices == PERSONA_CHOICES,
            forall|j: int| 0 <= j < i ==> (#[trigger] catalogue()[j]).0 != id@,
        decreases 17 - i,
    {
        assert(choices@[i as int].1@ == catalogue()[i as int].0);
        if str_eq(choices[i].1, id) {
            return true;
        }
        i = i + 1;
    }
    false
}

/// The `k`-th persona choice, as the text choice a command option offers.
pub open spec fn persona_choice(c: ChoiceSpec, k: int) -> bool {
    c matches ChoiceSpec::Text { name, value } && name@ == PERSONA_CHOICES@[k].0@ && value@ == PERSONA_CHOICES@[k].1@
}

/// Offers every persona choice on `option`, after the choices it has, as
/// text choices (display name, id) in order.
pub fn add_persona_choices(option: &mut OptionSpec)
    ensures
        final(option).name == old(option).name,
        final(option).description == old(option).description,
        final(option).kind == old(option).kind,
        final(option).required == old(option).required,
        final(option).choices@.len() == old(option).choices@.len() + 17,
        forall|k: int| 0 <= k < old(option).choices@.len() ==> #[trigger] final(option).choices@[k] == old(option).choices@[k],
        forall|k: int| 0 <= k < 17 ==> persona_choice(#[trigger] final(option).choices@[old(option).choices@.len() + k], k),
{
    let choices = PERSONA_CHOICES;
    let ghost c0 = option.choices@;
    let ghost o0 = *option;
    let mut i: usize = 0;
    while i < 17
        invariant
            i <= 17,
            choices == PERSONA_CHOICES,
            option.name == o0.name,
            option.description == o0.description,
            option.kind == o0.kind,
            option.required == o0.required,
            option.choices@.len() == c0.len() + i,
            forall|k: int| 0 <= k < c0.len() ==> #[trigger] option.choices@[k] == c0[k],
            forall|k: int| 0 <= k < i ==> persona_choice(#[trigger] option.choices@[c0.len() + k], k),
        decreases 17 - i,
    {
        let (name, value) = choices[i];
        option.choices.push(ChoiceSpec::Text { name: name.to_owned(), value: value.to_owned() });
        proof {
            assert(option.choices@[c0.len() + i] matches ChoiceSpec::Text { name: n, value: v } && n@ == name@ && v@
                == value@);
        }
        i = i + 1;
    }
}

} // verus!
