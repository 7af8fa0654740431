//! The `/plugins` slash command: one subcommand per enabled plugin, with the
//! plugin's options and choices.
//!
//! The command is described as plain data; the Discord client turns it into
//! its own command builder.

use vstd::prelude::*;
use crate::plugins::config::{Choice, CommandOption, Plugin};
use crate::text::{all_digits, chars_of, copy_range, digits_value, lowercase, parse_u64_chars, str_eq, to_lowercase};

verus! {

/// The kind of a command option, as Discord numbers them.
#[derive(Debug, Clone, Copy, PartialEq, Eq, Structural)]
pub enum OptionKind {
    SubCommand,
    SubCommandGroup,
    String,
    Integer,
    Boolean,
    User,
    Channel,
    Role,
    Mentionable,
    Number,
    Attachment,
}

impl OptionKind {
    /// Discord's number for the kind.
    pub open spec fn code_spec(self) -> u8 {
        match self {
            OptionKind::SubCommand => 1,
            OptionKind::SubCommandGroup => 2,
            OptionKind::String => 3,
            OptionKind::Integer => 4,
            OptionKind::Boolean => 5,
            OptionKind::User => 6,
            OptionKind::Channel => 7,
            OptionKind::Role => 8,
            OptionKind::Mentionable => 9,
            OptionKind::Number => 10,
            OptionKind::Attachment => 11,
        }
    }

    pub fn code(&self) -> (c: u8)
        ensures
            c == self.code_spec(),
    {
        match self {
            OptionKind::SubCommand => 1,
            OptionKind::SubCommandGroup => 2,
            OptionKind::String => 3,
            OptionKind::Integer => 4,
            OptionKind::Boolean => 5,
            OptionKind::User => 6,
            OptionKind::Channel => 7,
            OptionKind::Role => 8,
            OptionKind::Mentionable => 9,
            OptionKind::Number => 10,
            OptionKind::Attachment => 11,
        }
    }
}

/// A choice offered for an option.
#[derive(Debug, Clone)]
pub enum ChoiceSpec {
    /// A text choice: display name and value.
    Text { name: String, value: String },
    /// An integer choice.
    Int { name: String, value: i32 },
    /// A number choice, with its value as written (the client reads it as a
    /// float and leaves the choice out when that fails).
    Number { name: String, value: String },
}

/// A subcommand option.
#[derive(Debug, Clone)]
pub struct OptionSpec {
    pub name: String,
    pub description: String,
    pub kind: OptionKind,
    pub required: bool,
    pub choices: Vec<ChoiceSpec>,
}

/// A subcommand: one plugin.
#[derive(Debug, Clone)]
pub struct SubcommandSpec {
    pub name: String,
    pub description: String,
    pub options: Vec<OptionSpec>,
}

impl SubcommandSpec {
    /// Subcommands are options of kind `SubCommand`.
    pub fn kind(&self) -> (k: OptionKind)
        ensures
            k == OptionKind::SubCommand,
    {
        OptionKind::SubCommand
    }
}

/// A slash command with its subcommands.
#[derive(Debug, Clone)]
pub struct SlashCommand {
    pub name: String,
    pub description: String,
    pub subcommands: Vec<SubcommandSpec>,
}

/// The option kind a type name stands for (already lower-cased); unknown
/// names are text.
pub open spec fn option_kind(t: Seq<char>) -> OptionKind {
    if t == "string"@ {
        OptionKind::String
    } else if t == "integer"@ {
        OptionKind::Integer
    } else if t == "boolean"@ {
        OptionKind::Boolean
    } else if t == "user"@ {
        OptionKind::User
    } else if t == "channel"@ {
        OptionKind::Channel
    } else if t == "role"@ {
        OptionKind::Role
    } else if t == "number"@ {
        OptionKind::Number
    } else if t == "attachment"@ {
        OptionKind::Attachment
    } else {
        OptionKind::String
    }
}

/// Parse an option type name, in any case, to its kind.
pub fn parse_option_type(type_str: &str) -> (k: OptionKind)
    ensures
        k == option_kind(lowercase(type_str@)),
{
    let lower = to_lowercase(type_str);
    let t = lower.as_str();
    if str_eq(t, "string") {
        OptionKind::String
    } else if str_eq(t, "integer") {
        OptionKind::Integer
    } else if str_eq(t, "boolean") {
        OptionKind::Boolean
    } else if str_eq(t, "user") {
        OptionKind::User
    } else if str_eq(t, "channel") {
        OptionKind::Channel
    } else if str_eq(t, "role") {
        OptionKind::Role
    } else if str_eq(t, "number") {
        OptionKind::Number
    } else if str_eq(t, "attachment") {
        OptionKind::Attachment
    } else {
        OptionKind::String
    }
}

/// What `str::parse::<i32>` gives for `s`: an optional sign, then decimal
/// digits whose value fits.
pub open spec fn parse_i32(s: Seq<char>) -> Option<i32> {
    let neg = s.len() > 0 && s[0] == '-';
    let body = if s.len() > 0 && (s[0] == '-' || s[0] == '+') {
        s.drop_first()
    } else {
        s
    };
    if body.len() == 0 || !all_digits(body) {
        None
    } else if neg {
        if digits_value(body) <= 2147483648 {
            Some((0 - digits_value(body)) as i32)
        } else {
            None
        }
    } else if digits_value(body) <= 2147483647 {
        Some(digits_value(body) as i32)
    } else {
        None
    }
}

/// Parse a decimal `i32` the way `str::parse` does.
pub fn parse_i32_str(s: &str) -> (r: Option<i32>)
    ensures
        r == parse_i32(s@),
{
    let cs = chars_of(s);
    let neg = cs.len() > 0 && cs[0] == '-';
    let start: usize = if cs.len() > 0 && (cs[0] == '-' || cs[0] == '+') {
        1
    } else {
        0
    };
    let body = copy_range(cs.as_slice(), start, cs.len());
    let ghost b = if s@.len() > 0 && (s@[0] == '-' || s@[0] == '+') {
        s@.drop_first()
    } else {
        s@
    };
    assert(body@ =~= b);
    if body.len() == 0 || body[0] == '+' {
        proof {
            if body@.len() > 0 {
                assert(crate::text::digit_value(body@[0]) is None);
            }
        }
        return None;
    }
    match parse_u64_chars(body.as_slice()) {
        None => {
            proof {
                if all_digits(b) {
                    assert(digits_value(b) > u64::MAX);
                }
            }
            None
        },
        Some(v) => {
            if neg {
                if v <= 2147483648 {
                    let r: i64 = 0 - (v as i64);
                    Some(r as i32)
                } else {
                    None
                }
            } else if v <= 2147483647 {
                Some(v as i32)
            } else {
                None
            }
        },
    }
}

/// The choice a configured choice becomes for an option of type `t` (as
/// written): integer options keep only choices whose value reads as an
/// `i32`, number options carry the value for the client to read, others are
/// text.
pub open spec fn choice_spec_ok(t: Seq<char>, c: Choice, r: Option<ChoiceSpec>) -> bool {
    if t == "integer"@ {
        match parse_i32(c.value@) {
            Some(v) => r matches Some(ChoiceSpec::Int { name, value }) && name@ == c.name@ && value == v,
            None => r is None,
        }
    } else if t == "number"@ {
        r matches Some(ChoiceSpec::Number { name, value }) && name@ == c.name@ && value@ == c.value@
    } else {
        r matches Some(ChoiceSpec::Text { name, value }) && name@ == c.name@ && value@ == c.value@
    }
}

fn copy_string(s: &String) -> (r: String)
    ensures
        r@ == s@,
{
    s.clone()
}

fn choice_spec(t: &str, c: &Choice) -> (r: Option<ChoiceSpec>)
    ensures
        choice_spec_ok(t@, *c, r),
{
    if str_eq(t, "integer") {
        match parse_i32_str(c.value.as_str()) {
            Some(v) => Some(ChoiceSpec::Int { name: copy_string(&c.name), value: v }),
            None => None,
        }
    } else if str_eq(t, "number") {
        Some(ChoiceSpec::Number { name: copy_string(&c.name), value: copy_string(&c.value) })
    } else {
        Some(ChoiceSpec::Text { name: copy_string(&c.name), value: copy_string(&c.value) })
    }
}

/// The choices kept for option `o`, in order.
pub open spec fn choices_ok(o: CommandOption, out: Seq<ChoiceSpec>) -> bool {
    exists|picked: Seq<Option<ChoiceSpec>>| {
        &&& picked.len() == o.choices@.len()
        &&& forall|k: int| 0 <= k < picked.len() ==> choice_spec_ok(o.option_type@, o.choices@[k], #[trigger] picked[k])
        &&& out == kept_choices(picked)
    }
}

/// The choices that were kept, in order.
pub open spec fn kept_choices(picked: Seq<Option<ChoiceSpec>>) -> Seq<ChoiceSpec>
    decreases picked.len(),
{
    if picked.len() == 0 {
        Seq::empty()
    } else {
        match picked.last() {
            Some(c) => kept_choices(picked.drop_last()).push(c),
            None => kept_choices(picked.drop_last()),
        }
    }
}

/// The option a configured option becomes.
pub open spec fn option_ok(o: CommandOption, r: OptionSpec) -> bool {
    &&& r.name@ == o.name@
    &&& r.description@ == o.description@
    &&& r.kind == option_kind(lowercase(o.option_type@))
    &&& r.required == o.required
    &&& choices_ok(o, r.choices@)
}

fn option_spec(o: &CommandOption) -> (r: OptionSpec)
    ensures
        option_ok(*o, r),
{
    let mut choices: Vec<ChoiceSpec> = Vec::new();
    let ghost mut picked: Seq<Option<ChoiceSpec>> = Seq::empty();
    let mut i: usize = 0;
    while i < o.choices.len()
        invariant
            i <= o.choices@.len(),
            picked.len() == i,
            forall|k: int| 0 <= k < i ==> choice_spec_ok(o.option_type@, o.choices@[k], #[trigger] picked[k]),
            choices@ == kept_choices(picked),
        decreases o.choices@.len() - i,
    {
        let c = choice_spec(o.option_type.as_str(), &o.choices[i]);
        let ghost before = picked;
        proof {
            picked = picked.push(c);
            assert(picked.drop_last() =~= before);
        }
        match c {
            Some(spec) => choices.push(spec),
            None => {},
        }
        i = i + 1;
    }
    OptionSpec {
        name: copy_string(&o.name),
        description: copy_string(&o.description),
        kind: parse_option_type(o.option_type.as_str()),
        required: o.required,
        choices,
    }
}

/// The subcommand a plugin becomes: its command's name and description and
/// one option per configured option.
pub open spec fn subcommand_ok(p: Plugin, s: SubcommandSpec) -> bool {
    &&& s.name@ == p.command.name@
    &&& s.description@ == p.command.description@
    &&& s.options@.len() == p.command.options@.len()
    &&& forall|k: int| 0 <= k < s.options@.len() ==> option_ok(p.command.options@[k], #[trigger] s.options@[k])
}

/// The enabled plugins of `ps`, in order.
pub open spec fn enabled_plugins(ps: Seq<Plugin>) -> Seq<Plugin>
    decreases ps.len(),
{
    if ps.len() == 0 {
        ps
    } else if ps.last().enabled {
        enabled_plugins(ps.drop_last()).push(ps.last())
    } else {
        enabled_plugins(ps.drop_last())
    }
}

fn subcommand_spec(p: &Plugin) -> (s: SubcommandSpec)
    ensures
        subcommand_ok(*p, s),
{
    let mut options: Vec<OptionSpec> = Vec::new();
    let mut i: usize = 0;
    while i < p.command.options.len()
        invariant
            i <= p.command.options@.len(),
            options@.len() == i,
            forall|k: int| 0 <= k < i ==> option_ok(p.command.options@[k], #[trigger] options@[k]),
        decreases p.command.options@.len() - i,
    {
        options.push(option_spec(&p.command.options[i]));
        i = i + 1;
    }
    SubcommandSpec {
        name: copy_string(&p.command.name),
        description: copy_string(&p.command.description),
        options,
    }
}

/// Generate the single `/plugins` command, one subcommand per enabled
/// plugin, in order.
pub fn create_plugins_command(plugins: &[Plugin]) -> (cmd: SlashCommand)
    ensures
        cmd.name@ == "plugins"@,
        cmd.description@ == "Run plugin commands (transcribe, weather, dns, etc.)"@,
        cmd.subcommands@.len() == enabled_plugins(plugins@).len(),
        forall|k: int| 0 <= k < cmd.subcommands@.len() ==> subcommand_ok(
            enabled_plugins(plugins@)[k],
            #[trigger] cmd.subcommands@[k],
        ),
{
    let mut subcommands: Vec<SubcommandSpec> = Vec::new();
    let mut i: usize = 0;
    assert(plugins@.take(0) =~= Seq::<Plugin>::empty());
    while i < plugins.len()
        invariant
            i <= plugins@.len(),
            subcommands@.len() == enabled_plugins(plugins@.take(i as int)).len(),
            forall|k: int| 0 <= k < subcommands@.len() ==> subcommand_ok(
                enabled_plugins(plugins@.take(i as int))[k],
                #[trigger] subcommands@[k],
            ),
        decreases plugins@.len() - i,
    {
        let ghost prev = enabled_plugins(plugins@.take(i as int));
        assert(plugins@.take(i + 1).drop_last() =~= plugins@.take(i as int));
        assert(plugins@.take(i + 1).last() == plugins@[i as int]);
        if plugins[i].enabled {
            let s = subcommand_spec(&plugins[i]);
            subcommands.push(s);
            assert(enabled_plugins(plugins@.take(i + 1)) == prev.push(plugins@[i as int]));
            assert forall|k: int| 0 <= k < subcommands@.len() implies subcommand_ok(
                enabled_plugins(plugins@.take(i + 1))[k],
                #[trigger] subcommands@[k],
            ) by {
                if k < prev.len() {
                    assert(enabled_plugins(plugins@.take(i + 1))[k] == prev[k]);
                }
            }
        }
        i = i + 1;
    }
    assert(plugins@.take(plugins@.len() as int) =~= plugins@);
    SlashCommand {
        name: "plugins".to_owned(),
        description: "Run plugin commands (transcribe, weather, dns, etc.)".to_owned(),
        subcommands,
    }
}

} // verus!
