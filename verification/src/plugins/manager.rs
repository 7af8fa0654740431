//! The plugin manager's decisions: which plugin a command runs, who may run
//! it, whether its parameters are acceptable, and the text of the messages a
//! run posts.

use vstd::prelude::*;
use std::collections::HashMap;
use crate::plugins::config::{regex_compile_error, CommandOption, Plugin, PluginConfig};
use crate::plugins::executor::{lists_entries, map_entries, PluginExecutor};
use crate::plugins::job::JobManager;
use crate::text::{
    append_decimal, append_str, byte_len, byte_len_chars, byte_take, chars_of, copy_range, dec, is_boundary,
    lemma_cut_chars_unique, lemma_utf8_len_at_least_len, str_eq, string_of, utf8_len,
};

verus! {

/// `&s[..n]` for a character boundary `n`: the prefix of `s` that takes
/// exactly `n` bytes (std's string slicing).
#[verifier::external_body]
fn str_prefix<'a>(s: &'a str, n: usize) -> (r: &'a str)
    requires
        is_boundary(s@, n as int),
    ensures
        r@ == byte_take(s@, n as nat),
{
    &s[..n]
}

/// The first eight characters of a job id, for display (the whole id when
/// shorter).
pub fn short_job_id(id: &str) -> (r: &str)
    ensures
        r@ == if id@.len() >= 8 {
            id@.take(8)
        } else {
            id@
        },
{
    let cs = chars_of(id);
    if cs.len() >= 8 {
        let head = copy_range(cs.as_slice(), 0, 8);
        proof {
            lemma_utf8_len_at_least_len(head@);
        }
        let n = byte_len_chars(head.as_slice());
        proof {
            assert(head@ =~= id@.take(8));
            assert(is_boundary(id@, n as int));
            lemma_cut_chars_unique(id@, 8, n as nat);
        }
        str_prefix(id, n)
    } else {
        id
    }
}

/// What `params.get(name)` gives, as text: the value under a key whose text is
/// `name`, or none when no key has that text.
pub open spec fn param_value(m: Map<String, String>, name: Seq<char>, v: Option<Seq<char>>) -> bool {
    match v {
        Some(x) => exists|k: String| #[trigger] m.contains_key(k) && k@ == name && m[k]@ == x,
        None => forall|k: String| #[trigger] m.contains_key(k) ==> k@ != name,
    }
}

/// The value of parameter `name`, if given.
pub fn lookup_param(params: &HashMap<String, String>, name: &str) -> (r: Option<String>)
    ensures
        param_value(params@, name@, match r {
            Some(s) => Some(s@),
            None => None,
        }),
{
    let entries = map_entries(params);
    let mut i: usize = 0;
    while i < entries.len()
        invariant
            i <= entries@.len(),
            lists_entries(params@, entries@),
            forall|j: int| 0 <= j < i ==> (#[trigger] entries@[j]).0@ != name@,
        decreases entries@.len() - i,
    {
        if str_eq(entries[i].0.as_str(), name) {
            let ghost k = entries@[i as int].0;
            assert(params@.contains_key(k) && k@ == name@);
            return Some(entries[i].1.clone());
        }
        i = i + 1;
    }
    proof {
        assert forall|k: String| #[trigger] params@.contains_key(k) implies k@ != name@ by {
            let j = choose|j: int| 0 <= j < entries@.len() && (#[trigger] entries@[j].0) == k;
            assert(entries@[j].0@ != name@);
        }
    }
    None
}

/// Whether `regex` pattern `pattern` matches somewhere in `text`.
pub uninterp spec fn regex_is_match(pattern: Seq<char>, text: Seq<char>) -> bool;

/// `regex::Regex::new(pattern)` then `Regex::is_match(text)`: the compile
/// error's text when the pattern does not compile, else whether it matches.
/// Which patterns compile and what they match is the `regex` crate's own
/// grammar, named by `regex_compile_error` and `regex_is_match`.
#[verifier::external_body]
fn regex_match(pattern: &str, text: &str) -> (r: Result<bool, String>)
    ensures
        r matches Err(m) ==> regex_compile_error(pattern@) == Some(m@),
        r matches Ok(b) ==> regex_compile_error(pattern@) is None && b == regex_is_match(pattern@, text@),
{
    match regex::Regex::new(pattern) {
        Ok(re) => Ok(re.is_match(text)),
        Err(e) => Err(e.to_string()),
    }
}

/// Why an option's value is refused, if it is: a missing required value, a
/// pattern that does not compile or match, or a length out of bounds.
pub open spec fn option_check(opt: CommandOption, value: Option<Seq<char>>) -> Option<Seq<char>> {
    if opt.required && value is None {
        Some("Missing required parameter: "@ + opt.name@)
    } else {
        match value {
            None => None,
            Some(val) => match opt.validation {
                None => None,
                Some(v) => {
                    let pattern_fault = match v.pattern {
                        None => None,
                        Some(p) => match regex_compile_error(p@) {
                            Some(e) => Some(e),
                            None => if !regex_is_match(p@, val) {
                                Some("Parameter '"@ + opt.name@ + "' does not match required format"@)
                            } else {
                                None
                            },
                        },
                    };
                    if pattern_fault is Some {
                        pattern_fault
                    } else if v.min_length matches Some(min) && utf8_len(val) < min {
                        Some("Parameter '"@ + opt.name@ + "' must be at least "@ + dec(v.min_length->0 as nat)
                            + " characters"@)
                    } else if v.max_length matches Some(max) && utf8_len(val) > max {
                        Some("Parameter '"@ + opt.name@ + "' must be at most "@ + dec(v.max_length->0 as nat)
                            + " characters"@)
                    } else {
                        None
                    }
                },
            },
        }
    }
}

/// `r` is what checking the parameter map `m` against `opts` gives: the first
/// refusal, or none when every option passes.
pub open spec fn params_result(opts: Seq<CommandOption>, m: Map<String, String>, r: Option<Seq<char>>) -> bool
    decreases opts.len(),
{
    if opts.len() == 0 {
        r is None
    } else {
        exists|v: Option<Seq<char>>|
            #[trigger] param_value(m, opts[0].name@, v) && match option_check(opts[0], v) {
                Some(e) => r == Some(e),
                None => params_result(opts.drop_first(), m, r),
            }
    }
}

/// Law: a value shorter (in bytes) than its option's minimum length is always
/// refused, and with no pattern on the option the refusal names that minimum;
/// a value longer than the maximum is always refused too.
pub proof fn lemma_length_bounds_refuse(opt: CommandOption, val: Seq<char>)
    ensures
        opt.validation is Some && opt.validation->0.min_length is Some && utf8_len(val)
            < opt.validation->0.min_length->0 ==> option_check(opt, Some(val)) is Some,
        opt.validation is Some && opt.validation->0.pattern is None && opt.validation->0.min_length is Some
            && utf8_len(val) < opt.validation->0.min_length->0 ==> option_check(opt, Some(val)) == Some(
            "Parameter '"@ + opt.name@ + "' must be at least "@ + dec(opt.validation->0.min_length->0 as nat)
                + " characters"@,
        ),
        opt.validation is Some && opt.validation->0.max_length is Some && utf8_len(val)
            > opt.validation->0.max_length->0 ==> option_check(opt, Some(val)) is Some,
{
}

/// Law: what checking one option's value decides. A missing required value
/// is refused; a missing optional one, or any value of an option without
/// validation, passes; a pattern that does not compile refuses with its
/// error, and one that compiles but does not match refuses the value; and a
/// value that its pattern (if any) matches and that lies within its length
/// bounds passes.
pub proof fn lemma_option_check_cases(opt: CommandOption, value: Option<Seq<char>>)
    ensures
        opt.required && value is None ==> option_check(opt, value) == Some("Missing required parameter: "@ + opt.name@),
        !opt.required && value is None ==> option_check(opt, value) is None,
        value is Some && opt.validation is None ==> option_check(opt, value) is None,
        value is Some && opt.validation is Some && opt.validation->0.pattern is Some && regex_compile_error(
            opt.validation->0.pattern->0@,
        ) is Some ==> option_check(opt, value) == regex_compile_error(opt.validation->0.pattern->0@),
        value is Some && opt.validation is Some && opt.validation->0.pattern is Some && regex_compile_error(
            opt.validation->0.pattern->0@,
        ) is None && !regex_is_match(opt.validation->0.pattern->0@, value->0) ==> option_check(opt, value) == Some(
            "Parameter '"@ + opt.name@ + "' does not match required format"@,
        ),
        value is Some && opt.validation is Some && (opt.validation->0.pattern is Some ==> regex_compile_error(
            opt.validation->0.pattern->0@,
        ) is None && regex_is_match(opt.validation->0.pattern->0@, value->0)) && (opt.validation->0.min_length is Some
            ==> utf8_len(value->0) >= opt.validation->0.min_length->0) && (opt.validation->0.max_length is Some
            ==> utf8_len(value->0) <= opt.validation->0.max_length->0) ==> option_check(opt, value) is None,
{
}

/// Law: parameters that pass validation keep every option's length bounds:
/// when the check of `m` against `opts` finds no fault, the value given for
/// each option is at least its minimum and at most its maximum length.
pub proof fn lemma_accepted_params_within_bounds(opts: Seq<CommandOption>, m: Map<String, String>, i: int, k: String)
    requires
        params_result(opts, m, None),
        0 <= i < opts.len(),
        m.contains_key(k),
        k@ == opts[i].name@,
        forall|k2: String| #[trigger] m.contains_key(k2) && k2@ == k@ ==> k2 == k,
    ensures
        opts[i].validation is Some && opts[i].validation->0.min_length is Some ==> utf8_len(m[k]@)
            >= opts[i].validation->0.min_length->0,
        opts[i].validation is Some && opts[i].validation->0.max_length is Some ==> utf8_len(m[k]@)
            <= opts[i].validation->0.max_length->0,
    decreases i,
{
    let v = choose|v: Option<Seq<char>>|
        #[trigger] param_value(m, opts[0].name@, v) && match option_check(opts[0], v) {
            Some(e) => None::<Seq<char>> == Some(e),
            None => params_result(opts.drop_first(), m, None),
        };
    assert(param_value(m, opts[0].name@, v) && option_check(opts[0], v) is None);
    if i == 0 {
        match v {
            Some(x) => {
                let k1 = choose|k1: String| #[trigger] m.contains_key(k1) && k1@ == opts[0].name@ && m[k1]@ == x;
                assert(k1 == k);
                lemma_length_bounds_refuse(opts[0], x);
            },
            None => {
                assert(m.contains_key(k));
            },
        }
    } else {
        assert(opts.drop_first()[i - 1] == opts[i]);
        lemma_accepted_params_within_bounds(opts.drop_first(), m, i - 1, k);
    }
}

fn check_option(opt: &CommandOption, value: &Option<String>) -> (r: Option<String>)
    requires
        match value {
            Some(v) => utf8_len(v@) <= usize::MAX,
            None => true,
        },
    ensures
        match r {
            Some(m) => option_check(*opt, match value {
                Some(s) => Some(s@),
                None => None,
            }) == Some(m@),
            None => option_check(*opt, match value {
                Some(s) => Some(s@),
                None => None,
            }) is None,
        },
{
    match value {
        None => {
            if opt.required {
                let mut v: Vec<char> = Vec::new();
                append_str(&mut v, "Missing required parameter: ");
                append_str(&mut v, opt.name.as_str());
                return Some(string_of(v.as_slice()));
            }
            None
        },
        Some(val) => {
            match &opt.validation {
                None => None,
                Some(rule) => {
                    match &rule.pattern {
                        Some(p) => {
                            match regex_match(p.as_str(), val.as_str()) {
                                Err(e) => return Some(e),
                                Ok(m) => {
                                    if !m {
                                        let mut v: Vec<char> = Vec::new();
                                        append_str(&mut v, "Parameter '");
                                        append_str(&mut v, opt.name.as_str());
                                        append_str(&mut v, "' does not match required format");
                                        return Some(string_of(v.as_slice()));
                                    }
                                },
                            }
                        },
                        None => {},
                    }
                    let len = byte_len(val.as_str());
                    match rule.min_length {
                        Some(min) => {
                            if len < min {
                                let mut v: Vec<char> = Vec::new();
                                append_str(&mut v, "Parameter '");
                                append_str(&mut v, opt.name.as_str());
                                append_str(&mut v, "' must be at least ");
                                append_decimal(&mut v, min as u64);
                                append_str(&mut v, " characters");
                                return Some(string_of(v.as_slice()));
                            }
                        },
                        None => {},
                    }
                    match rule.max_length {
                        Some(max) => {
                            if len > max {
                                let mut v: Vec<char> = Vec::new();
                                append_str(&mut v, "Parameter '");
                                append_str(&mut v, opt.name.as_str());
                                append_str(&mut v, "' must be at most ");
                                append_decimal(&mut v, max as u64);
                                append_str(&mut v, " characters");
                                return Some(string_of(v.as_slice()));
                            }
                        },
                        None => {},
                    }
                    None
                },
            }
        },
    }
}

/// The plugin manager's core: the loaded plugins, the command executor and
/// the jobs.
pub struct PluginManager {
    pub config: PluginConfig,
    pub executor: PluginExecutor,
    pub job_manager: JobManager,
}

/// The first plugin among `plugins` named `name`.
pub open spec fn plugin_named(plugins: Seq<Plugin>, name: Seq<char>) -> Option<Plugin>
    decreases plugins.len(),
{
    if plugins.len() == 0 {
        None
    } else if plugins[0].name@ == name {
        Some(plugins[0])
    } else {
        plugin_named(plugins.drop_first(), name)
    }
}

/// The first enabled plugin among `plugins` whose command is `command`.
pub open spec fn plugin_for_command(plugins: Seq<Plugin>, command: Seq<char>) -> Option<Plugin>
    decreases plugins.len(),
{
    if plugins.len() == 0 {
        None
    } else if plugins[0].enabled && plugins[0].command.name@ == command {
        Some(plugins[0])
    } else {
        plugin_for_command(plugins.drop_first(), command)
    }
}

/// Whether `list` holds the text `s`.
pub open spec fn holds_text(list: Seq<String>, s: Seq<char>) -> bool {
    exists|i: int| 0 <= i < list.len() && (#[trigger] list[i])@ == s
}

/// Why a user may not run a plugin, if they may not: blocked, not on the
/// allow-list, or without any allowed role.
pub open spec fn access_fault(plugin: Plugin, user: Seq<char>, roles: Seq<String>) -> Option<Seq<char>> {
    if holds_text(plugin.security.blocked_users@, user) {
        Some("You are blocked from using this plugin"@)
    } else if plugin.security.allowed_users@.len() > 0 && !holds_text(plugin.security.allowed_users@, user) {
        Some("You are not authorized to use this plugin"@)
    } else if plugin.security.allowed_roles@.len() > 0 && !(exists|i: int| 0 <= i < roles.len() && holds_text(
        plugin.security.allowed_roles@,
        (#[trigger] roles[i])@,
    )) {
        Some("You don't have a required role to use this plugin"@)
    } else {
        None
    }
}

fn contains_text(list: &Vec<String>, s: &str) -> (b: bool)
    ensures
        b == holds_text(list@, s@),
{
    let mut i: usize = 0;
    while i < list.len()
        invariant
            i <= list@.len(),
            forall|j: int| 0 <= j < i ==> (#[trigger] list@[j])@ != s@,
        decreases list@.len() - i,
    {
        if str_eq(list[i].as_str(), s) {
            return true;
        }
        i = i + 1;
    }
    false
}

fn any_role_allowed(roles: &[String], allowed: &Vec<String>) -> (b: bool)
    ensures
        b == exists|i: int| 0 <= i < roles@.len() && holds_text(allowed@, (#[trigger] roles@[i])@),
{
    let mut i: usize = 0;
    while i < roles.len()
        invariant
            i <= roles@.len(),
            forall|j: int| 0 <= j < i ==> !holds_text(allowed@, (#[trigger] roles@[j])@),
        decreases roles@.len() - i,
    {
        if contains_text(allowed, roles[i].as_str()) {
            return true;
        }
        i = i + 1;
    }
    false
}

impl PluginManager {
    /// A manager for `config`, whose executor may run `allowed_commands`.
    pub fn new(config: PluginConfig, allowed_commands: Vec<String>) -> (m: Self)
        ensures
            m.config == config,
            m.executor.allowed() == allowed_commands@.map_values(|s: String| s@),
            m.job_manager.wf(),
            forall|id: Seq<char>| m.job_manager.job(id) is None && m.job_manager.playlist(id) is None,
    {
        PluginManager { config, executor: PluginExecutor::new(allowed_commands), job_manager: JobManager::new() }
    }

    /// The plugin named `name`.
    pub fn get_plugin(&self, name: &str) -> (r: Option<&Plugin>)
        ensures
            match r {
                Some(p) => plugin_named(self.config.plugins@, name@) == Some(*p),
                None => plugin_named(self.config.plugins@, name@) is None,
            },
    {
        let ps = &self.config.plugins;
        let mut i: usize = 0;
        assert(ps@.skip(0) =~= ps@);
        while i < ps.len()
            invariant
                i <= ps@.len(),
                ps@ == self.config.plugins@,
                plugin_named(ps@, name@) == plugin_named(ps@.skip(i as int), name@),
            decreases ps@.len() - i,
        {
            assert(ps@.skip(i as int)[0] == ps@[i as int]);
            assert(ps@.skip(i as int).drop_first() =~= ps@.skip(i + 1));
            if str_eq(ps[i].name.as_str(), name) {
                return Some(&ps[i]);
            }
            i = i + 1;
        }
        None
    }

    /// The enabled plugin whose command is `command_name`.
    pub fn get_plugin_by_command(&self, command_name: &str) -> (r: Option<&Plugin>)
        ensures
            match r {
                Some(p) => plugin_for_command(self.config.plugins@, command_name@) == Some(*p),
                None => plugin_for_command(self.config.plugins@, command_name@) is None,
            },
    {
        let ps = &self.config.plugins;
        let mut i: usize = 0;
        assert(ps@.skip(0) =~= ps@);
        while i < ps.len()
            invariant
                i <= ps@.len(),
                ps@ == self.config.plugins@,
                plugin_for_command(ps@, command_name@) == plugin_for_command(ps@.skip(i as int), command_name@),
            decreases ps@.len() - i,
        {
            assert(ps@.skip(i as int)[0] == ps@[i as int]);
            assert(ps@.skip(i as int).drop_first() =~= ps@.skip(i + 1));
            if ps[i].enabled && str_eq(ps[i].command.name.as_str(), command_name) {
                return Some(&ps[i]);
            }
            i = i + 1;
        }
        None
    }

    /// Whether `user_id`, holding `user_roles`, may run `plugin`.
    pub fn check_access(&self, plugin: &Plugin, user_id: &str, user_roles: &[String]) -> (r: Result<(), String>)
        ensures
            match access_fault(*plugin, user_id@, user_roles@) {
                Some(m) => r matches Err(e) && e@ == m,
                None => r is Ok,
            },
    {
        if contains_text(&plugin.security.blocked_users, user_id) {
            return Err("You are blocked from using this plugin".to_owned());
        }
        if plugin.security.allowed_users.len() > 0 && !contains_text(&plugin.security.allowed_users, user_id) {
            return Err("You are not authorized to use this plugin".to_owned());
        }
        if plugin.security.allowed_roles.len() > 0 && !any_role_allowed(user_roles, &plugin.security.allowed_roles) {
            return Err("You don't have a required role to use this plugin".to_owned());
        }
        Ok(())
    }

    /// Whether `user_id` is out of the plugin's cooldown at `now` (ms).
    pub fn check_cooldown(&self, plugin: &Plugin, user_id: &str, now: i64) -> (r: Result<(), String>)
        requires
            self.job_manager.wf(),
            plugin.security.cooldown_seconds <= i64::MAX / 1000,
            now - plugin.security.cooldown_seconds * 1000 >= i64::MIN,
        ensures
            r is Ok == (plugin.security.cooldown_seconds == 0 || !exists|k: Seq<char>|
                #[trigger] self.job_manager.jobs_map().contains_key(k) && crate::plugins::job::recent_job(
                    self.job_manager.jobs_map()[k],
                    user_id@,
                    plugin.name@,
                    now - plugin.security.cooldown_seconds * 1000,
                )),
            r is Err <==> (plugin.security.cooldown_seconds > 0 && exists|k: Seq<char>|
                #[trigger] self.job_manager.jobs_map().contains_key(k) && self.job_manager.jobs_map()[k].user_id@
                == user_id@ && self.job_manager.jobs_map()[k].plugin_name@ == plugin.name@
                && self.job_manager.jobs_map()[k].started_at > now - plugin.security.cooldown_seconds * 1000),
            r matches Err(m) ==> m@ == "Please wait "@ + dec(plugin.security.cooldown_seconds as nat)
                + " seconds before using this plugin again"@,
    {
        let cd = plugin.security.cooldown_seconds;
        if cd > 0 && !self.job_manager.check_cooldown(user_id, plugin.name.as_str(), cd, now) {
            let mut v: Vec<char> = Vec::new();
            append_str(&mut v, "Please wait ");
            append_decimal(&mut v, cd);
            append_str(&mut v, " seconds before using this plugin again");
            return Err(string_of(v.as_slice()));
        }
        Ok(())
    }

    /// Checks the parameters against the plugin's options, in order: the
    /// first refusal is returned.
    pub fn validate_params(&self, plugin: &Plugin, params: &HashMap<String, String>) -> (r: Result<(), String>)
        requires
            forall|k: String| #[trigger] params@.contains_key(k) ==> utf8_len(params@[k]@) <= usize::MAX,
        ensures
            params_result(plugin.command.options@, params@, match r {
                Ok(_) => None,
                Err(e) => Some(e@),
            }),
    {
        let opts = &plugin.command.options;
        let mut i: usize = 0;
        assert(opts@.skip(0) =~= opts@);
        while i < opts.len()
            invariant
                i <= opts@.len(),
                opts@ == plugin.command.options@,
                forall|rr: Option<Seq<char>>| #[trigger] params_result(opts@.skip(i as int), params@, rr)
                    ==> params_result(opts@, params@, rr),
                forall|k: String| #[trigger] params@.contains_key(k) ==> utf8_len(params@[k]@) <= usize::MAX,
            decreases opts@.len() - i,
        {
            let value = lookup_param(params, opts[i].name.as_str());
            let ghost vv = match &value {
                Some(s) => Some(s@),
                None => None::<Seq<char>>,
            };
            proof {
                match &value {
                    Some(s) => {
                        let k = choose|k: String| #[trigger] params@.contains_key(k) && k@ == opts@[i as int].name@
                            && params@[k]@ == s@;
                        assert(utf8_len(s@) <= usize::MAX);
                    },
                    None => {},
                }
                assert(opts@.skip(i as int)[0] == opts@[i as int]);
                assert(opts@.skip(i as int).drop_first() =~= opts@.skip(i + 1));
            }
            match check_option(&opts[i], &value) {
                Some(m) => {
                    proof {
                        assert(param_value(params@, opts@.skip(i as int)[0].name@, vv));
                        assert(params_result(opts@.skip(i as int), params@, Some(m@)));
                        assert(params_result(opts@, params@, Some(m@)));
                    }
                    return Err(m);
                },
                None => {},
            }
            proof {
                assert forall|rr: Option<Seq<char>>| #[trigger] params_result(opts@.skip(i + 1), params@, rr) implies params_result(
                    opts@,
                    params@,
                    rr,
                ) by {
                    assert(param_value(params@, opts@.skip(i as int)[0].name@, vv));
                    assert(params_result(opts@.skip(i as int), params@, rr));
                }
            }
            i = i + 1;
        }
        proof {
            assert(opts@.skip(i as int).len() == 0);
            assert(params_result(opts@.skip(i as int), params@, None));
        }
        Ok(())
    }

    /// Whether chunked transcription is configured and enabled for `plugin`.
    pub fn should_use_chunking(&self, plugin: &Plugin) -> (b: bool)
        ensures
            b == (plugin.execution.chunking matches Some(c) && c.enabled),
    {
        match &plugin.execution.chunking {
            Some(c) => c.enabled,
            None => false,
        }
    }
}

} // verus!
