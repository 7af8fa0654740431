//! Rules for running plugin commands safely: the command allowlist, argument
//! screening and `${param}` substitution.

use std::collections::HashMap;
use vstd::prelude::*;
use crate::plugins::config::{ChunkingConfig, ExecutionConfig};
use crate::text::{
    append_chars, append_str, byte_prefix, byte_take, chars_of, contains_chars, contains_char,
    find, first_occurrence, lemma_first_occurrence, occurs_at, replace_all, replace_chars,
    starts_with, starts_with_chars, string_of, utf8_len, utf8_len_wide, copy_range, is_boundary,
};

verus! {

/// Characters that could enable shell injection, in the order they are checked.
pub open spec fn dangerous_chars() -> Seq<char> {
    seq!['|', ';', '&', '$', '`', '(', ')', '{', '}', '<', '>', '\n', '\r', '\0']
}

/// `arg` is an http(s) URL, in which `&` is allowed.
pub open spec fn is_url(arg: Seq<char>) -> bool {
    starts_with(arg, "http://"@) || starts_with(arg, "https://"@)
}

/// The first dangerous character, in check order from index `i` on, that `arg` holds.
pub open spec fn forbidden_from(arg: Seq<char>, i: int) -> Option<char>
    decreases dangerous_chars().len() - i,
{
    if i < 0 || i >= dangerous_chars().len() {
        None
    } else {
        let ch = dangerous_chars()[i];
        if !(ch == '&' && is_url(arg)) && arg.contains(ch) {
            Some(ch)
        } else {
            forbidden_from(arg, i + 1)
        }
    }
}

/// The dangerous character that `validate_argument` reports for `arg`.
pub open spec fn forbidden_char(arg: Seq<char>) -> Option<char> {
    forbidden_from(arg, 0)
}

/// How a forbidden character is named in the error message.
pub open spec fn char_display(ch: char) -> Seq<char> {
    if ch == '\n' {
        "newline"@
    } else if ch == '\r' {
        "carriage return"@
    } else if ch == '\0' {
        "null byte"@
    } else {
        seq!['\'', ch, '\'']
    }
}

/// The error for an argument holding `ch`: the character and the first fifty characters.
pub open spec fn forbidden_message(arg: Seq<char>, ch: char) -> Seq<char> {
    "Argument contains forbidden character "@ + char_display(ch) + ": "@ + (if arg.len() > 50 {
        arg.take(50)
    } else {
        arg
    })
}

/// `PluginExecutor::validate_argument(arg)`.
pub open spec fn argument_check(arg: Seq<char>) -> Result<(), Seq<char>> {
    match forbidden_char(arg) {
        Some(ch) => Err(forbidden_message(arg, ch)),
        None => Ok(()),
    }
}

fn push_char_display(v: &mut Vec<char>, ch: char)
    ensures
        final(v)@ == old(v)@ + char_display(ch),
{
    if ch == '\n' {
        append_str(v, "newline");
    } else if ch == '\r' {
        append_str(v, "carriage return");
    } else if ch == '\0' {
        append_str(v, "null byte");
    } else {
        v.push('\'');
        v.push(ch);
        v.push('\'');
        assert(final(v)@ =~= old(v)@ + seq!['\'', ch, '\'']);
    }
}

/// Screens one argument for shell metacharacters (an `&` inside a URL is fine).
pub fn check_argument(arg: &str) -> (r: Result<(), String>)
    ensures
        r matches Ok(_) ==> argument_check(arg@) is Ok,
        r matches Err(m) ==> argument_check(arg@) == Err::<(), Seq<char>>(m@),
{
    let cs = chars_of(arg);
    let http = ['h', 't', 't', 'p', ':', '/', '/'];
    let https = ['h', 't', 't', 'p', 's', ':', '/', '/'];
    proof {
        reveal_strlit("http://");
        reveal_strlit("https://");
    }
    assert(http@ =~= "http://"@);
    assert(https@ =~= "https://"@);
    let url = starts_with_chars(cs.as_slice(), &http) || starts_with_chars(cs.as_slice(), &https);
    let list = ['|', ';', '&', '$', '`', '(', ')', '{', '}', '<', '>', '\n', '\r', '\0'];
    assert(list@ =~= dangerous_chars());
    let mut i: usize = 0;
    while i < 14
        invariant
            i <= 14,
            list@ == dangerous_chars(),
            cs@ == arg@,
            url == is_url(arg@),
            forbidden_char(arg@) == forbidden_from(arg@, i as int),
        decreases 14 - i,
    {
        let ch = list[i];
        if !(ch == '&' && url) && contains_char(cs.as_slice(), ch) {
            let mut v: Vec<char> = Vec::new();
            append_str(&mut v, "Argument contains forbidden character ");
            push_char_display(&mut v, ch);
            append_str(&mut v, ": ");
            if cs.len() > 50 {
                let head = copy_range(cs.as_slice(), 0, 50);
                append_chars(&mut v, head.as_slice());
            } else {
                append_chars(&mut v, cs.as_slice());
            }
            return Err(string_of(v.as_slice()));
        }
        i = i + 1;
    }
    Ok(())
}

/// `${key}`.
pub open spec fn placeholder(key: Seq<char>) -> Seq<char> {
    seq!['$', '{'] + key + seq!['}']
}

/// The views of key/value string pairs.
pub open spec fn pair_views(v: Seq<(String, String)>) -> Seq<(Seq<char>, Seq<char>)> {
    v.map_values(|p: (String, String)| (p.0@, p.1@))
}

/// `arg` with every `${key}` replaced by its value, one entry after another.
pub open spec fn subst_all(arg: Seq<char>, entries: Seq<(Seq<char>, Seq<char>)>) -> Seq<char>
    decreases entries.len(),
{
    if entries.len() == 0 {
        arg
    } else {
        subst_all(replace_all(arg, placeholder(entries[0].0), entries[0].1), entries.drop_first())
    }
}

/// The first user value that fails screening, as the error it gives.
pub open spec fn param_fault(entries: Seq<(Seq<char>, Seq<char>)>) -> Option<Seq<char>>
    decreases entries.len(),
{
    if entries.len() == 0 {
        None
    } else {
        match argument_check(entries[0].1) {
            Err(m) => Some("Invalid parameter '"@ + entries[0].0 + "': "@ + m),
            Ok(_) => param_fault(entries.drop_first()),
        }
    }
}

/// The error for an argument that still holds `${` after substitution.
pub open spec fn unsubstituted_message(r: Seq<char>) -> Seq<char> {
    match first_occurrence(r, seq!['$', '{']) {
        Some(start) => match first_occurrence(r.skip(start), seq!['}']) {
            Some(end) => "Unsubstituted placeholder "@ + r.subrange(start, start + end + 1)
                + ": parameter not provided"@,
            None => "Unsubstituted placeholder in argument: "@ + r,
        },
        None => "Unsubstituted placeholder in argument: "@ + r,
    }
}

/// The substituted arguments, or the error of the first one left with a placeholder.
pub open spec fn args_subst(args: Seq<Seq<char>>, entries: Seq<(Seq<char>, Seq<char>)>) -> Result<
    Seq<Seq<char>>,
    Seq<char>,
>
    decreases args.len(),
{
    if args.len() == 0 {
        Ok(seq![])
    } else {
        let r = subst_all(args[0], entries);
        if crate::text::contains_seq(r, seq!['$', '{']) {
            Err(unsubstituted_message(r))
        } else {
            match args_subst(args.drop_first(), entries) {
                Ok(rest) => Ok(seq![r] + rest),
                Err(m) => Err(m),
            }
        }
    }
}

/// `substitute_params(args, params)` with the parameters taken in the order `entries`.
pub open spec fn substitution(args: Seq<Seq<char>>, entries: Seq<(Seq<char>, Seq<char>)>) -> Result<
    Seq<Seq<char>>,
    Seq<char>,
> {
    match param_fault(entries) {
        Some(m) => Err(m),
        None => args_subst(args, entries),
    }
}

/// Applies every `${key}` replacement of `entries` to `arg`, in order.
pub fn substitute_all(arg: &[char], entries: &[(String, String)]) -> (out: Vec<char>)
    ensures
        out@ == subst_all(arg@, pair_views(entries@)),
{
    let mut cur = copy_range(arg, 0, arg.len());
    assert(arg@.subrange(0, arg@.len() as int) =~= arg@);
    let ghost ev = pair_views(entries@);
    let mut i: usize = 0;
    assert(ev.skip(0) =~= ev);
    while i < entries.len()
        invariant
            i <= entries@.len(),
            ev == pair_views(entries@),
            subst_all(arg@, ev) == subst_all(cur@, ev.skip(i as int)),
        decreases entries@.len() - i,
    {
        let key = chars_of(entries[i].0.as_str());
        let val = chars_of(entries[i].1.as_str());
        let mut ph: Vec<char> = Vec::new();
        ph.push('$');
        ph.push('{');
        append_chars(&mut ph, key.as_slice());
        ph.push('}');
        assert(ph@ =~= placeholder(ev[i as int].0));
        assert(ev.skip(i as int)[0] == ev[i as int]);
        assert(ev.skip(i as int).drop_first() =~= ev.skip(i + 1));
        cur = replace_chars(cur.as_slice(), ph.as_slice(), val.as_slice());
        i = i + 1;
    }
    assert(ev.skip(i as int) =~= Seq::<(Seq<char>, Seq<char>)>::empty());
    cur
}

fn unsubstituted_error(r: &[char]) -> (m: String)
    ensures
        m@ == unsubstituted_message(r@),
{
    let open = ['$', '{'];
    let close = ['}'];
    assert(open@ =~= seq!['$', '{']);
    assert(close@ =~= seq!['}']);
    let mut v: Vec<char> = Vec::new();
    match find(r, &open) {
        Some(start) => {
            proof {
                lemma_first_occurrence(r@, open@);
            }
            let rest = copy_range(r, start, r.len());
            assert(rest@ =~= r@.skip(start as int));
            match find(rest.as_slice(), &close) {
                Some(end) => {
                    proof {
                        lemma_first_occurrence(rest@, close@);
                    }
                    append_str(&mut v, "Unsubstituted placeholder ");
                    let ph = copy_range(r, start, start + end + 1);
                    append_chars(&mut v, ph.as_slice());
                    append_str(&mut v, ": parameter not provided");
                },
                None => {
                    append_str(&mut v, "Unsubstituted placeholder in argument: ");
                    append_chars(&mut v, r);
                },
            }
        },
        None => {
            append_str(&mut v, "Unsubstituted placeholder in argument: ");
            append_chars(&mut v, r);
        },
    }
    string_of(v.as_slice())
}

/// Substitutes `${param}` placeholders in `args`, the parameters taken in the
/// order `entries`. Every user value is screened first; an argument left with
/// a placeholder is an error.
pub fn substitute_params_ordered(args: &[String], entries: &[(String, String)]) -> (r: Result<
    Vec<String>,
    String,
>)
    ensures
        r matches Ok(v) ==> substitution(args@.map_values(|s: String| s@), pair_views(entries@))
            == Ok::<Seq<Seq<char>>, Seq<char>>(v@.map_values(|s: String| s@)),
        r matches Err(m) ==> substitution(args@.map_values(|s: String| s@), pair_views(entries@))
            == Err::<Seq<Seq<char>>, Seq<char>>(m@),
{
    let ghost ev = pair_views(entries@);
    let ghost av = args@.map_values(|s: String| s@);
    let mut i: usize = 0;
    assert(ev.skip(0) =~= ev);
    while i < entries.len()
        invariant
            i <= entries@.len(),
            ev == pair_views(entries@),
            param_fault(ev) == param_fault(ev.skip(i as int)),
        decreases entries@.len() - i,
    {
        assert(ev.skip(i as int)[0] == ev[i as int]);
        assert(ev.skip(i as int).drop_first() =~= ev.skip(i + 1));
        match check_argument(entries[i].1.as_str()) {
            Ok(_) => {},
            Err(m) => {
                let mut v: Vec<char> = Vec::new();
                append_str(&mut v, "Invalid parameter '");
                append_str(&mut v, entries[i].0.as_str());
                append_str(&mut v, "': ");
                append_str(&mut v, m.as_str());
                return Err(string_of(v.as_slice()));
            },
        }
        i = i + 1;
    }
    assert(ev.skip(i as int) =~= Seq::<(Seq<char>, Seq<char>)>::empty());
    let mut out: Vec<String> = Vec::new();
    let mut j: usize = 0;
    assert(av.skip(0) =~= av);
    while j < args.len()
        invariant
            j <= args@.len(),
            av == args@.map_values(|s: String| s@),
            ev == pair_views(entries@),
            param_fault(ev) is None,
            substitution(av, ev) == (match args_subst(av.skip(j as int), ev) {
                Ok(rest) => Ok(out@.map_values(|s: String| s@) + rest),
                Err(m) => Err(m),
            }),
        decreases args@.len() - j,
    {
        let a = chars_of(args[j].as_str());
        assert(av.skip(j as int)[0] == av[j as int]);
        assert(av.skip(j as int).drop_first() =~= av.skip(j + 1));
        let r = substitute_all(a.as_slice(), entries);
        let open = ['$', '{'];
        assert(open@ =~= seq!['$', '{']);
        if contains_chars(r.as_slice(), &open) {
            return Err(unsubstituted_error(r.as_slice()));
        }
        let ghost before = out@.map_values(|s: String| s@);
        out.push(string_of(r.as_slice()));
        assert(out@.map_values(|s: String| s@) =~= before.push(r@));
        proof {
            match args_subst(av.skip(j + 1), ev) {
                Ok(rest) => {
                    assert(before + (seq![r@] + rest) =~= before.push(r@) + rest);
                },
                Err(m) => {},
            }
        }
        j = j + 1;
    }
    assert(av.skip(j as int) =~= Seq::<Seq<char>>::empty());
    assert(out@.map_values(|s: String| s@) + Seq::<Seq<char>>::empty() =~= out@.map_values(|s: String| s@));
    Ok(out)
}

/// `HashMap::iter` over the parameters, each entry cloned: every entry of the
/// map exactly once, in the map's own iteration order (which nothing fixes).
#[verifier::external_body]
pub(crate) fn map_entries(m: &HashMap<String, String>) -> (v: Vec<(String, String)>)
    ensures
        lists_entries(m@, v@),
{
    m.iter().map(|(k, val)| (k.clone(), val.clone())).collect()
}

/// `entries` lists the map `m`: each of its entries exactly once, in some order.
pub open spec fn lists_entries(m: Map<String, String>, entries: Seq<(String, String)>) -> bool {
    &&& forall|i: int| 0 <= i < entries.len() ==> m.contains_key(#[trigger] entries[i].0) && m[entries[i].0] == entries[i].1
    &&& forall|i: int, j: int| 0 <= i < j < entries.len() ==> (#[trigger] entries[i].0) != (#[trigger] entries[j].0)
    &&& forall|k: String| m.contains_key(k) ==> exists|i: int| 0 <= i < entries.len() && (#[trigger] entries[i].0) == k
}

/// Secure CLI command executor: the allowlist of commands it may run.
#[derive(Clone)]
pub struct PluginExecutor {
    /// Allowed commands (e.g., "docker", "echo")
    allowed_commands: Vec<String>,
}

impl PluginExecutor {
    /// The commands this executor may run.
    pub closed spec fn allowed(&self) -> Seq<Seq<char>> {
        self.allowed_commands@.map_values(|s: String| s@)
    }

    /// Creates a new executor with the given allowlist.
    pub fn new(allowed_commands: Vec<String>) -> (e: PluginExecutor)
        ensures
            e.allowed() == allowed_commands@.map_values(|s: String| s@),
    {
        PluginExecutor { allowed_commands }
    }

    /// Whether `command` is on the allowlist.
    pub fn is_allowed(&self, command: &str) -> (b: bool)
        ensures
            b == self.allowed().contains(command@),
    {
        let mut i: usize = 0;
        while i < self.allowed_commands.len()
            invariant
                i <= self.allowed_commands@.len(),
                forall|j: int| 0 <= j < i ==> self.allowed_commands@[j]@ != command@,
            decreases self.allowed_commands@.len() - i,
        {
            if crate::text::str_eq(self.allowed_commands[i].as_str(), command) {
                assert(self.allowed()[i as int] == command@);
                return true;
            }
            i = i + 1;
        }
        proof {
            if self.allowed().contains(command@) {
                let k = choose|k: int| 0 <= k < self.allowed().len() && self.allowed()[k] == command@;
                assert(self.allowed_commands@[k]@ == command@);
            }
        }
        false
    }

    /// Substitutes `${param}` placeholders in arguments. User-supplied values
    /// are screened before substitution, so shell scripts written in the
    /// configuration stay allowed while injected metacharacters are refused.
    /// The map's entries are taken in its iteration order.
    pub fn substitute_params(&self, args: &[String], params: &HashMap<String, String>) -> (r: Result<
        Vec<String>,
        String,
    >)
        ensures
            exists|entries: Seq<(String, String)>|
                {
                    &&& #[trigger] lists_entries(params@, entries)
                    &&& (r matches Ok(v) ==> substitution(args@.map_values(|s: String| s@), pair_views(entries))
                        == Ok::<Seq<Seq<char>>, Seq<char>>(v@.map_values(|s: String| s@)))
                    &&& (r matches Err(m) ==> substitution(args@.map_values(|s: String| s@), pair_views(entries))
                        == Err::<Seq<Seq<char>>, Seq<char>>(m@))
                },
    {
        let entries = map_entries(params);
        let r = substitute_params_ordered(args, entries.as_slice());
        assert(lists_entries(params@, entries@));
        r
    }

    /// Validates that an argument doesn't contain dangerous shell characters.
    pub fn validate_argument(&self, arg: &str) -> (r: Result<(), String>)
        ensures
            r matches Ok(_) ==> argument_check(arg@) is Ok,
            r matches Err(m) ==> argument_check(arg@) == Err::<(), Seq<char>>(m@),
    {
        check_argument(arg)
    }
}

/// `stdout` cut to `max` bytes with a note, when it is longer.
pub open spec fn limited_output(stdout: Seq<char>, max: nat) -> Seq<char> {
    if utf8_len(stdout) > max {
        byte_take(stdout, max) + "...\n\n[Output truncated at "@ + crate::text::dec(max)
            + " bytes]"@
    } else {
        stdout
    }
}

/// Truncates command output to `max_output_bytes`, noting the cut (the cut
/// panics unless it lands on a character boundary).
pub fn limit_output(stdout: &str, max_output_bytes: usize) -> (out: String)
    requires
        utf8_len(stdout@) > max_output_bytes ==> is_boundary(stdout@, max_output_bytes as int),
    ensures
        out@ == limited_output(stdout@, max_output_bytes as nat),
{
    let cs = chars_of(stdout);
    if utf8_len_wide(cs.as_slice()) > max_output_bytes as u128 {
        let mut v = byte_prefix(cs.as_slice(), max_output_bytes);
        append_str(&mut v, "...\n\n[Output truncated at ");
        crate::text::append_decimal(&mut v, max_output_bytes as u64);
        append_str(&mut v, " bytes]");
        string_of(v.as_slice())
    } else {
        string_of(cs.as_slice())
    }
}


/// Result of a CLI command execution.
#[derive(Debug, Clone)]
pub struct ExecutionResult {
    /// Whether the command exited successfully
    pub success: bool,
    /// Exit code if available
    pub exit_code: Option<i32>,
    /// Standard output (may be truncated)
    pub stdout: String,
    /// Standard error output
    pub stderr: String,
    /// Whether the command timed out
    pub timed_out: bool,
}

/// Why a command was not run.
#[derive(Debug, Clone)]
pub enum ExecError {
    /// The command is not on the allowlist.
    NotAllowed(String),
    /// A parameter was refused; the message says why.
    InvalidParameter(String),
}

/// The result of a command that finished: its output cut to `max` bytes.
pub fn completed_result(success: bool, exit_code: Option<i32>, stdout: &str, stderr: String, max: usize) -> (r: ExecutionResult)
    requires
        utf8_len(stdout@) > max ==> is_boundary(stdout@, max as int),
    ensures
        r.success == success,
        r.exit_code == exit_code,
        r.stdout@ == limited_output(stdout@, max as nat),
        r.stderr@ == stderr@,
        !r.timed_out,
{
    ExecutionResult { success, exit_code, stdout: limit_output(stdout, max), stderr, timed_out: false }
}

fn timeout_result(prefix: &str, secs: u64) -> (r: ExecutionResult)
    ensures
        !r.success,
        r.exit_code is None,
        r.stdout@.len() == 0,
        r.stderr@ == prefix@ + crate::text::dec(secs as nat) + " seconds"@,
        r.timed_out,
{
    let mut v: Vec<char> = Vec::new();
    append_str(&mut v, prefix);
    crate::text::append_decimal(&mut v, secs);
    append_str(&mut v, " seconds");
    ExecutionResult { success: false, exit_code: None, stdout: String::new(), stderr: string_of(v.as_slice()), timed_out: true }
}

/// The result of a plugin command that ran past its timeout.
pub fn timed_out_result(timeout_seconds: u64) -> (r: ExecutionResult)
    ensures
        !r.success,
        r.exit_code is None,
        r.stdout@.len() == 0,
        r.stderr@ == "Command timed out after "@ + crate::text::dec(timeout_seconds as nat) + " seconds"@,
        r.timed_out,
{
    timeout_result("Command timed out after ", timeout_seconds)
}

/// The result of a chunk transcription that ran past its timeout.
pub fn chunk_timed_out_result(timeout_seconds: u64) -> (r: ExecutionResult)
    ensures
        !r.success,
        r.exit_code is None,
        r.stdout@.len() == 0,
        r.stderr@ == "Chunk transcription timed out after "@ + crate::text::dec(timeout_seconds as nat) + " seconds"@,
        r.timed_out,
{
    timeout_result("Chunk transcription timed out after ", timeout_seconds)
}

/// The error for a command that could not be started.
pub fn spawn_failure_message(chunk: bool, error: &str) -> (m: String)
    ensures
        m@ == (if chunk {
            "Failed to execute chunk command: "@
        } else {
            "Failed to execute command: "@
        }) + error@,
{
    let mut v: Vec<char> = Vec::new();
    if chunk {
        append_str(&mut v, "Failed to execute chunk command: ");
    } else {
        append_str(&mut v, "Failed to execute command: ");
    }
    append_str(&mut v, error);
    string_of(v.as_slice())
}

/// The shell script that transcribes the file at `file` with the Whisper
/// container, used when the chunking configuration gives no arguments.
pub open spec fn whisper_script(file: Seq<char>) -> Seq<char> {
    "TMPDIR=$(mktemp -d)\nERRFILE=$(mktemp)\nif docker run --rm -v \""@ + file
        + ":/data/input.mp3\" -v \"$TMPDIR:/data/output\" whisper-transcribe:latest /data/input.mp3 -m base -f txt -o /data/output >/dev/null 2>\"$ERRFILE\"; then\n    cat \"$TMPDIR\"/*.txt 2>/dev/null || echo \"No transcript generated\"\nelse\n    echo \"Transcription failed:\"\n    cat \"$ERRFILE\"\nfi\nrm -rf \"$TMPDIR\" \"$ERRFILE\""@
}

/// `s` with `${key}` replaced by the value, for each entry in turn.
pub open spec fn replace_params(s: Seq<char>, entries: Seq<(Seq<char>, Seq<char>)>) -> Seq<char>
    decreases entries.len(),
{
    if entries.len() == 0 {
        s
    } else {
        replace_all(
            replace_params(s, entries.drop_last()),
            "${"@ + entries.last().0 + "}"@,
            entries.last().1,
        )
    }
}

/// An argument of a chunk command: `${file}`, then `${output_dir}`, then each
/// parameter replaced.
pub open spec fn file_arg(arg: Seq<char>, file: Seq<char>, output_dir: Seq<char>, entries: Seq<(Seq<char>, Seq<char>)>) -> Seq<char> {
    replace_params(replace_all(replace_all(arg, "${file}"@, file), "${output_dir}"@, output_dir), entries)
}

fn replace_str(s: &[char], p: &str, r: &[char]) -> (out: Vec<char>)
    ensures
        out@ == replace_all(s@, p@, r@),
{
    let pc = chars_of(p);
    replace_chars(s, pc.as_slice(), r)
}

fn substitute_file_arg(arg: &str, file: &[char], output_dir: &[char], entries: &[(String, String)]) -> (out: String)
    ensures
        out@ == file_arg(arg@, file@, output_dir@, pair_views(entries@)),
{
    let a = chars_of(arg);
    let step1 = replace_str(a.as_slice(), "${file}", file);
    let mut cur = replace_str(step1.as_slice(), "${output_dir}", output_dir);
    let ghost base = cur@;
    let ghost ev = pair_views(entries@);
    let mut i: usize = 0;
    assert(ev.take(0) =~= Seq::<(Seq<char>, Seq<char>)>::empty());
    while i < entries.len()
        invariant
            i <= entries@.len(),
            ev == pair_views(entries@),
            ev.len() == entries@.len(),
            cur@ == replace_params(base, ev.take(i as int)),
        decreases entries@.len() - i,
    {
        let mut ph: Vec<char> = Vec::new();
        append_str(&mut ph, "${");
        append_str(&mut ph, entries[i].0.as_str());
        append_str(&mut ph, "}");
        let val = chars_of(entries[i].1.as_str());
        cur = replace_chars(cur.as_slice(), ph.as_slice(), val.as_slice());
        assert(ev.take(i + 1).drop_last() =~= ev.take(i as int));
        assert(ev.take(i + 1).last() == ev[i as int]);
        i = i + 1;
    }
    assert(ev.take(entries@.len() as int) =~= ev);
    string_of(cur.as_slice())
}

impl PluginExecutor {
    /// The arguments to run `config` with: the command must be allowed, then
    /// the parameters are substituted (screened first) in the map's
    /// iteration order.
    pub fn prepare(&self, config: &ExecutionConfig, params: &HashMap<String, String>) -> (r: Result<Vec<String>, ExecError>)
        ensures
            !self.allowed().contains(config.command@) ==> (r matches Err(ExecError::NotAllowed(c)) && c@ == config.command@),
            self.allowed().contains(config.command@) ==> exists|entries: Seq<(String, String)>|
                {
                    &&& #[trigger] lists_entries(params@, entries)
                    &&& (r matches Ok(v) ==> substitution(config.args@.map_values(|s: String| s@), pair_views(entries))
                        == Ok::<Seq<Seq<char>>, Seq<char>>(v@.map_values(|s: String| s@)))
                    &&& (r matches Err(e) ==> e matches ExecError::InvalidParameter(m) && substitution(
                        config.args@.map_values(|s: String| s@),
                        pair_views(entries),
                    ) == Err::<Seq<Seq<char>>, Seq<char>>(m@))
                },
    {
        if !self.is_allowed(config.command.as_str()) {
            return Err(ExecError::NotAllowed(config.command.clone()));
        }
        match self.substitute_params(config.args.as_slice(), params) {
            Ok(v) => Ok(v),
            Err(m) => Err(ExecError::InvalidParameter(m)),
        }
    }

    /// The command and arguments that transcribe one audio file: the
    /// chunking configuration's file command (`sh` by default), which must be
    /// allowed, and its file arguments (the Whisper script by default) with
    /// `${file}`, `${output_dir}` and the parameters, in the map's iteration
    /// order, filled in.
    pub fn prepare_on_file(
        &self,
        chunking_config: &ChunkingConfig,
        file_path: &str,
        output_dir: &str,
        params: &HashMap<String, String>,
    ) -> (r: Result<(String, Vec<String>), ExecError>)
        ensures
            ({
                let command = match chunking_config.file_command {
                    Some(c) => c@,
                    None => "sh"@,
                };
                &&& !self.allowed().contains(command) ==> (r matches Err(ExecError::NotAllowed(c)) && c@ == command)
                &&& self.allowed().contains(command) ==> (r matches Ok((c, args)) && c@ == command && exists|entries: Seq<(String, String)>|
                    {
                        let raw = if chunking_config.file_args@.len() == 0 {
                            seq!["-c"@, whisper_script(file_path@)]
                        } else {
                            chunking_config.file_args@.map_values(|s: String| s@)
                        };
                        &&& #[trigger] lists_entries(params@, entries)
                        &&& args@.len() == raw.len()
                        &&& forall|k: int| 0 <= k < raw.len() ==> (#[trigger] args@[k])@ == file_arg(
                            raw[k],
                            file_path@,
                            output_dir@,
                            pair_views(entries),
                        )
                    })
            }),
    {
        let command: String = match &chunking_config.file_command {
            Some(c) => c.clone(),
            None => "sh".to_owned(),
        };
        if !self.is_allowed(command.as_str()) {
            return Err(ExecError::NotAllowed(command));
        }
        let raw: Vec<String> = if chunking_config.file_args.len() == 0 {
            let mut script: Vec<char> = Vec::new();
            append_str(&mut script, "TMPDIR=$(mktemp -d)\nERRFILE=$(mktemp)\nif docker run --rm -v \"");
            append_str(&mut script, file_path);
            append_str(
                &mut script,
                ":/data/input.mp3\" -v \"$TMPDIR:/data/output\" whisper-transcribe:latest /data/input.mp3 -m base -f txt -o /data/output >/dev/null 2>\"$ERRFILE\"; then\n    cat \"$TMPDIR\"/*.txt 2>/dev/null || echo \"No transcript generated\"\nelse\n    echo \"Transcription failed:\"\n    cat \"$ERRFILE\"\nfi\nrm -rf \"$TMPDIR\" \"$ERRFILE\"",
            );
            let mut v: Vec<String> = Vec::new();
            v.push("-c".to_owned());
            v.push(string_of(script.as_slice()));
            v
        } else {
            let mut v: Vec<String> = Vec::new();
            let mut i: usize = 0;
            while i < chunking_config.file_args.len()
                invariant
                    i <= chunking_config.file_args@.len(),
                    v@.len() == i,
                    forall|k: int| 0 <= k < i ==> (#[trigger] v@[k])@ == chunking_config.file_args@[k]@,
                decreases chunking_config.file_args@.len() - i,
            {
                v.push(chunking_config.file_args[i].clone());
                i = i + 1;
            }
            v
        };
        let ghost rawv = if chunking_config.file_args@.len() == 0 {
            seq!["-c"@, whisper_script(file_path@)]
        } else {
            chunking_config.file_args@.map_values(|s: String| s@)
        };
        assert(raw@.len() == rawv.len());
        assert(forall|k: int| 0 <= k < rawv.len() ==> (#[trigger] raw@[k])@ == rawv[k]);
        let entries = map_entries(params);
        let file = chars_of(file_path);
        let out = chars_of(output_dir);
        let mut args: Vec<String> = Vec::new();
        let mut i: usize = 0;
        while i < raw.len()
            invariant
                i <= raw@.len(),
                raw@.len() == rawv.len(),
                forall|k: int| 0 <= k < rawv.len() ==> (#[trigger] raw@[k])@ == rawv[k],
                file@ == file_path@,
                out@ == output_dir@,
                args@.len() == i,
                forall|k: int| 0 <= k < i ==> (#[trigger] args@[k])@ == file_arg(rawv[k], file_path@, output_dir@, pair_views(entries@)),
            decreases raw@.len() - i,
        {
            let a = substitute_file_arg(raw[i].as_str(), file.as_slice(), out.as_slice(), entries.as_slice());
            args.push(a);
            i = i + 1;
        }
        assert(lists_entries(params@, entries@));
        Ok((command, args))
    }
}

} // verus!
