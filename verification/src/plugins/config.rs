//! Plugin configuration schema, type presets and validation.

use std::collections::HashMap;
use vstd::prelude::*;
use crate::text::{append_str, chars_of, is_lowercase, lowercase_letter, string_of, utf8_len, byte_len};

verus! {

/// Root configuration containing all plugins.
#[derive(Debug, Clone)]
pub struct PluginConfig {
    pub plugins: Vec<Plugin>,
}

/// A single plugin definition.
#[derive(Debug, Clone)]
pub struct Plugin {
    /// Unique plugin identifier
    pub name: String,
    /// Human-readable description
    pub description: String,
    /// Whether the plugin is active
    pub enabled: bool,
    /// Semantic version
    pub version: String,
    /// Slash command definition
    pub command: CommandDefinition,
    /// CLI execution configuration
    pub execution: ExecutionConfig,
    /// Security constraints
    pub security: SecurityConfig,
    /// Output handling configuration
    pub output: OutputConfig,
    /// Playlist-specific configuration (optional)
    pub playlist: Option<PlaylistConfig>,
}

/// Slash command definition.
#[derive(Debug, Clone)]
pub struct CommandDefinition {
    /// Command name (lowercase, no spaces)
    pub name: String,
    /// Command description shown in Discord
    pub description: String,
    /// Command parameters
    pub options: Vec<CommandOption>,
}

/// A single command option/parameter.
#[derive(Debug, Clone)]
pub struct CommandOption {
    /// Option name
    pub name: String,
    /// Option description
    pub description: String,
    /// Option type: string, integer, boolean, user, channel, role
    pub option_type: String,
    /// Whether the option is required
    pub required: bool,
    /// Default value if not provided
    pub default: Option<String>,
    /// Validation rules
    pub validation: Option<ValidationRule>,
    /// Predefined choices
    pub choices: Vec<Choice>,
}

/// Validation rules for an option.
#[derive(Debug, Clone)]
pub struct ValidationRule {
    /// Regex pattern for validation
    pub pattern: Option<String>,
    /// Minimum string length
    pub min_length: Option<usize>,
    /// Maximum string length
    pub max_length: Option<usize>,
    /// Minimum numeric value
    pub min_value: Option<i64>,
    /// Maximum numeric value
    pub max_value: Option<i64>,
}

/// A predefined choice for an option.
#[derive(Debug, Clone)]
pub struct Choice {
    /// Display name
    pub name: String,
    /// Actual value
    pub value: String,
}

/// CLI execution configuration.
#[derive(Debug, Clone)]
pub struct ExecutionConfig {
    /// Base command to execute
    pub command: String,
    /// Command arguments with ${param} placeholders
    pub args: Vec<String>,
    /// Maximum execution time in seconds
    pub timeout_seconds: u64,
    /// Working directory for command
    pub working_directory: Option<String>,
    /// Maximum output size in bytes
    pub max_output_bytes: usize,
    /// Environment variables
    pub env: HashMap<String, String>,
    /// Chunking configuration for long content (optional)
    pub chunking: Option<ChunkingConfig>,
}

/// Configuration for chunked execution of long content.
#[derive(Debug, Clone)]
pub struct ChunkingConfig {
    /// Whether chunking is enabled
    pub enabled: bool,
    /// Duration of each chunk in seconds
    pub chunk_duration_secs: u64,
    /// Timeout for each chunk transcription in seconds
    pub chunk_timeout_secs: u64,
    /// Timeout for audio download in seconds
    pub download_timeout_secs: u64,
    /// Minimum video duration to trigger chunking
    pub min_duration_for_chunking_secs: u64,
    /// Command for transcribing a local audio file (${file}, ${output_dir})
    pub file_command: Option<String>,
    /// Arguments for the file command
    pub file_args: Vec<String>,
    /// Command for downloading audio (${url}, ${output_dir})
    pub download_command: Option<String>,
    /// Arguments for the download command
    pub download_args: Vec<String>,
    /// Whether to post cumulative "story so far" summaries
    pub cumulative_summaries: bool,
    /// Generate a cumulative summary every N chunks
    pub cumulative_summary_interval: u32,
}

impl Default for ChunkingConfig {
    fn default() -> (c: ChunkingConfig)
        ensures
            c.enabled,
            c.chunk_duration_secs == 600,
            c.chunk_timeout_secs == 300,
            c.download_timeout_secs == 300,
            c.min_duration_for_chunking_secs == 600,
            c.file_command is None,
            c.file_args@.len() == 0,
            c.download_command is None,
            c.download_args@.len() == 0,
            !c.cumulative_summaries,
            c.cumulative_summary_interval == 1,
    {
        ChunkingConfig {
            enabled: true,
            chunk_duration_secs: 600,
            chunk_timeout_secs: 300,
            download_timeout_secs: 300,
            min_duration_for_chunking_secs: 600,
            file_command: None,
            file_args: Vec::new(),
            download_command: None,
            download_args: Vec::new(),
            cumulative_summaries: false,
            cumulative_summary_interval: 1,
        }
    }
}

/// Security constraints.
#[derive(Debug, Clone)]
pub struct SecurityConfig {
    /// Role IDs that can use this plugin
    pub allowed_roles: Vec<String>,
    /// User IDs that can use this plugin
    pub allowed_users: Vec<String>,
    /// User IDs blocked from this plugin
    pub blocked_users: Vec<String>,
    /// Per-user cooldown in seconds
    pub cooldown_seconds: u64,
    /// Restrict to guild channels only (no DMs)
    pub guild_only: bool,
}

impl Default for SecurityConfig {
    fn default() -> (c: SecurityConfig)
        ensures
            c.allowed_roles@.len() == 0,
            c.allowed_users@.len() == 0,
            c.blocked_users@.len() == 0,
            c.cooldown_seconds == 0,
            !c.guild_only,
    {
        SecurityConfig {
            allowed_roles: Vec::new(),
            allowed_users: Vec::new(),
            blocked_users: Vec::new(),
            cooldown_seconds: 0,
            guild_only: false,
        }
    }
}

/// Output handling configuration.
#[derive(Debug, Clone)]
pub struct OutputConfig {
    /// Create a thread for output
    pub create_thread: bool,
    /// Thread name template with ${param} placeholders
    pub thread_name_template: Option<String>,
    /// Thread auto-archive duration in minutes
    pub auto_archive_minutes: u64,
    /// Post large output as file attachment
    pub post_as_file: bool,
    /// Filename template with ${param}/${timestamp} placeholders
    pub file_name_template: Option<String>,
    /// Maximum characters before using file (when post_as_file is true)
    pub max_inline_length: usize,
    /// OpenAI prompt for summarization
    pub summary_prompt: Option<String>,
    /// Simpler prompt for per-chunk summaries
    pub chunk_summary_prompt: Option<String>,
    /// Custom error message template with ${error} placeholder
    pub error_template: Option<String>,
    /// Parameter name containing the source URL to post first in thread
    pub source_param: Option<String>,
}

impl Default for OutputConfig {
    /// The all-zero configuration that `#[derive(Default)]` gives.
    fn default() -> (c: OutputConfig)
        ensures
            !c.create_thread,
            c.thread_name_template is None,
            c.auto_archive_minutes == 0,
            !c.post_as_file,
            c.file_name_template is None,
            c.max_inline_length == 0,
            c.summary_prompt is None,
            c.chunk_summary_prompt is None,
            c.error_template is None,
            c.source_param is None,
    {
        OutputConfig {
            create_thread: false,
            thread_name_template: None,
            auto_archive_minutes: 0,
            post_as_file: false,
            file_name_template: None,
            max_inline_length: 0,
            summary_prompt: None,
            chunk_summary_prompt: None,
            error_template: None,
            source_param: None,
        }
    }
}

/// Playlist-specific configuration.
#[derive(Debug, Clone)]
pub struct PlaylistConfig {
    /// Whether playlist support is enabled for this plugin
    pub enabled: bool,
    /// Maximum videos allowed per playlist request (0 = no hard limit)
    pub max_videos_per_request: u32,
    /// Default max videos if not specified by user
    pub default_max_videos: u32,
    /// Soft recommendation for max videos (shown in UI)
    pub recommended_max_videos: u32,
    /// Maximum concurrent playlists per user
    pub concurrent_playlists_per_user: u32,
    /// Cooldown between playlist starts in seconds
    pub cooldown_between_playlists: u64,
    /// Minimum interval between video processing in seconds
    pub min_video_interval_seconds: u64,
}

impl Default for PlaylistConfig {
    fn default() -> (c: PlaylistConfig)
        ensures
            c.enabled,
            c.max_videos_per_request == 0,
            c.default_max_videos == 25,
            c.recommended_max_videos == 50,
            c.concurrent_playlists_per_user == 1,
            c.cooldown_between_playlists == 300,
            c.min_video_interval_seconds == 5,
    {
        PlaylistConfig {
            enabled: true,
            max_videos_per_request: 0,
            default_max_videos: 25,
            recommended_max_videos: 50,
            concurrent_playlists_per_user: 1,
            cooldown_between_playlists: 300,
            min_video_interval_seconds: 5,
        }
    }
}

/// Default for boolean flags that are on unless stated.
pub fn default_true() -> (b: bool)
    ensures
        b,
{
    true
}

/// Default option type.
pub fn default_string() -> (s: String)
    ensures
        s@ == "string"@,
{
    "string".to_owned()
}

/// Default execution timeout: 5 minutes.
pub fn default_timeout() -> (n: u64)
    ensures
        n == 300,
{
    300
}

/// Default output limit: 10 MiB.
pub fn default_max_output() -> (n: usize)
    ensures
        n == 10485760,
{
    10485760
}

/// Default thread auto-archive: 1 hour.
pub fn default_archive() -> (n: u64)
    ensures
        n == 60,
{
    60
}

/// Default inline length before posting as a file.
pub fn default_max_inline() -> (n: usize)
    ensures
        n == 1500,
{
    1500
}

/// Default (and recommended) maximum videos per playlist.
pub fn default_max_videos() -> (n: u32)
    ensures
        n == 50,
{
    50
}

/// Default number of videos taken from a playlist.
pub fn default_default_videos() -> (n: u32)
    ensures
        n == 25,
{
    25
}

/// Default of one.
pub fn default_one() -> (n: u32)
    ensures
        n == 1,
{
    1
}

/// Default interval between playlist videos, in seconds.
pub fn default_interval() -> (n: u64)
    ensures
        n == 5,
{
    5
}

/// Default chunk duration (and chunking threshold): 10 minutes.
pub fn default_chunk_duration() -> (n: u64)
    ensures
        n == 600,
{
    600
}

/// Default chunk transcription timeout: 5 minutes.
pub fn default_chunk_timeout() -> (n: u64)
    ensures
        n == 300,
{
    300
}

/// Default audio download timeout: 5 minutes.
pub fn default_download_timeout() -> (n: u64)
    ensures
        n == 300,
{
    300
}

/// Plugin type preset that provides sensible defaults.
#[derive(Debug, Clone, Copy, PartialEq, Eq, Structural)]
pub enum PluginType {
    Shell,
    Api,
    Docker,
    Virtual,
}

/// Default values derived from plugin type.
pub struct TypeDefaults {
    pub execution_command: &'static str,
    pub timeout_seconds: u64,
    pub max_output_bytes: usize,
    pub create_thread: bool,
    pub max_inline_length: usize,
}

/// The command a plugin type runs by default.
pub open spec fn type_command(t: PluginType) -> Seq<char> {
    match t {
        PluginType::Shell => "sh"@,
        PluginType::Api => "sh"@,
        PluginType::Docker => "docker"@,
        PluginType::Virtual => ""@,
    }
}

/// The default timeout of a plugin type, in seconds.
pub open spec fn type_timeout(t: PluginType) -> u64 {
    match t {
        PluginType::Shell => 30,
        PluginType::Api => 15,
        PluginType::Docker => 600,
        PluginType::Virtual => 5,
    }
}

/// The default output limit of a plugin type, in bytes.
pub open spec fn type_max_output(t: PluginType) -> usize {
    match t {
        PluginType::Shell => 4096,
        PluginType::Api => 4096,
        PluginType::Docker => 10485760,
        PluginType::Virtual => 0,
    }
}

/// Whether a plugin type posts its output in a thread by default.
pub open spec fn type_create_thread(t: PluginType) -> bool {
    t == PluginType::Docker
}

/// The default inline length of a plugin type.
pub open spec fn type_max_inline(t: PluginType) -> usize {
    match t {
        PluginType::Docker => 1500,
        _ => 2000,
    }
}

impl PluginType {
    pub fn defaults(self) -> (d: TypeDefaults)
        ensures
            d.execution_command@ == type_command(self),
            d.timeout_seconds == type_timeout(self),
            d.max_output_bytes == type_max_output(self),
            d.create_thread == type_create_thread(self),
            d.max_inline_length == type_max_inline(self),
    {
        match self {
            PluginType::Shell => TypeDefaults {
                execution_command: "sh",
                timeout_seconds: 30,
                max_output_bytes: 4096,
                create_thread: false,
                max_inline_length: 2000,
            },
            PluginType::Api => TypeDefaults {
                execution_command: "sh",
                timeout_seconds: 15,
                max_output_bytes: 4096,
                create_thread: false,
                max_inline_length: 2000,
            },
            PluginType::Docker => TypeDefaults {
                execution_command: "docker",
                timeout_seconds: 600,
                max_output_bytes: 10485760,
                create_thread: true,
                max_inline_length: 1500,
            },
            PluginType::Virtual => TypeDefaults {
                execution_command: "",
                timeout_seconds: 5,
                max_output_bytes: 0,
                create_thread: false,
                max_inline_length: 2000,
            },
        }
    }
}

/// Raw plugin as read from an individual YAML file (before type-default resolution).
#[derive(Debug, Clone)]
pub struct RawPlugin {
    pub name: String,
    pub description: String,
    pub version: String,
    /// Plugin type preset (shell, api, docker, virtual)
    pub plugin_type: Option<PluginType>,
    pub enabled: bool,
    pub command: Option<RawCommandDefinition>,
    pub execution: Option<RawExecutionConfig>,
    pub security: Option<SecurityConfig>,
    pub output: Option<RawOutputConfig>,
    pub playlist: Option<PlaylistConfig>,
}

/// Command definition with optional name (defaults to plugin name).
#[derive(Debug, Clone)]
pub struct RawCommandDefinition {
    pub name: Option<String>,
    pub description: String,
    pub options: Vec<CommandOption>,
}

/// Execution config with optional fields and script sugar.
#[derive(Debug, Clone)]
pub struct RawExecutionConfig {
    pub command: Option<String>,
    pub args: Option<Vec<String>>,
    /// Sugar: `script: |` becomes `command: "sh"`, `args: ["-c", script]`
    pub script: Option<String>,
    pub timeout_seconds: Option<u64>,
    pub working_directory: Option<String>,
    pub max_output_bytes: Option<usize>,
    pub env: Option<HashMap<String, String>>,
    pub chunking: Option<ChunkingConfig>,
}

/// Output config with optional type-defaulted fields.
#[derive(Debug, Clone)]
pub struct RawOutputConfig {
    pub create_thread: Option<bool>,
    pub thread_name_template: Option<String>,
    pub auto_archive_minutes: Option<u64>,
    pub post_as_file: Option<bool>,
    pub file_name_template: Option<String>,
    pub max_inline_length: Option<usize>,
    pub summary_prompt: Option<String>,
    pub chunk_summary_prompt: Option<String>,
    pub error_template: Option<String>,
    pub source_param: Option<String>,
}

/// The value of a type default, or the fallback when the plugin has no type.
pub open spec fn or_type<T>(t: Option<PluginType>, f: spec_fn(PluginType) -> T, fallback: T) -> T {
    match t {
        Some(t) => f(t),
        None => fallback,
    }
}

/// What `resolve` makes of the execution section.
pub open spec fn resolved_execution(raw: RawPlugin, e: ExecutionConfig) -> bool {
    let t = raw.plugin_type;
    match raw.execution {
        Some(x) => {
            &&& match x.script {
                Some(script) => e.command@ == "sh"@ && e.args@.len() == 2 && e.args@[0]@ == "-c"@
                    && e.args@[1] == script,
                None => {
                    &&& e.command@ == match x.command {
                        Some(c) => c@,
                        None => or_type(t, |p: PluginType| type_command(p), Seq::<char>::empty()),
                    }
                    &&& e.args@ == match x.args {
                        Some(a) => a@,
                        None => Seq::<String>::empty(),
                    }
                },
            }
            &&& e.timeout_seconds == match x.timeout_seconds {
                Some(v) => v,
                None => or_type(t, |p: PluginType| type_timeout(p), 300u64),
            }
            &&& e.working_directory == x.working_directory
            &&& e.max_output_bytes == match x.max_output_bytes {
                Some(v) => v,
                None => or_type(t, |p: PluginType| type_max_output(p), 10485760usize),
            }
            &&& e.env@ == match x.env {
                Some(m) => m@,
                None => Map::<String, String>::empty(),
            }
            &&& e.chunking == x.chunking
        },
        None => {
            &&& e.command@ == or_type(t, |p: PluginType| type_command(p), Seq::<char>::empty())
            &&& e.args@.len() == 0
            &&& e.timeout_seconds == or_type(t, |p: PluginType| type_timeout(p), 300u64)
            &&& e.working_directory is None
            &&& e.max_output_bytes == or_type(t, |p: PluginType| type_max_output(p), 10485760usize)
            &&& e.env@ == Map::<String, String>::empty()
            &&& e.chunking is None
        },
    }
}

/// What `resolve` makes of the output section; without one, the defaults of
/// an empty section apply.
pub open spec fn resolved_output(raw: RawPlugin, o: OutputConfig) -> bool {
    let t = raw.plugin_type;
    match raw.output {
        Some(x) => {
            &&& o.create_thread == match x.create_thread {
                Some(v) => v,
                None => or_type(t, |p: PluginType| type_create_thread(p), false),
            }
            &&& o.max_inline_length == match x.max_inline_length {
                Some(v) => v,
                None => or_type(t, |p: PluginType| type_max_inline(p), 1500usize),
            }
            &&& o.thread_name_template == x.thread_name_template
            &&& o.auto_archive_minutes == match x.auto_archive_minutes {
                Some(v) => v,
                None => 60u64,
            }
            &&& o.post_as_file == match x.post_as_file {
                Some(v) => v,
                None => false,
            }
            &&& o.file_name_template == x.file_name_template
            &&& o.summary_prompt == x.summary_prompt
            &&& o.chunk_summary_prompt == x.chunk_summary_prompt
            &&& o.error_template == x.error_template
            &&& o.source_param == x.source_param
        },
        None => {
            &&& o.create_thread == or_type(t, |p: PluginType| type_create_thread(p), false)
            &&& o.max_inline_length == or_type(t, |p: PluginType| type_max_inline(p), 1500usize)
            &&& o.thread_name_template is None
            &&& o.auto_archive_minutes == 60
            &&& !o.post_as_file
            &&& o.file_name_template is None
            &&& o.summary_prompt is None
            &&& o.chunk_summary_prompt is None
            &&& o.error_template is None
            &&& o.source_param is None
        },
    }
}

fn string_from_static(s: &'static str) -> (r: String)
    ensures
        r@ == s@,
{
    s.to_owned()
}

impl RawPlugin {
    /// Resolves a RawPlugin into a fully-populated Plugin by merging type defaults.
    pub fn resolve(self) -> (p: Plugin)
        ensures
            p.name == self.name,
            p.description == self.description,
            p.enabled == self.enabled,
            p.version == self.version,
            p.command.name@ == match self.command {
                Some(c) => match c.name {
                    Some(n) => n@,
                    None => self.name@,
                },
                None => self.name@,
            },
            p.command.description@ == match self.command {
                Some(c) => c.description@,
                None => self.description@,
            },
            p.command.options@ == match self.command {
                Some(c) => c.options@,
                None => Seq::<CommandOption>::empty(),
            },
            resolved_execution(self, p.execution),
            self.security matches Some(s) ==> p.security == s,
            self.security is None ==> p.security.allowed_roles@.len() == 0
                && p.security.allowed_users@.len() == 0 && p.security.blocked_users@.len() == 0
                && p.security.cooldown_seconds == 0 && !p.security.guild_only,
            resolved_output(self, p.output),
            p.playlist == self.playlist,
    {
        let ghost raw = self;
        let td: Option<TypeDefaults> = match self.plugin_type {
            Some(t) => Some(t.defaults()),
            None => None,
        };
        let command = match self.command {
            Some(raw_cmd) => CommandDefinition {
                name: match raw_cmd.name {
                    Some(n) => n,
                    None => self.name.clone(),
                },
                description: raw_cmd.description,
                options: raw_cmd.options,
            },
            None => CommandDefinition {
                name: self.name.clone(),
                description: self.description.clone(),
                options: Vec::new(),
            },
        };
        let execution = match self.execution {
            Some(raw_exec) => {
                let (cmd, args) = match raw_exec.script {
                    Some(script) => {
                        let mut a: Vec<String> = Vec::new();
                        a.push(string_from_static("-c"));
                        a.push(script);
                        (string_from_static("sh"), a)
                    },
                    None => {
                        let cmd = match raw_exec.command {
                            Some(c) => c,
                            None => match &td {
                                Some(d) => string_from_static(d.execution_command),
                                None => String::new(),
                            },
                        };
                        let args = match raw_exec.args {
                            Some(a) => a,
                            None => Vec::new(),
                        };
                        (cmd, args)
                    },
                };
                ExecutionConfig {
                    command: cmd,
                    args,
                    timeout_seconds: match raw_exec.timeout_seconds {
                        Some(v) => v,
                        None => match &td {
                            Some(d) => d.timeout_seconds,
                            None => 300,
                        },
                    },
                    working_directory: raw_exec.working_directory,
                    max_output_bytes: match raw_exec.max_output_bytes {
                        Some(v) => v,
                        None => match &td {
                            Some(d) => d.max_output_bytes,
                            None => 10485760,
                        },
                    },
                    env: match raw_exec.env {
                        Some(m) => m,
                        None => HashMap::new(),
                    },
                    chunking: raw_exec.chunking,
                }
            },
            None => ExecutionConfig {
                command: match &td {
                    Some(d) => string_from_static(d.execution_command),
                    None => String::new(),
                },
                args: Vec::new(),
                timeout_seconds: match &td {
                    Some(d) => d.timeout_seconds,
                    None => 300,
                },
                working_directory: None,
                max_output_bytes: match &td {
                    Some(d) => d.max_output_bytes,
                    None => 10485760,
                },
                env: HashMap::new(),
                chunking: None,
            },
        };
        let output = match self.output {
            Some(raw_out) => OutputConfig {
                create_thread: match raw_out.create_thread {
                    Some(v) => v,
                    None => match &td {
                        Some(d) => d.create_thread,
                        None => false,
                    },
                },
                max_inline_length: match raw_out.max_inline_length {
                    Some(v) => v,
                    None => match &td {
                        Some(d) => d.max_inline_length,
                        None => 1500,
                    },
                },
                thread_name_template: raw_out.thread_name_template,
                auto_archive_minutes: match raw_out.auto_archive_minutes {
                    Some(v) => v,
                    None => 60,
                },
                post_as_file: match raw_out.post_as_file {
                    Some(v) => v,
                    None => false,
                },
                file_name_template: raw_out.file_name_template,
                summary_prompt: raw_out.summary_prompt,
                chunk_summary_prompt: raw_out.chunk_summary_prompt,
                error_template: raw_out.error_template,
                source_param: raw_out.source_param,
            },
            None => {
                let mut out = OutputConfig::default();
                out.auto_archive_minutes = 60;
                match &td {
                    Some(d) => {
                        out.create_thread = d.create_thread;
                        out.max_inline_length = d.max_inline_length;
                    },
                    None => {
                        out.max_inline_length = 1500;
                    },
                }
                out
            },
        };
        let security = match self.security {
            Some(s) => s,
            None => SecurityConfig::default(),
        };
        Plugin {
            name: self.name,
            description: self.description,
            enabled: self.enabled,
            version: self.version,
            command,
            execution,
            security,
            output,
            playlist: self.playlist,
        }
    }
}

/// The error text that compiling `pattern` with the `regex` crate reports, or
/// `None` when it compiles.
pub uninterp spec fn regex_compile_error(pattern: Seq<char>) -> Option<Seq<char>>;

/// `regex::Regex::new(pattern)`: `Ok` exactly when the pattern compiles, with
/// the error's display text otherwise. Which patterns compile is the `regex`
/// crate's own grammar, named by `regex_compile_error` and not restated here.
#[verifier::external_body]
fn compile_regex(pattern: &str) -> (r: Result<(), String>)
    ensures
        r matches Ok(_) ==> regex_compile_error(pattern@) is None,
        r matches Err(m) ==> regex_compile_error(pattern@) == Some(m@),
{
    match regex::Regex::new(pattern) {
        Ok(_) => Ok(()),
        Err(e) => Err(e.to_string()),
    }
}

/// Why a plugin configuration was refused.
#[derive(Debug, Clone)]
pub enum ConfigError {
    /// A command name holds a character that is neither lower-case nor `_`.
    CommandNameNotLowercase(String),
    /// A command name is longer than 32 bytes.
    CommandNameTooLong(String),
    /// A command description is longer than 100 bytes (carries the plugin name).
    DescriptionTooLong(String),
    /// An option's validation pattern does not compile.
    InvalidRegex { option: String, plugin: String, error: String },
    /// An option name holds a character that is neither lower-case nor `_`.
    OptionNameNotLowercase { option: String, plugin: String },
}

/// Every character of `name` is lower-case or `_`.
pub open spec fn lowercase_name(name: Seq<char>) -> bool {
    forall|i: int| 0 <= i < name.len() ==> lowercase_letter(#[trigger] name[i]) || name[i] == '_'
}

fn is_lowercase_name(name: &str) -> (b: bool)
    ensures
        b == lowercase_name(name@),
{
    let cs = chars_of(name);
    let mut i: usize = 0;
    while i < cs.len()
        invariant
            cs@ == name@,
            i <= cs@.len(),
            forall|j: int| 0 <= j < i ==> lowercase_letter(#[trigger] cs@[j]) || cs@[j] == '_',
        decreases cs@.len() - i,
    {
        if !(is_lowercase(cs[i]) || cs[i] == '_') {
            return false;
        }
        i = i + 1;
    }
    true
}

/// The abstract form of a `ConfigError`.
pub ghost enum ConfigFault {
    CommandNameNotLowercase(Seq<char>),
    CommandNameTooLong(Seq<char>),
    DescriptionTooLong(Seq<char>),
    InvalidRegex { option: Seq<char>, plugin: Seq<char>, error: Seq<char> },
    OptionNameNotLowercase { option: Seq<char>, plugin: Seq<char> },
}

impl View for ConfigError {
    type V = ConfigFault;

    open spec fn view(&self) -> ConfigFault {
        match self {
            ConfigError::CommandNameNotLowercase(n) => ConfigFault::CommandNameNotLowercase(n@),
            ConfigError::CommandNameTooLong(n) => ConfigFault::CommandNameTooLong(n@),
            ConfigError::DescriptionTooLong(n) => ConfigFault::DescriptionTooLong(n@),
            ConfigError::InvalidRegex { option, plugin, error } => ConfigFault::InvalidRegex {
                option: option@,
                plugin: plugin@,
                error: error@,
            },
            ConfigError::OptionNameNotLowercase { option, plugin } =>
                ConfigFault::OptionNameNotLowercase { option: option@, plugin: plugin@ },
        }
    }
}

/// The message each refusal carries.
pub open spec fn config_error_text(f: ConfigFault) -> Seq<char> {
    match f {
        ConfigFault::CommandNameNotLowercase(n) => "Command name must be lowercase: "@ + n,
        ConfigFault::CommandNameTooLong(n) => "Command name too long (max 32 chars): "@ + n,
        ConfigFault::DescriptionTooLong(p) => "Command description too long (max 100 chars): "@ + p,
        ConfigFault::InvalidRegex { option, plugin, error } => "Invalid regex pattern for option '"@
            + option + "' in plugin '"@ + plugin + "': "@ + error,
        ConfigFault::OptionNameNotLowercase { option, plugin } => "Option name must be lowercase: "@
            + option + " in plugin "@ + plugin,
    }
}

impl ConfigError {
    /// The human-readable description of the refusal.
    pub fn message(&self) -> (s: String)
        ensures
            s@ == config_error_text(self@),
    {
        let mut v: Vec<char> = Vec::new();
        match self {
            ConfigError::CommandNameNotLowercase(n) => {
                append_str(&mut v, "Command name must be lowercase: ");
                append_str(&mut v, n.as_str());
            },
            ConfigError::CommandNameTooLong(n) => {
                append_str(&mut v, "Command name too long (max 32 chars): ");
                append_str(&mut v, n.as_str());
            },
            ConfigError::DescriptionTooLong(p) => {
                append_str(&mut v, "Command description too long (max 100 chars): ");
                append_str(&mut v, p.as_str());
            },
            ConfigError::InvalidRegex { option, plugin, error } => {
                append_str(&mut v, "Invalid regex pattern for option '");
                append_str(&mut v, option.as_str());
                append_str(&mut v, "' in plugin '");
                append_str(&mut v, plugin.as_str());
                append_str(&mut v, "': ");
                append_str(&mut v, error.as_str());
            },
            ConfigError::OptionNameNotLowercase { option, plugin } => {
                append_str(&mut v, "Option name must be lowercase: ");
                append_str(&mut v, option.as_str());
                append_str(&mut v, " in plugin ");
                append_str(&mut v, plugin.as_str());
            },
        }
        string_of(v.as_slice())
    }
}

/// The regex compile error of an option's pattern, if it has one that fails.
pub open spec fn option_regex_error(opt: CommandOption) -> Option<Seq<char>> {
    match opt.validation {
        Some(v) => match v.pattern {
            Some(pat) => regex_compile_error(pat@),
            None => None,
        },
        None => None,
    }
}

/// The first problem with the options `opts` of the plugin named `plugin`.
pub open spec fn option_fault(plugin: Seq<char>, opts: Seq<CommandOption>) -> Option<ConfigFault>
    decreases opts.len(),
{
    if opts.len() == 0 {
        None
    } else {
        let opt = opts[0];
        match option_regex_error(opt) {
            Some(m) => Some(ConfigFault::InvalidRegex { option: opt.name@, plugin, error: m }),
            None => if !lowercase_name(opt.name@) {
                Some(ConfigFault::OptionNameNotLowercase { option: opt.name@, plugin })
            } else {
                option_fault(plugin, opts.drop_first())
            },
        }
    }
}

/// The first problem with plugin `p`, checked in the order `validate` checks.
pub open spec fn plugin_fault(p: Plugin) -> Option<ConfigFault> {
    if !lowercase_name(p.command.name@) {
        Some(ConfigFault::CommandNameNotLowercase(p.command.name@))
    } else if utf8_len(p.command.name@) > 32 {
        Some(ConfigFault::CommandNameTooLong(p.command.name@))
    } else if utf8_len(p.command.description@) > 100 {
        Some(ConfigFault::DescriptionTooLong(p.name@))
    } else {
        option_fault(p.name@, p.command.options@)
    }
}

/// The first problem with any of `ps`.
pub open spec fn config_fault(ps: Seq<Plugin>) -> Option<ConfigFault>
    decreases ps.len(),
{
    if ps.len() == 0 {
        None
    } else {
        match plugin_fault(ps[0]) {
            Some(f) => Some(f),
            None => config_fault(ps.drop_first()),
        }
    }
}

fn check_options(plugin: &Plugin) -> (r: Result<(), ConfigError>)
    ensures
        r matches Ok(_) ==> option_fault(plugin.name@, plugin.command.options@) is None,
        r matches Err(e) ==> option_fault(plugin.name@, plugin.command.options@) == Some(e@),
{
    let opts = &plugin.command.options;
    let mut i: usize = 0;
    assert(opts@.skip(0) =~= opts@);
    while i < opts.len()
        invariant
            i <= opts@.len(),
            option_fault(plugin.name@, plugin.command.options@) == option_fault(
                plugin.name@,
                opts@.skip(i as int),
            ),
            opts@ == plugin.command.options@,
        decreases opts@.len() - i,
    {
        let opt = &opts[i];
        assert(opts@.skip(i as int)[0] == opts@[i as int]);
        assert(opts@.skip(i as int).drop_first() =~= opts@.skip(i + 1));
        match &opt.validation {
            Some(v) => match &v.pattern {
                Some(pat) => match compile_regex(pat.as_str()) {
                    Ok(_) => {},
                    Err(m) => {
                        return Err(ConfigError::InvalidRegex {
                            option: opt.name.clone(),
                            plugin: plugin.name.clone(),
                            error: m,
                        });
                    },
                },
                None => {},
            },
            None => {},
        }
        if !is_lowercase_name(opt.name.as_str()) {
            return Err(ConfigError::OptionNameNotLowercase {
                option: opt.name.clone(),
                plugin: plugin.name.clone(),
            });
        }
        i = i + 1;
    }
    Ok(())
}

impl PluginConfig {
    /// Creates an empty configuration.
    pub fn empty() -> (c: PluginConfig)
        ensures
            c.plugins@.len() == 0,
    {
        PluginConfig { plugins: Vec::new() }
    }

    /// Validates all plugins: command and option names lower-case (or `_`),
    /// command names at most 32 bytes, descriptions at most 100 bytes, and
    /// validation patterns that compile. The first problem found is returned.
    pub fn validate(&self) -> (r: Result<(), ConfigError>)
        ensures
            r is Ok <==> config_fault(self.plugins@) is None,
            r matches Err(e) ==> config_fault(self.plugins@) == Some(e@),
    {
        let ps = &self.plugins;
        let mut i: usize = 0;
        assert(ps@.skip(0) =~= ps@);
        while i < ps.len()
            invariant
                i <= ps@.len(),
                config_fault(self.plugins@) == config_fault(ps@.skip(i as int)),
                ps@ == self.plugins@,
            decreases ps@.len() - i,
        {
            let plugin = &ps[i];
            assert(ps@.skip(i as int)[0] == ps@[i as int]);
            assert(ps@.skip(i as int).drop_first() =~= ps@.skip(i + 1));
            if !is_lowercase_name(plugin.command.name.as_str()) {
                return Err(ConfigError::CommandNameNotLowercase(plugin.command.name.clone()));
            }
            if byte_len(plugin.command.name.as_str()) > 32 {
                return Err(ConfigError::CommandNameTooLong(plugin.command.name.clone()));
            }
            if byte_len(plugin.command.description.as_str()) > 100 {
                return Err(ConfigError::DescriptionTooLong(plugin.name.clone()));
            }
            match check_options(plugin) {
                Ok(_) => {},
                Err(e) => {
                    return Err(e);
                },
            }
            i = i + 1;
        }
        assert(ps@.skip(i as int) =~= Seq::<Plugin>::empty());
        Ok(())
    }
}

impl Plugin {
    /// Whether this plugin is "virtual" (handled internally, no CLI execution).
    pub fn is_virtual(&self) -> (b: bool)
        ensures
            b == (self.execution.command@.len() == 0),
    {
        self.execution.command.as_str().is_empty()
    }
}

} // verus!
