//! Declarative configuration for a logging pipeline.
//!
//! A small set of user-facing options (output format, output sink, verbosity
//! filter) is resolved into the pieces of a live pipeline: a renderer that
//! turns structured events into text, a time source, and a sink that accepts
//! the rendered bytes, optionally behind a bounded delivery queue serviced by
//! a background worker.

pub mod text;
pub mod queue;
pub mod render;
pub mod sink;
pub mod rolling;
pub mod timefmt;

use vstd::prelude::*;
use vstd::string::StrSliceExecFns;
use vstd::string::StringExecFns;

verus! {

/// A verbosity level, ordered from completely silent to most verbose.
#[derive(Debug, Clone, Copy, PartialEq, Eq, Structural)]
pub enum Level {
    Off,
    Error,
    Warn,
    Info,
    Debug,
    Trace,
}

/// The canonical lower-case name of each level.
pub open spec fn spec_level_str(l: Level) -> Seq<char> {
    match l {
        Level::Off => "off"@,
        Level::Error => "error"@,
        Level::Warn => "warn"@,
        Level::Info => "info"@,
        Level::Debug => "debug"@,
        Level::Trace => "trace"@,
    }
}

/// Which level, if any, a name denotes.
pub open spec fn spec_parse_level(s: Seq<char>) -> Option<Level> {
    if s == "off"@ {
        Some(Level::Off)
    } else if s == "error"@ {
        Some(Level::Error)
    } else if s == "warn"@ {
        Some(Level::Warn)
    } else if s == "info"@ {
        Some(Level::Info)
    } else if s == "debug"@ {
        Some(Level::Debug)
    } else if s == "trace"@ {
        Some(Level::Trace)
    } else {
        None
    }
}

/// An attempted parse named something other than the enumerated options.
#[derive(Debug, Clone, Copy)]
pub struct ParseError {
    pub expected: &'static str,
}

impl ParseError {
    /// A human-readable description of the failure.
    pub fn message(&self) -> (r: String)
        ensures
            r@ == "expected "@ + self.expected@,
    {
        let mut s = String::from_str("expected ");
        s.append(self.expected);
        s
    }
}

/// Relies on str's PartialEq impl: true exactly when the two strings hold the
/// same characters.
#[verifier::external_body]
pub(crate) fn str_eq(a: &str, b: &str) -> (r: bool)
    ensures
        r == (a@ == b@),
{
    a == b
}

impl Level {
    /// The canonical name of this level.
    pub fn as_str(&self) -> (r: &'static str)
        ensures
            r@ == spec_level_str(*self),
    {
        match self {
            Level::Off => "off",
            Level::Error => "error",
            Level::Warn => "warn",
            Level::Info => "info",
            Level::Debug => "debug",
            Level::Trace => "trace",
        }
    }

    /// Parse a level from its canonical name; any other string is rejected.
    pub fn from_str(s: &str) -> (r: Result<Level, ParseError>)
        ensures
            match r {
                Ok(l) => spec_parse_level(s@) == Some(l),
                Err(e) => spec_parse_level(s@) is None && e.expected@ == "<off|error|warn|info|debug|trace>"@,
            },
    {
        if str_eq(s, "off") {
            Ok(Level::Off)
        } else if str_eq(s, "error") {
            Ok(Level::Error)
        } else if str_eq(s, "warn") {
            Ok(Level::Warn)
        } else if str_eq(s, "info") {
            Ok(Level::Info)
        } else if str_eq(s, "debug") {
            Ok(Level::Debug)
        } else if str_eq(s, "trace") {
            Ok(Level::Trace)
        } else {
            Err(ParseError { expected: "<off|error|warn|info|debug|trace>" })
        }
    }
}

impl Default for Level {
    fn default() -> (r: Self)
        ensures
            r == Level::Info,
    {
        Level::Info
    }
}

/// True when `p` is a prefix of `s`.
pub open spec fn spec_has_prefix(s: Seq<char>, p: Seq<char>) -> bool {
    s.len() >= p.len() && s.subrange(0, p.len() as int) == p
}

/// When `p` is a prefix of `s`, the remainder of `s` after it.
fn strip_prefix(s: &str, p: &str) -> (r: Option<String>)
    ensures
        match r {
            Some(rest) => spec_has_prefix(s@, p@) && rest@ == s@.skip(p@.len() as int),
            None => !spec_has_prefix(s@, p@),
        },
{
    let sl = s.unicode_len();
    let pl = p.unicode_len();
    if sl >= pl {
        let head = s.substring_char(0, pl);
        if str_eq(head, p) {
            let rest = s.substring_char(pl, sl);
            Some(rest.to_owned())
        } else {
            None
        }
    } else {
        None
    }
}

/// A verbosity threshold for a group of targets.
#[derive(Debug, Clone, Copy, PartialEq, Eq, Structural)]
pub enum LevelFilter {
    Off,
    Error,
    Warn,
    Info,
    Debug,
    Trace,
}

/// A list of target prefixes, each with the most verbose level it admits.
#[derive(Debug, Clone, PartialEq, Eq)]
pub struct Targets(pub Vec<(String, LevelFilter)>);

/// The specific output layout.
#[derive(Debug, Hash, Clone, PartialEq, Eq, PartialOrd, Ord)]
pub enum Formatter {
    /// A line per event, with every enabled piece of metadata.
    Full,
    /// A line per event, with terser separators and no level padding.
    Compact,
    /// A multi-line, human-oriented rendering.
    Pretty,
    /// One self-contained structured record per event.
    Json(Option<Json>),
}

/// Options of the structured layout.
#[derive(Debug, Hash, Clone, PartialEq, Eq, PartialOrd, Ord)]
pub struct Json {
    /// Merge the event's own fields into the top level of the record.
    pub flatten_event: Option<bool>,
    /// Embed the fields of the enclosing span.
    pub current_span: Option<bool>,
    /// Embed the whole span ancestry as an ordered list.
    pub span_list: Option<bool>,
}

impl Default for Json {
    fn default() -> (r: Self)
        ensures
            r.flatten_event is None && r.current_span is None && r.span_list is None,
    {
        Json { flatten_event: None, current_span: None, span_list: None }
    }
}

impl Default for Formatter {
    fn default() -> (r: Self)
        ensures
            r == Formatter::Full,
    {
        Formatter::Full
    }
}

/// Which layout, if any, a name denotes.
pub open spec fn spec_parse_formatter(s: Seq<char>) -> Option<Formatter> {
    if s == "full"@ {
        Some(Formatter::Full)
    } else if s == "compact"@ {
        Some(Formatter::Compact)
    } else if s == "pretty"@ {
        Some(Formatter::Pretty)
    } else if s == "json"@ {
        Some(Formatter::Json(None))
    } else {
        None
    }
}

impl Formatter {
    /// Parse a layout from its name; any other string is rejected.
    pub fn from_str(s: &str) -> (r: Result<Formatter, ParseError>)
        ensures
            match r {
                Ok(f) => spec_parse_formatter(s@) == Some(f),
                Err(e) => spec_parse_formatter(s@) is None && e.expected@ == "<full|compact|pretty|json>"@,
            },
    {
        if str_eq(s, "full") {
            Ok(Formatter::Full)
        } else if str_eq(s, "compact") {
            Ok(Formatter::Compact)
        } else if str_eq(s, "pretty") {
            Ok(Formatter::Pretty)
        } else if str_eq(s, "json") {
            Ok(Formatter::Json(None))
        } else {
            Err(ParseError { expected: "<full|compact|pretty|json>" })
        }
    }
}

/// Options of the renderer: the inclusion toggles (each absent option
/// takes its default at resolution), the layout, and the timer.
#[derive(Debug, Hash, Clone, PartialEq, Eq, PartialOrd, Ord)]
pub struct Format {
    /// Colorize the level for terminals.
    pub ansi: Option<bool>,
    /// Show the emitting target.
    pub target: Option<bool>,
    /// Show the severity level.
    pub level: Option<bool>,
    /// Show the OS thread id.
    pub thread_ids: Option<bool>,
    /// Show the thread name.
    pub thread_names: Option<bool>,
    /// Show the source file of the call site.
    pub file: Option<bool>,
    /// Show the source line of the call site.
    pub line_number: Option<bool>,
    /// The specific output layout.
    pub formatter: Option<Formatter>,
    /// What timing information to include.
    pub timer: Option<Timer>,
}

impl Default for Format {
    fn default() -> (r: Self)
        ensures
            r.ansi is None && r.target is None && r.level is None && r.thread_ids is None
                && r.thread_names is None && r.file is None && r.line_number is None && r.formatter
                is None && r.timer is None,
    {
        Format {
            ansi: None,
            target: None,
            level: None,
            thread_ids: None,
            thread_names: None,
            file: None,
            line_number: None,
            formatter: None,
            timer: None,
        }
    }
}

/// What timing information to attach to each event.
#[derive(Debug, Hash, Clone, PartialEq, Eq, PartialOrd, Ord)]
pub enum Timer {
    /// No timestamp at all.
    Disabled,
    /// Local civil time, with an optional custom pattern.
    Local(Option<String>),
    /// Coordinated universal time, with an optional custom pattern.
    Utc(Option<String>),
    /// Wall-clock time in a fixed format.
    System,
    /// Time elapsed since the pipeline was assembled.
    Uptime,
}

impl Default for Timer {
    fn default() -> (r: Self)
        ensures
            r == Timer::System,
    {
        Timer::System
    }
}

impl Timer {
    /// Parse a timer from one of the forms
    /// `none | local[=PATTERN] | utc[=PATTERN] | system | uptime`.
    pub fn from_str(s: &str) -> (r: Result<Timer, ParseError>)
        ensures
            match r {
                Ok(Timer::Disabled) => s@ == "none"@,
                Ok(Timer::Local(Some(p))) => spec_has_prefix(s@, "local="@) && p@ == s@.skip("local="@.len() as int),
                Ok(Timer::Local(None)) => s@ == "local"@ && !spec_has_prefix(s@, "local="@),
                Ok(Timer::Utc(Some(p))) => spec_has_prefix(s@, "utc="@) && p@ == s@.skip("utc="@.len() as int),
                Ok(Timer::Utc(None)) => s@ == "utc"@ && !spec_has_prefix(s@, "utc="@),
                Ok(Timer::System) => s@ == "system"@,
                Ok(Timer::Uptime) => s@ == "uptime"@,
                Err(e) => s@ != "none"@ && !spec_has_prefix(s@, "local="@) && s@ != "local"@
                    && !spec_has_prefix(s@, "utc="@) && s@ != "utc"@ && s@ != "system"@
                    && s@ != "uptime"@
                    && e.expected@ == "<none | local[=FORMAT] | utc[=FORMAT] | system | uptime>"@,
            },
    {
        if str_eq(s, "none") {
            Ok(Timer::Disabled)
        } else if let Some(p) = strip_prefix(s, "local=") {
            proof {
                reveal_strlit("local");
                reveal_strlit("local=");
            }
            Ok(Timer::Local(Some(p)))
        } else if str_eq(s, "local") {
            proof {
                reveal_strlit("local");
                reveal_strlit("local=");
            }
            Ok(Timer::Local(None))
        } else if let Some(p) = strip_prefix(s, "utc=") {
            proof {
                reveal_strlit("utc");
                reveal_strlit("utc=");
            }
            Ok(Timer::Utc(Some(p)))
        } else if str_eq(s, "utc") {
            proof {
                reveal_strlit("utc");
                reveal_strlit("utc=");
            }
            Ok(Timer::Utc(None))
        } else if str_eq(s, "system") {
            Ok(Timer::System)
        } else if str_eq(s, "uptime") {
            Ok(Timer::Uptime)
        } else {
            Err(ParseError { expected: "<none | local[=FORMAT] | utc[=FORMAT] | system | uptime>" })
        }
    }
}

/// How often the rotating file set moves to a fresh file.
#[derive(Debug, Hash, Clone, Copy, PartialEq, Eq, PartialOrd, Ord, Structural)]
pub enum Rotation {
    Minutely,
    Hourly,
    Daily,
    Never,
}

impl Default for Rotation {
    fn default() -> (r: Self)
        ensures
            r == Rotation::Never,
    {
        Rotation::Never
    }
}

/// The canonical lower-case name of each rotation policy.
pub open spec fn spec_rotation_str(r: Rotation) -> Seq<char> {
    match r {
        Rotation::Minutely => "minutely"@,
        Rotation::Hourly => "hourly"@,
        Rotation::Daily => "daily"@,
        Rotation::Never => "never"@,
    }
}

/// Which rotation policy, if any, a name denotes.
pub open spec fn spec_parse_rotation(s: Seq<char>) -> Option<Rotation> {
    if s == "minutely"@ {
        Some(Rotation::Minutely)
    } else if s == "hourly"@ {
        Some(Rotation::Hourly)
    } else if s == "daily"@ {
        Some(Rotation::Daily)
    } else if s == "never"@ {
        Some(Rotation::Never)
    } else {
        None
    }
}

impl Rotation {
    /// The canonical name of this rotation policy.
    pub fn as_str(&self) -> (r: &'static str)
        ensures
            r@ == spec_rotation_str(*self),
    {
        match self {
            Rotation::Minutely => "minutely",
            Rotation::Hourly => "hourly",
            Rotation::Daily => "daily",
            Rotation::Never => "never",
        }
    }

    /// Parse a rotation policy from its name; any other string is rejected.
    pub fn from_str(s: &str) -> (r: Result<Rotation, ParseError>)
        ensures
            match r {
                Ok(rot) => spec_parse_rotation(s@) == Some(rot),
                Err(e) => spec_parse_rotation(s@) is None && e.expected@ == "<minutely|hourly|daily|never>"@,
            },
    {
        if str_eq(s, "minutely") {
            Ok(Rotation::Minutely)
        } else if str_eq(s, "hourly") {
            Ok(Rotation::Hourly)
        } else if str_eq(s, "daily") {
            Ok(Rotation::Daily)
        } else if str_eq(s, "never") {
            Ok(Rotation::Never)
        } else {
            Err(ParseError { expected: "<minutely|hourly|daily|never>" })
        }
    }
}

/// What a full delivery queue does with a new record.
#[derive(Debug, Hash, Clone, Copy, PartialEq, Eq, PartialOrd, Ord, Structural)]
pub enum BackpressureBehaviour {
    /// Discard the new record and count it.
    Drop,
    /// Suspend the producer until space is available.
    Block,
}

impl BackpressureBehaviour {
    /// The canonical name of this behaviour.
    pub fn as_str(&self) -> (r: &'static str)
        ensures
            (*self == BackpressureBehaviour::Drop ==> r@ == "drop"@)
                && (*self == BackpressureBehaviour::Block ==> r@ == "block"@),
    {
        match self {
            BackpressureBehaviour::Drop => "drop",
            BackpressureBehaviour::Block => "block",
        }
    }

    /// Parse a behaviour from its name; any other string is rejected.
    pub fn from_str(s: &str) -> (r: Result<BackpressureBehaviour, ParseError>)
        ensures
            match r {
                Ok(BackpressureBehaviour::Drop) => s@ == "drop"@,
                Ok(BackpressureBehaviour::Block) => s@ == "block"@,
                Err(e) => s@ != "drop"@ && s@ != "block"@ && e.expected@ == "<drop|block>"@,
            },
    {
        if str_eq(s, "drop") {
            Ok(BackpressureBehaviour::Drop)
        } else if str_eq(s, "block") {
            Ok(BackpressureBehaviour::Block)
        } else {
            Err(ParseError { expected: "<drop|block>" })
        }
    }
}

/// How a newly opened log file treats existing contents.
#[derive(Debug, Hash, Clone, Copy, PartialEq, Eq, PartialOrd, Ord, Structural)]
pub enum FileOpenBehaviour {
    /// Start the file afresh.
    Truncate,
    /// Keep existing contents and write after them.
    Append,
}

impl Default for FileOpenBehaviour {
    fn default() -> (r: Self)
        ensures
            r == FileOpenBehaviour::Truncate,
    {
        FileOpenBehaviour::Truncate
    }
}

impl FileOpenBehaviour {
    /// Parse an open behaviour from its name; any other string is rejected.
    pub fn from_str(s: &str) -> (r: Result<FileOpenBehaviour, ParseError>)
        ensures
            match r {
                Ok(FileOpenBehaviour::Truncate) => s@ == "truncate"@,
                Ok(FileOpenBehaviour::Append) => s@ == "append"@,
                Err(e) => s@ != "truncate"@ && s@ != "append"@ && e.expected@ == "<truncate|append>"@,
            },
    {
        if str_eq(s, "truncate") {
            Ok(FileOpenBehaviour::Truncate)
        } else if str_eq(s, "append") {
            Ok(FileOpenBehaviour::Append)
        } else {
            Err(ParseError { expected: "<truncate|append>" })
        }
    }
}

/// Options of the bounded asynchronous delivery queue.
#[derive(Debug, Hash, Clone, PartialEq, Eq, PartialOrd, Ord)]
pub struct NonBlocking {
    /// How many records the queue holds before the overflow behaviour applies.
    pub buffer_length: Option<usize>,
    /// What a full queue does with a new record.
    pub behaviour: Option<BackpressureBehaviour>,
}

impl Default for NonBlocking {
    fn default() -> (r: Self)
        ensures
            r.buffer_length is None && r.behaviour is None,
    {
        NonBlocking { buffer_length: None, behaviour: None }
    }
}

/// Write to a single file.
#[derive(Debug, Hash, Clone, PartialEq, Eq, PartialOrd, Ord)]
pub struct File {
    pub path: String,
    pub behaviour: FileOpenBehaviour,
    /// Deliver through a bounded queue and a background worker.
    pub non_blocking: Option<NonBlocking>,
}

/// Options of the rotating file set.
#[derive(Debug, Hash, Clone, PartialEq, Eq, PartialOrd, Ord)]
pub struct Roll {
    /// Keep at most this many files, deleting the oldest beyond it.
    pub limit: Option<usize>,
    /// The part of each file name before the bucket timestamp.
    pub prefix: Option<String>,
    /// The part of each file name after the bucket timestamp.
    pub suffix: Option<String>,
    /// How often a fresh file is started.
    pub rotation: Option<Rotation>,
}

impl Default for Roll {
    fn default() -> (r: Self)
        ensures
            r.limit is None && r.prefix is None && r.suffix is None && r.rotation is None,
    {
        Roll { limit: None, prefix: None, suffix: None, rotation: None }
    }
}

/// Write to a set of files rotated at time-bucket boundaries.
#[derive(Debug, Hash, Clone, PartialEq, Eq, PartialOrd, Ord)]
pub struct Rolling {
    pub directory: String,
    pub roll: Option<Roll>,
    /// Deliver through a bounded queue and a background worker.
    pub non_blocking: Option<NonBlocking>,
}

/// Which destination rendered events are written to.
#[derive(Debug, Hash, Clone, PartialEq, Eq, PartialOrd, Ord)]
pub enum Writer {
    /// Accept and discard every write.
    Null,
    /// The process's standard output stream.
    Stdout,
    /// The process's standard error stream.
    Stderr,
    /// A single file.
    File(File),
    /// A rotating file set.
    Rolling(Rolling),
}

impl Default for Writer {
    fn default() -> (r: Self)
        ensures
            r == Writer::Stdout,
    {
        Writer::Stdout
    }
}

impl Writer {
    /// Parse a destination from one of the forms
    /// `null | none | stdout | stderr | file=PATH | rolling=DIRECTORY`,
    /// where PATH must not be empty.
    pub fn from_str(s: &str) -> (r: Result<Writer, ParseError>)
        ensures
            match r {
                Ok(Writer::Null) => s@ == "null"@ || s@ == "none"@,
                Ok(Writer::Stdout) => s@ == "stdout"@,
                Ok(Writer::Stderr) => s@ == "stderr"@,
                Ok(Writer::File(f)) => spec_has_prefix(s@, "file="@)
                    && f.path@ == s@.skip("file="@.len() as int)
                    && f.path@.len() > 0
                    && f.behaviour == FileOpenBehaviour::Truncate
                    && f.non_blocking is None,
                Ok(Writer::Rolling(rl)) => spec_has_prefix(s@, "rolling="@)
                    && rl.directory@ == s@.skip("rolling="@.len() as int)
                    && rl.roll is None
                    && rl.non_blocking is None,
                Err(e) => s@ != "null"@ && s@ != "none"@ && s@ != "stdout"@ && s@ != "stderr"@
                    && !(spec_has_prefix(s@, "file="@) && s@.len() > "file="@.len())
                    && !spec_has_prefix(s@, "rolling="@)
                    && e.expected@ == "<null | stdout | stderr | file=FILE | rolling=DIRECTORY>"@,
            },
    {
        if str_eq(s, "null") || str_eq(s, "none") {
            Ok(Writer::Null)
        } else if str_eq(s, "stdout") {
            Ok(Writer::Stdout)
        } else if str_eq(s, "stderr") {
            Ok(Writer::Stderr)
        } else {
            let file_rest = strip_prefix(s, "file=");
            let has_file_path = match &file_rest {
                Some(p) => p.as_str().unicode_len() > 0,
                None => false,
            };
            if has_file_path {
                let p = file_rest.unwrap();
                proof {
                    reveal_strlit("file=");
                }
                Ok(Writer::File(File {
                    path: p,
                    behaviour: FileOpenBehaviour::Truncate,
                    non_blocking: None,
                }))
            } else if let Some(d) = strip_prefix(s, "rolling=") {
                proof {
                    reveal_strlit("rolling=");
                }
                Ok(Writer::Rolling(Rolling { directory: d, roll: None, non_blocking: None }))
            } else {
                proof {
                    reveal_strlit("file=");
                }
                Err(ParseError { expected: "<null | stdout | stderr | file=FILE | rolling=DIRECTORY>" })
            }
        }
    }
}


/// Whether a string is a valid verbosity-filter directive. What the
/// directive grammar admits is the filtering library's own affair; the
/// answer depends on the string alone.
pub uninterp spec fn directive_ok(s: Seq<char>) -> bool;

/// Relies on the directive parser of tracing_subscriber (the `FromStr`
/// impl of `tracing_subscriber::filter::Directive`): on an ASCII string it
/// returns normally, and it accepts or rejects as a function of the string
/// alone. Only ASCII strings are handed over: the parser walks the
/// character offsets of the trimmed string but slices the original with
/// them, so leading whitespace ahead of a multibyte character would make
/// it cut inside a character and panic; with ASCII input every offset is
/// a character boundary.
#[verifier::external_body]
fn parse_outside_directive(s: &str) -> (r: Result<(), String>)
    requires
        s.is_ascii(),
    ensures
        r is Ok <==> directive_ok(s@),
{
    match s.parse::<tracing_subscriber::filter::Directive>() {
        Ok(_) => Ok(()),
        Err(e) => Err(e.to_string()),
    }
}

/// One verbosity-filter directive, kept as the text that the filtering
/// library validated.
#[derive(Debug, Hash, Clone, PartialEq, Eq, PartialOrd, Ord)]
pub struct Directive {
    text: String,
}

impl View for Directive {
    type V = Seq<char>;

    closed spec fn view(&self) -> Seq<char> {
        self.text@
    }
}

impl Directive {
    /// Every directive the library hands out was accepted by the parser.
    pub closed spec fn wf(&self) -> bool {
        directive_ok(self.text@)
    }

    /// Validate and keep one directive. A string the filtering library's
    /// parser rejects is refused, and so is any non-ASCII string, which is
    /// never handed to that parser at all (see `parse_outside_directive`).
    pub fn from_str(s: &str) -> (r: Result<Directive, ParseError>)
        ensures
            match r {
                Ok(d) => s.is_ascii() && directive_ok(s@) && d@ == s@ && d.wf(),
                Err(e) => !(s.is_ascii() && directive_ok(s@)) && e.expected@
                    == "target[span{field=value}]=level"@,
            },
    {
        if !s.is_ascii() {
            return Err(ParseError { expected: "target[span{field=value}]=level" });
        }
        match parse_outside_directive(s) {
            Ok(_) => Ok(Directive { text: s.to_owned() }),
            Err(_) => Err(ParseError { expected: "target[span{field=value}]=level" }),
        }
    }

    /// The validated text.
    pub fn as_str(&self) -> (r: &str)
        ensures
            r@ == self@,
    {
        self.text.as_str()
    }
}

/// The verbosity filter: its directives, and whether span and field
/// matchers in them may use regular expressions.
#[derive(Debug, Hash, Clone, PartialEq, Eq, PartialOrd, Ord)]
pub struct Filter {
    pub regex: Option<bool>,
    pub directives: Vec<Directive>,
}

impl Default for Filter {
    fn default() -> (r: Self)
        ensures
            r.regex is None && r.directives@.len() == 0,
    {
        Filter { regex: None, directives: Vec::new() }
    }
}

/// The whole configuration of one pipeline.
#[derive(Debug, Hash, Clone, PartialEq, Eq, PartialOrd, Ord)]
pub struct Subscriber {
    pub format: Option<Format>,
    pub writer: Option<Writer>,
    pub filter: Option<Filter>,
}

impl Default for Subscriber {
    fn default() -> (r: Self)
        ensures
            r.format is None && r.writer is None && r.filter is None,
    {
        Subscriber { format: None, writer: None, filter: None }
    }
}

/// The format configuration with nothing set.
pub open spec fn spec_default_format() -> Format {
    Format {
        ansi: None,
        target: None,
        level: None,
        thread_ids: None,
        thread_names: None,
        file: None,
        line_number: None,
        formatter: None,
        timer: None,
    }
}

/// The resolved pieces of one pipeline: the renderer configuration, the
/// timestamp policy, the destination to open, and the filter. The host
/// opens the destination, resolves the sink from the outcome, and wraps
/// it in a delivery queue when one is configured.
#[derive(Debug)]
pub struct Components {
    pub format: crate::render::ResolvedFormat,
    pub time: crate::timefmt::FormatTime,
    pub writer: Writer,
    pub filter: Filter,
}

impl Subscriber {
    /// Resolve the configuration into the pipeline's components, every
    /// absent part taking its default: the spacious layout, the
    /// wall-clock timestamp, the standard output stream, and an empty
    /// filter.
    pub fn into_components(self) -> (c: Components)
        ensures
            c.format == crate::render::spec_resolve_format(match self.format {
                Some(f) => f,
                None => spec_default_format(),
            }),
            c.time.policy == crate::timefmt::spec_time_policy(
                match self.format {
                    Some(f) => match f.timer {
                        Some(t) => t,
                        None => Timer::System,
                    },
                    None => Timer::System,
                },
            ),
            c.writer == (match self.writer {
                Some(w) => w,
                None => Writer::Stdout,
            }),
            match self.filter {
                Some(f) => c.filter == f,
                None => c.filter.regex is None && c.filter.directives@.len() == 0,
            },
    {
        let format = match self.format {
            Some(f) => f,
            None => Format::default(),
        };
        let resolved = format.resolve();
        let timer = match format.timer {
            Some(t) => t,
            None => Timer::System,
        };
        let time = crate::timefmt::FormatTime::from_timer(timer);
        let writer = match self.writer {
            Some(w) => w,
            None => Writer::Stdout,
        };
        let filter = match self.filter {
            Some(f) => f,
            None => Filter::default(),
        };
        Components { format: resolved, time, writer, filter }
    }
}

} // verus!

