//! Logging configuration, the output plan that a configuration asks for, and
//! the text of the plain and JSON log lines.

use vstd::prelude::*;

use crate::formatting::{
    all_decimal_digits, decimal_value, int_text, lemma_decimal_digits_read_back, u128_text,
};
use crate::text::{after_last, after_last_str, chars_of, push_char, push_str, str_eq};

verus! {

// ------------------------------------------------------------------------------------------
// Configuration.
// ------------------------------------------------------------------------------------------

/// Where log records go.
#[derive(Clone, Copy, Debug, PartialEq, Eq, Structural)]
pub enum LogMode {
    Console,
    File,
    Both,
}

/// How log records are written.
#[derive(Clone, Copy, Debug, PartialEq, Eq, Structural)]
pub enum LogEncoding {
    Json,
    Plain,
}

/// When log files roll over.
#[derive(Clone, Copy, Debug, PartialEq, Eq, Structural)]
pub enum RotationRule {
    Daily,
    Hourly,
    Never,
}

impl LogMode {
    /// The lowercase name of the mode.
    pub fn as_str(&self) -> (r: &'static str)
        ensures
            r@ == match *self {
                LogMode::Console => "console"@,
                LogMode::File => "file"@,
                LogMode::Both => "both"@,
            },
    {
        match self {
            LogMode::Console => "console",
            LogMode::File => "file",
            LogMode::Both => "both",
        }
    }

    /// The mode with the given lowercase name.
    pub fn from_name(name: &str) -> (r: Option<LogMode>)
        ensures
            r == (if name@ == "console"@ {
                Some(LogMode::Console)
            } else if name@ == "file"@ {
                Some(LogMode::File)
            } else if name@ == "both"@ {
                Some(LogMode::Both)
            } else {
                None
            }),
    {
        if str_eq(name, "console") {
            Some(LogMode::Console)
        } else if str_eq(name, "file") {
            Some(LogMode::File)
        } else if str_eq(name, "both") {
            Some(LogMode::Both)
        } else {
            None
        }
    }
}

impl LogEncoding {
    /// The lowercase name of the encoding.
    pub fn as_str(&self) -> (r: &'static str)
        ensures
            r@ == match *self {
                LogEncoding::Json => "json"@,
                LogEncoding::Plain => "plain"@,
            },
    {
        match self {
            LogEncoding::Json => "json",
            LogEncoding::Plain => "plain",
        }
    }

    /// The encoding with the given lowercase name.
    pub fn from_name(name: &str) -> (r: Option<LogEncoding>)
        ensures
            r == (if name@ == "json"@ {
                Some(LogEncoding::Json)
            } else if name@ == "plain"@ {
                Some(LogEncoding::Plain)
            } else {
                None
            }),
    {
        if str_eq(name, "json") {
            Some(LogEncoding::Json)
        } else if str_eq(name, "plain") {
            Some(LogEncoding::Plain)
        } else {
            None
        }
    }
}

impl RotationRule {
    /// The lowercase name of the rule.
    pub fn as_str(&self) -> (r: &'static str)
        ensures
            r@ == match *self {
                RotationRule::Daily => "daily"@,
                RotationRule::Hourly => "hourly"@,
                RotationRule::Never => "never"@,
            },
    {
        match self {
            RotationRule::Daily => "daily",
            RotationRule::Hourly => "hourly",
            RotationRule::Never => "never",
        }
    }

    /// The rule with the given lowercase name.
    pub fn from_name(name: &str) -> (r: Option<RotationRule>)
        ensures
            r == (if name@ == "daily"@ {
                Some(RotationRule::Daily)
            } else if name@ == "hourly"@ {
                Some(RotationRule::Hourly)
            } else if name@ == "never"@ {
                Some(RotationRule::Never)
            } else {
                None
            }),
    {
        if str_eq(name, "daily") {
            Some(RotationRule::Daily)
        } else if str_eq(name, "hourly") {
            Some(RotationRule::Hourly)
        } else if str_eq(name, "never") {
            Some(RotationRule::Never)
        } else {
            None
        }
    }
}

/// Rotation of the log files.
#[derive(Clone, Debug)]
pub struct FileRotateConfig {
    pub rotation: RotationRule,
    /// Largest size of one file, in MB (kept for size-based rotation).
    pub max_size_mb: u64,
    pub max_backup_count: u32,
    pub keep_days: u32,
}

/// Where the log files go.
#[derive(Clone, Debug)]
pub struct FileWriterConfig {
    pub directory: String,
    pub file_name: String,
    pub rotate: FileRotateConfig,
}

/// The logging configuration.
#[derive(Clone, Debug)]
pub struct LogConfig {
    pub mode: LogMode,
    pub encoding: LogEncoding,
    pub time_format: String,
    pub stdout_level: String,
    pub file_level: String,
    pub is_colored: bool,
    pub print_config: bool,
    pub file_writer: Option<FileWriterConfig>,
}

/// The rotation used when a file configuration names none.
pub fn default_rotation() -> (r: RotationRule)
    ensures
        r == RotationRule::Daily,
{
    RotationRule::Daily
}

/// The mode used when a configuration names none.
pub fn default_mode() -> (r: LogMode)
    ensures
        r == LogMode::Both,
{
    LogMode::Both
}

/// The encoding used when a configuration names none.
pub fn default_encoding() -> (r: LogEncoding)
    ensures
        r == LogEncoding::Json,
{
    LogEncoding::Json
}

/// The time format used when a configuration names none.
pub fn default_time_format() -> (r: String)
    ensures
        r@ == "%Y-%m-%dT%H:%M:%S%.3f %Z"@,
{
    String::from_str("%Y-%m-%dT%H:%M:%S%.3f %Z")
}

/// The value of a flag that a configuration leaves out.
pub fn default_true() -> (r: bool)
    ensures
        r,
{
    true
}

impl Default for LogConfig {
    /// Console output in plain text, info level on the console and debug level
    /// in files, coloured, with the configuration printed and no files.
    fn default() -> (r: Self)
        ensures
            r.mode == LogMode::Console,
            r.encoding == LogEncoding::Plain,
            r.time_format@ == "%Y-%m-%d %H:%M:%S%.3f %Z"@,
            r.stdout_level@ == "INFO"@,
            r.file_level@ == "DEBUG"@,
            r.is_colored,
            r.print_config,
            r.file_writer is None,
    {
        LogConfig {
            mode: LogMode::Console,
            encoding: LogEncoding::Plain,
            time_format: String::from_str("%Y-%m-%d %H:%M:%S%.3f %Z"),
            stdout_level: String::from_str("INFO"),
            file_level: String::from_str("DEBUG"),
            is_colored: true,
            print_config: true,
            file_writer: None,
        }
    }
}

// ------------------------------------------------------------------------------------------
// What a configuration asks for.
// ------------------------------------------------------------------------------------------

/// Whether the mode writes to the console.
pub open spec fn writes_console(mode: LogMode) -> bool {
    mode == LogMode::Console || mode == LogMode::Both
}

/// Whether the mode writes to files.
pub open spec fn writes_files(mode: LogMode) -> bool {
    mode == LogMode::File || mode == LogMode::Both
}

/// The name of a log file: the configured name, or the suffix, a dot and the
/// configured name.
pub open spec fn log_file_name_of(suffix: Seq<char>, file_name: Seq<char>) -> Seq<char> {
    if suffix.len() == 0 {
        file_name
    } else {
        suffix + seq!['.'] + file_name
    }
}

/// The name of the log file with the given suffix ("" for the main file).
pub fn log_file_name(suffix: &str, file_name: &str) -> (r: String)
    ensures
        r@ == log_file_name_of(suffix@, file_name@),
{
    let mut s = String::new();
    if suffix.unicode_len() == 0 {
        push_str(&mut s, file_name);
        assert(s@ =~= file_name@);
    } else {
        push_str(&mut s, suffix);
        push_char(&mut s, '.');
        push_str(&mut s, file_name);
    }
    s
}

/// The two log files: every record at the file level goes to the main file,
/// error records also go to the error file.
pub struct FileOutputPlan {
    pub directory: String,
    pub main_file_name: String,
    pub error_file_name: String,
    pub rotation: RotationRule,
    /// The filter of the main file when the environment sets none.
    pub main_level: String,
    /// Whether a filter set in the environment replaces `main_level`.
    pub main_env_overrides: bool,
    /// The filter of the error file.
    pub error_level: String,
    /// Whether a filter set in the environment replaces `error_level`.
    pub error_env_overrides: bool,
}

/// The outputs that a configuration asks for, and how records are formatted.
pub struct OutputPlan {
    /// The console filter (when the environment sets none), if the console is written.
    pub console_level: Option<String>,
    /// Whether a filter set in the environment replaces `console_level`.
    pub console_env_overrides: bool,
    pub files: Option<FileOutputPlan>,
    pub encoding: LogEncoding,
    pub is_colored: bool,
    pub time_format: String,
}

impl LogConfig {
    /// The outputs that this configuration asks for: the console for the modes
    /// `Console` and `Both`; the main and error files for the modes `File` and
    /// `Both` when file output is configured. A filter set in the environment
    /// replaces the configured console and main-file levels, never the error
    /// file's.
    pub fn output_plan(&self) -> (p: OutputPlan)
        ensures
            writes_console(self.mode) ==> (p.console_level matches Some(l) && l@
                == self.stdout_level@),
            !writes_console(self.mode) ==> p.console_level is None,
            (writes_files(self.mode) && self.file_writer is Some) ==> (p.files matches Some(f) && {
                let w = self.file_writer->0;
                &&& f.directory@ == w.directory@
                &&& f.main_file_name@ == log_file_name_of(Seq::empty(), w.file_name@)
                &&& f.error_file_name@ == log_file_name_of("error"@, w.file_name@)
                &&& f.rotation == w.rotate.rotation
                &&& f.main_level@ == self.file_level@
                &&& f.main_env_overrides
                &&& f.error_level@ == "error"@
                &&& !f.error_env_overrides
            }),
            !(writes_files(self.mode) && self.file_writer is Some) ==> p.files is None,
            p.console_env_overrides,
            p.encoding == self.encoding,
            p.is_colored == self.is_colored,
            p.time_format@ == self.time_format@,
    {
        let console_level = match self.mode {
            LogMode::Console | LogMode::Both => Some(self.stdout_level.clone()),
            LogMode::File => None,
        };
        let files = match self.mode {
            LogMode::File | LogMode::Both => match &self.file_writer {
                Some(w) => Some(
                    FileOutputPlan {
                        directory: w.directory.clone(),
                        main_file_name: log_file_name("", w.file_name.as_str()),
                        error_file_name: log_file_name("error", w.file_name.as_str()),
                        rotation: w.rotate.rotation,
                        main_level: self.file_level.clone(),
                        main_env_overrides: true,
                        error_level: String::from_str("error"),
                        error_env_overrides: false,
                    },
                ),
                None => None,
            },
            LogMode::Console => None,
        };
        proof {
            reveal_strlit("");
        }
        OutputPlan {
            console_level,
            console_env_overrides: true,
            files,
            encoding: self.encoding,
            is_colored: self.is_colored,
            time_format: self.time_format.clone(),
        }
    }
}

/// The configuration of the application: its logging.
#[derive(Clone, Debug)]
pub struct AppConfig {
    pub log: LogConfig,
}

// ------------------------------------------------------------------------------------------
// One logger per process.
// ------------------------------------------------------------------------------------------

/// Why the logger could not be set up.
#[derive(Clone, Copy, Debug, PartialEq, Eq, Structural)]
pub enum LoggerError {
    /// A logger was set up before.
    AlreadyInitialized,
}

impl LoggerError {
    /// The message that reports the error.
    pub fn message(&self) -> (r: &'static str)
        ensures
            r@ == "Logger is already initialized"@,
    {
        "Logger is already initialized"
    }
}

/// Whether the process logger has been claimed.
pub struct LoggerRegistry {
    pub initialized: bool,
}

/// What claiming the logger answers: success only if no logger was set up.
pub open spec fn claim_answer(before: LoggerRegistry) -> Result<(), LoggerError> {
    if before.initialized {
        Err(LoggerError::AlreadyInitialized)
    } else {
        Ok(())
    }
}

/// The registry after a claim: a logger is set up.
pub open spec fn claimed(before: LoggerRegistry) -> LoggerRegistry {
    LoggerRegistry { initialized: true }
}

impl LoggerRegistry {
    /// A registry in which no logger has been set up.
    pub fn new() -> (r: LoggerRegistry)
        ensures
            !r.initialized,
    {
        LoggerRegistry { initialized: false }
    }

    /// Claims the logger: succeeds only if no logger was set up before, and
    /// afterwards one is.
    pub fn try_claim(&mut self) -> (r: Result<(), LoggerError>)
        ensures
            r == claim_answer(*old(self)),
            *final(self) == claimed(*old(self)),
    {
        if self.initialized {
            Err(LoggerError::AlreadyInitialized)
        } else {
            self.initialized = true;
            Ok(())
        }
    }
}

/// Once a claim has been made, every later claim is refused as already
/// initialized, whether the first claim succeeded or not; on a fresh registry
/// the first claim succeeds.
pub proof fn lemma_second_claim_fails(before: LoggerRegistry)
    ensures
        claim_answer(claimed(before)) == Err::<(), LoggerError>(LoggerError::AlreadyInitialized),
        !before.initialized ==> claim_answer(before) == Ok::<(), LoggerError>(()),
{
}

// ------------------------------------------------------------------------------------------
// The text of log lines.
// ------------------------------------------------------------------------------------------

/// The severity of a log record.
#[derive(Clone, Copy, Debug, PartialEq, Eq, Structural)]
pub enum LogLevel {
    Trace,
    Debug,
    Info,
    Warn,
    Error,
}

/// The name of a level as records show it.
pub open spec fn level_name(level: LogLevel) -> Seq<char> {
    match level {
        LogLevel::Trace => "TRACE"@,
        LogLevel::Debug => "DEBUG"@,
        LogLevel::Info => "INFO"@,
        LogLevel::Warn => "WARN"@,
        LogLevel::Error => "ERROR"@,
    }
}

impl LogLevel {
    /// The name of the level.
    pub fn as_str(&self) -> (r: &'static str)
        ensures
            r@ == level_name(*self),
    {
        match self {
            LogLevel::Trace => "TRACE",
            LogLevel::Debug => "DEBUG",
            LogLevel::Info => "INFO",
            LogLevel::Warn => "WARN",
            LogLevel::Error => "ERROR",
        }
    }
}

/// The part of a path after its last '/', or the whole path if it has none.
pub open spec fn after_last_slash(s: Seq<char>) -> Seq<char> {
    after_last(s, '/')
}

/// `s` right-aligned in a field of `width` characters, spaces in front.
pub open spec fn padded_left(s: Seq<char>, width: nat) -> Seq<char> {
    if s.len() >= width {
        s
    } else {
        Seq::new((width - s.len()) as nat, |i: int| ' ') + s
    }
}

/// The file name of a source path: the part after its last '/'.
pub fn short_file_name(path: &str) -> (r: &str)
    ensures
        r@ == after_last_slash(path@),
{
    after_last_str(path, '/')
}

fn push_padded_left(s: &mut String, t: &str, width: usize)
    ensures
        final(s)@ == old(s)@ + padded_left(t@, width as nat),
{
    let len = t.unicode_len();
    let ghost start = s@;
    if len < width {
        let mut i: usize = 0;
        while i < width - len
            invariant
                len < width,
                i <= width - len,
                s@ == start + Seq::new(i as nat, |j: int| ' '),
            decreases width - len - i,
        {
            push_char(s, ' ');
            assert(s@ =~= start + Seq::new((i + 1) as nat, |j: int| ' '));
            i = i + 1;
        }
    }
    let ghost mid = s@;
    push_str(s, t);
    assert(s@ =~= start + padded_left(t@, width as nat));
}

/// The location part of a plain line: "[file:line] " from the file name and
/// line when both are known, else "[target] ".
pub open spec fn plain_location(file: Option<Seq<char>>, line: Option<u32>, target: Seq<char>) -> Seq<
    char,
> {
    match (file, line) {
        (Some(f), Some(l)) => seq!['['] + after_last_slash(f) + seq![':'] + int_text(l as int)
            + seq![']', ' '],
        _ => seq!['['] + target + seq![']', ' '],
    }
}

/// The start of a plain log line, before the record's fields: the time, the
/// level right-aligned in five characters, and the location.
pub open spec fn plain_prefix(
    time: Seq<char>,
    level: LogLevel,
    file: Option<Seq<char>>,
    line: Option<u32>,
    target: Seq<char>,
) -> Seq<char> {
    time + seq![' '] + padded_left(level_name(level), 5) + seq![' '] + plain_location(
        file,
        line,
        target,
    )
}

/// The view of an optional text.
pub open spec fn opt_view(s: Option<&str>) -> Option<Seq<char>> {
    match s {
        Some(t) => Some(t@),
        None => None,
    }
}

/// The start of a plain log line; the fields and a line break follow it.
pub fn plain_event_prefix(
    time: &str,
    level: LogLevel,
    file: Option<&str>,
    line: Option<u32>,
    target: &str,
) -> (r: String)
    ensures
        r@ == plain_prefix(time@, level, opt_view(file), line, target@),
{
    let mut s = String::new();
    push_str(&mut s, time);
    push_char(&mut s, ' ');
    push_padded_left(&mut s, level.as_str(), 5);
    push_char(&mut s, ' ');
    let ghost before = s@;
    match (file, line) {
        (Some(f), Some(l)) => {
            push_char(&mut s, '[');
            let short = short_file_name(f);
            push_str(&mut s, short);
            push_char(&mut s, ':');
            let digits = u128_text(l as u128);
            push_str(&mut s, digits.as_str());
            push_char(&mut s, ']');
            push_char(&mut s, ' ');
            assert(s@ =~= before + plain_location(opt_view(file), line, target@));
        },
        _ => {
            push_char(&mut s, '[');
            push_str(&mut s, target);
            push_char(&mut s, ']');
            push_char(&mut s, ' ');
            assert(s@ =~= before + plain_location(opt_view(file), line, target@));
        },
    }
    assert(s@ =~= plain_prefix(time@, level, opt_view(file), line, target@));
    s
}

/// The start of a JSON log line: the time, the level and the `file_line`
/// member "short_file:line" ("unknown" for a missing file, 0 for a missing
/// line), without the closing brace; the fields (the message among them)
/// follow it.
pub open spec fn json_head(
    time: Seq<char>,
    level: LogLevel,
    file: Option<Seq<char>>,
    line: Option<u32>,
) -> Seq<char> {
    "{\"time\":\""@ + time + "\",\"level\":\""@ + level_name(level) + "\",\"file_line\":\""@ + (
    match file {
        Some(f) => after_last_slash(f),
        None => "unknown"@,
    }) + seq![':'] + int_text(
        match line {
            Some(l) => l as int,
            None => 0,
        },
    ) + seq!['"']
}

/// The start of a JSON log line.
pub fn json_event_head(time: &str, level: LogLevel, file: Option<&str>, line: Option<u32>) -> (r:
    String)
    ensures
        r@ == json_head(time@, level, opt_view(file), line),
{
    let mut s = String::new();
    push_str(&mut s, "{\"time\":\"");
    push_str(&mut s, time);
    push_str(&mut s, "\",\"level\":\"");
    push_str(&mut s, level.as_str());
    push_str(&mut s, "\",\"file_line\":\"");
    match file {
        Some(f) => {
            let short = short_file_name(f);
            push_str(&mut s, short);
        },
        None => {
            push_str(&mut s, "unknown");
        },
    }
    push_char(&mut s, ':');
    let n: u32 = match line {
        Some(l) => l,
        None => 0,
    };
    let digits = u128_text(n as u128);
    push_str(&mut s, digits.as_str());
    push_char(&mut s, '"');
    assert(s@ =~= json_head(time@, level, opt_view(file), line));
    s
}

/// Whether a field's text already looks like a JSON object or array: it starts
/// with '{' and ends with '}', or starts with '[' and ends with ']'.
pub open spec fn looks_like_json(v: Seq<char>) -> bool {
    v.len() > 0 && ((v[0] == '{' && v.last() == '}') || (v[0] == '[' && v.last() == ']'))
}

/// Whether a field's text already looks like a JSON object or array.
pub fn is_json_like(value: &str) -> (r: bool)
    ensures
        r == looks_like_json(value@),
{
    let cs = chars_of(value);
    let n = cs.len();
    if n == 0 {
        return false;
    }
    (cs[0] == '{' && cs[n - 1] == '}') || (cs[0] == '[' && cs[n - 1] == ']')
}

/// One field of a JSON line: a comma unless it is the first, the quoted name, a
/// colon and the value, quoted when asked.
pub open spec fn json_pair_text(is_first: bool, name: Seq<char>, value: Seq<char>, quoted: bool) -> Seq<
    char,
> {
    (if is_first {
        Seq::empty()
    } else {
        seq![',']
    }) + seq!['"'] + name + seq!['"', ':'] + (if quoted {
        seq!['"'] + value + seq!['"']
    } else {
        value
    })
}

/// One field of a JSON line.
pub fn json_pair(is_first: bool, name: &str, value: &str, quoted: bool) -> (r: String)
    ensures
        r@ == json_pair_text(is_first, name@, value@, quoted),
{
    let mut s = String::new();
    if !is_first {
        push_char(&mut s, ',');
    }
    push_char(&mut s, '"');
    push_str(&mut s, name);
    push_char(&mut s, '"');
    push_char(&mut s, ':');
    if quoted {
        push_char(&mut s, '"');
        push_str(&mut s, value);
        push_char(&mut s, '"');
    } else {
        push_str(&mut s, value);
    }
    assert(s@ =~= json_pair_text(is_first, name@, value@, quoted));
    s
}

/// A text field of a JSON line: quoted, unless it already looks like JSON.
pub fn json_text_pair(is_first: bool, name: &str, value: &str) -> (r: String)
    ensures
        r@ == json_pair_text(is_first, name@, value@, !looks_like_json(value@)),
{
    let quoted = !is_json_like(value);
    json_pair(is_first, name, value, quoted)
}

/// The fields of one JSON line as they are written: every field after the
/// first is preceded by a comma, and once a write has failed nothing more is
/// written.
pub struct JsonFieldWriter {
    pub is_first: bool,
    pub failed: bool,
}

impl JsonFieldWriter {
    /// A writer whose next field is the first (`true`), or follows others.
    pub fn new(is_first: bool) -> (r: JsonFieldWriter)
        ensures
            r.is_first == is_first,
            !r.failed,
    {
        JsonFieldWriter { is_first, failed: false }
    }

    /// The text of the next field, or nothing after a failed write; after a
    /// field, the fields that follow are not the first.
    pub fn write_pair(&mut self, name: &str, value: &str, quoted: bool) -> (r: Option<String>)
        ensures
            old(self).failed ==> r is None && *final(self) == *old(self),
            !old(self).failed ==> (r matches Some(t) && t@ == json_pair_text(
                old(self).is_first,
                name@,
                value@,
                quoted,
            ) && !final(self).is_first && !final(self).failed),
    {
        if self.failed {
            return None;
        }
        let r = json_pair(self.is_first, name, value, quoted);
        self.is_first = false;
        Some(r)
    }

    /// Records whether the last write succeeded; a failure stops the writer.
    pub fn record_write(&mut self, succeeded: bool)
        ensures
            final(self).is_first == old(self).is_first,
            final(self).failed == (old(self).failed || !succeeded),
    {
        if !succeeded {
            self.failed = true;
        }
    }
}

/// A text field of a JSON line is written unquoted only when its text starts
/// with '{' and ends with '}', or starts with '[' and ends with ']'; every other
/// text, such as "[1/3] loading", is written between double quotes.
pub proof fn lemma_text_field_quoting(is_first: bool, name: Seq<char>, v: Seq<char>)
    ensures
        ({
            let r = json_pair_text(is_first, name, v, !looks_like_json(v));
            let head = json_pair_text(is_first, name, Seq::empty(), false);
            let bracketed = v.len() >= 2 && ((v[0] == '{' && v[v.len() - 1] == '}') || (v[0] == '['
                && v[v.len() - 1] == ']'));
            &&& bracketed ==> r == head + v
            &&& !bracketed ==> r == head + seq!['"'] + v + seq!['"']
        }),
{
    let head = json_pair_text(is_first, name, Seq::empty(), false);
    assert(json_pair_text(is_first, name, v, false) =~= head + v);
    assert(json_pair_text(is_first, name, v, true) =~= head + seq!['"'] + v + seq!['"']);
}

/// When the file and line are known, the location of a plain line is '[', the
/// short file name, ':', the line number written in full decimal (reading back
/// as the line for every `u32`), and "] ".
pub proof fn lemma_plain_location_line(file: Seq<char>, line: u32, target: Seq<char>)
    ensures
        ({
            let loc = plain_location(Some(file), Some(line), target);
            let k = after_last_slash(file).len() as int;
            let d = loc.subrange(k + 2, loc.len() - 2);
            &&& loc.len() >= k + 5
            &&& loc.take(k + 2) == seq!['['] + after_last_slash(file) + seq![':']
            &&& loc.skip(loc.len() - 2) == seq![']', ' ']
            &&& all_decimal_digits(d)
            &&& decimal_value(d) == line as int
        }),
{
    lemma_decimal_digits_read_back(line as nat);
    let loc = plain_location(Some(file), Some(line), target);
    let k = after_last_slash(file).len() as int;
    let digits = int_text(line as int);
    assert(loc == seq!['['] + after_last_slash(file) + seq![':'] + digits + seq![']', ' ']);
    assert(loc.subrange(k + 2, loc.len() - 2) =~= digits);
    assert(loc.take(k + 2) =~= seq!['['] + after_last_slash(file) + seq![':']);
    assert(loc.skip(loc.len() - 2) =~= seq![']', ' ']);
}

/// The location member of a JSON line ends with ':', the line number written
/// in full decimal (0 when unknown) reading back as the line, and the closing
/// quote.
pub proof fn lemma_json_head_line(
    time: Seq<char>,
    level: LogLevel,
    file: Option<Seq<char>>,
    line: Option<u32>,
)
    ensures
        ({
            let h = json_head(time, level, file, line);
            let n = match line {
                Some(l) => l as int,
                None => 0,
            };
            exists|p: int|
                #![trigger h.subrange(p, h.len() - 1)]
                0 <= p < h.len() - 1 && h[p - 1] == ':' && h[h.len() - 1] == '"'
                    && all_decimal_digits(h.subrange(p, h.len() - 1)) && decimal_value(
                    h.subrange(p, h.len() - 1),
                ) == n
        }),
{
    let h = json_head(time, level, file, line);
    let n = match line {
        Some(l) => l as int,
        None => 0,
    };
    lemma_decimal_digits_read_back(n as nat);
    let digits = int_text(n);
    let p = h.len() - 1 - digits.len();
    let front = "{\"time\":\""@ + time + "\",\"level\":\""@ + level_name(level) + "\",\"file_line\":\""@
        + (match file {
        Some(f) => after_last_slash(f),
        None => "unknown"@,
    });
    assert(h == front + seq![':'] + digits + seq!['"']);
    assert(h.subrange(p, h.len() - 1) =~= digits);
    assert(h[p - 1] == ':');
}

/// A field of a JSON line starts with a comma exactly when it is not the
/// first, then the name between double quotes and a colon, then the value.
pub proof fn lemma_json_pair_layout(is_first: bool, name: Seq<char>, value: Seq<char>, quoted: bool)
    ensures
        ({
            let r = json_pair_text(is_first, name, value, quoted);
            let c = if is_first {
                0int
            } else {
                1int
            };
            &&& (!is_first ==> r[0] == ',')
            &&& r[c] == '"'
            &&& r.subrange(c + 1, c + 1 + name.len()) == name
            &&& r[c + 1 + name.len()] == '"' && r[c + 2 + name.len()] == ':'
            &&& quoted ==> r.skip(c + 3 + name.len()) == seq!['"'] + value + seq!['"']
            &&& !quoted ==> r.skip(c + 3 + name.len()) == value
        }),
{
    let r = json_pair_text(is_first, name, value, quoted);
    let c = if is_first {
        0int
    } else {
        1int
    };
    let lead = if is_first {
        Seq::<char>::empty()
    } else {
        seq![',']
    };
    let v = if quoted {
        seq!['"'] + value + seq!['"']
    } else {
        value
    };
    assert(r == lead + seq!['"'] + name + seq!['"', ':'] + v);
    assert(r.subrange(c + 1, c + 1 + name.len()) =~= name);
    assert(r.skip(c + 3 + name.len()) =~= v);
}

/// A plain line starts with the time, a space, the level right-aligned in
/// five characters (spaces in front), and a space.
pub proof fn lemma_plain_prefix_level(
    time: Seq<char>,
    level: LogLevel,
    file: Option<Seq<char>>,
    line: Option<u32>,
    target: Seq<char>,
)
    ensures
        ({
            let p = plain_prefix(time, level, file, line, target);
            let t = time.len() as int;
            let name = level_name(level);
            &&& p.take(t) == time
            &&& p[t] == ' ' && p[t + 6] == ' '
            &&& p.subrange(t + 6 - name.len(), t + 6) == name
            &&& forall|i: int| t + 1 <= i < t + 6 - name.len() ==> #[trigger] p[i] == ' '
            &&& p.skip(t + 7) == plain_location(file, line, target)
        }),
{
    let name = level_name(level);
    reveal_strlit("TRACE");
    reveal_strlit("DEBUG");
    reveal_strlit("INFO");
    reveal_strlit("WARN");
    reveal_strlit("ERROR");
    assert(name.len() <= 5);
    let pad = padded_left(name, 5);
    assert(pad =~= Seq::new((5 - name.len()) as nat, |i: int| ' ') + name);
    let p = plain_prefix(time, level, file, line, target);
    let t = time.len() as int;
    assert(p == time + seq![' '] + pad + seq![' '] + plain_location(file, line, target));
    assert(p.take(t) =~= time);
    assert(p.subrange(t + 6 - name.len(), t + 6) =~= name);
    assert(p.skip(t + 7) =~= plain_location(file, line, target));
    assert forall|i: int| t + 1 <= i < t + 6 - name.len() implies #[trigger] p[i] == ' ' by {
        assert(p[i] == pad[i - t - 1]);
    }
}

} // verus!
