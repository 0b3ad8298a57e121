//! The settings record the worker consumes, its defaults, the checks the
//! configuration surface applies before saving, and the decision whether
//! the worker starts at all.
//!
//! Times are whole milliseconds. The host program persists a settings file
//! and converts at the edge.

use vstd::prelude::*;

verus! {

/// Which change-detection strategy the worker runs.
#[derive(Clone, Copy, Debug, PartialEq, Eq, Structural)]
pub enum Mode {
    /// Real-time filesystem events with trailing-edge debounce.
    Event,
    /// Periodic full-tree scans on a fixed interval.
    Periodic,
}

/// The settings record: where to watch, where to back up, how to name
/// snapshot folders, which strategy to run, and its time value (debounce
/// window in event mode, scan interval in periodic mode), in milliseconds.
pub struct AppConfig {
    pub source_dir: Vec<u8>,
    pub backup_dir: Vec<u8>,
    pub format: Vec<u8>,
    pub mode: Mode,
    pub time_value_ms: u64,
}

/// The default naming template: `$top_folder-$time-$date`.
pub open spec fn default_format() -> Seq<u8> {
    seq![36u8, 116, 111, 112, 95, 102, 111, 108, 100, 101, 114, 45, 36, 116, 105, 109, 101, 45, 36, 100, 97, 116, 101]
}

impl Default for AppConfig {
    /// Empty directories (not yet configured), the default template, event
    /// mode, and a five-second time value.
    fn default() -> (c: Self)
        ensures
            c.source_dir@ == Seq::<u8>::empty(),
            c.backup_dir@ == Seq::<u8>::empty(),
            c.format@ == default_format(),
            c.mode == Mode::Event,
            c.time_value_ms == 5000,
    {
        let format: Vec<u8> = vec![36u8, 116, 111, 112, 95, 102, 111, 108, 100, 101, 114, 45, 36,
            116, 105, 109, 101, 45, 36, 100, 97, 116, 101];
        assert(format@ =~= default_format());
        AppConfig {
            source_dir: Vec::new(),
            backup_dir: Vec::new(),
            format,
            mode: Mode::Event,
            time_value_ms: 5000,
        }
    }
}

/// What the configuration surface refuses to save.
#[derive(Clone, Copy, Debug, PartialEq, Eq, Structural)]
pub enum ConfigIssue {
    /// A directory field is empty or all whitespace.
    MissingFields,
    /// The time value is not positive.
    NonPositiveTime,
    /// The naming template holds a character forbidden in folder names.
    ForbiddenFormat,
}

/// ASCII whitespace.
pub open spec fn is_ascii_ws(b: u8) -> bool {
    b == 32 || b == 9 || b == 10 || b == 13
}

/// The byte string is empty once trimmed of ASCII whitespace.
pub open spec fn all_ws(s: Seq<u8>) -> bool {
    forall|i: int| 0 <= i < s.len() ==> is_ascii_ws(s[i])
}

/// A character that cannot appear in a folder name: `< > : " / \ | ? *`.
pub open spec fn forbidden_char(b: u8) -> bool {
    b == 60 || b == 62 || b == 58 || b == 34 || b == 47 || b == 92 || b == 124 || b == 63 || b
        == 42
}

/// The template holds some forbidden character.
pub open spec fn has_forbidden(s: Seq<u8>) -> bool {
    exists|i: int| 0 <= i < s.len() && forbidden_char(s[i])
}

/// The byte string is empty once trimmed of ASCII whitespace.
pub fn is_all_whitespace(s: &Vec<u8>) -> (r: bool)
    ensures
        r == all_ws(s@),
{
    let mut i: usize = 0;
    while i < s.len()
        invariant
            i <= s.len(),
            forall|j: int| 0 <= j < i ==> is_ascii_ws(s@[j]),
        decreases s.len() - i,
    {
        let b = s[i];
        if !(b == 32 || b == 9 || b == 10 || b == 13) {
            return false;
        }
        i += 1;
    }
    true
}

/// The template holds some character forbidden in folder names.
pub fn contains_forbidden(s: &Vec<u8>) -> (r: bool)
    ensures
        r == has_forbidden(s@),
{
    let mut i: usize = 0;
    while i < s.len()
        invariant
            i <= s.len(),
            forall|j: int| 0 <= j < i ==> !forbidden_char(s@[j]),
        decreases s.len() - i,
    {
        let b = s[i];
        if b == 60 || b == 62 || b == 58 || b == 34 || b == 47 || b == 92 || b == 124 || b == 63
            || b == 42 {
            return true;
        }
        i += 1;
    }
    false
}

/// The checks applied before a settings record is saved, in order: both
/// directories must have non-whitespace content, the time value must be
/// positive, and the template must not carry forbidden characters.
pub fn validate_config(c: &AppConfig) -> (r: Result<(), ConfigIssue>)
    ensures
        r == Err::<(), ConfigIssue>(ConfigIssue::MissingFields) <==> (all_ws(c.source_dir@)
            || all_ws(c.backup_dir@)),
        r == Err::<(), ConfigIssue>(ConfigIssue::NonPositiveTime) <==> (!all_ws(c.source_dir@)
            && !all_ws(c.backup_dir@) && c.time_value_ms == 0),
        r == Err::<(), ConfigIssue>(ConfigIssue::ForbiddenFormat) <==> (!all_ws(c.source_dir@)
            && !all_ws(c.backup_dir@) && c.time_value_ms > 0 && has_forbidden(c.format@)),
        r == Ok::<(), ConfigIssue>(()) <==> (!all_ws(c.source_dir@) && !all_ws(c.backup_dir@)
            && c.time_value_ms > 0 && !has_forbidden(c.format@)),
{
    if is_all_whitespace(&c.source_dir) || is_all_whitespace(&c.backup_dir) {
        return Err(ConfigIssue::MissingFields);
    }
    if c.time_value_ms == 0 {
        return Err(ConfigIssue::NonPositiveTime);
    }
    if contains_forbidden(&c.format) {
        return Err(ConfigIssue::ForbiddenFormat);
    }
    Ok(())
}

/// What the worker does when launched.
#[derive(Clone, Copy, Debug, PartialEq, Eq, Structural)]
pub enum StartupDecision {
    /// No settings file, or a directory is not configured: exit silently.
    DoNotStart,
    /// Run the worker in the given mode.
    Start(Mode),
}

/// Whether the worker starts, and in which mode: it declines silently when
/// no settings file was found or either directory is empty, and otherwise
/// runs the configured strategy.
pub fn startup_decision(config_found: bool, c: &AppConfig) -> (d: StartupDecision)
    ensures
        d == StartupDecision::DoNotStart <==> (!config_found || c.source_dir@.len() == 0
            || c.backup_dir@.len() == 0),
        d != StartupDecision::DoNotStart ==> d == StartupDecision::Start(c.mode),
{
    if !config_found || c.source_dir.len() == 0 || c.backup_dir.len() == 0 {
        StartupDecision::DoNotStart
    } else {
        StartupDecision::Start(c.mode)
    }
}

} // verus!
