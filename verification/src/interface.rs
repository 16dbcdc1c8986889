//! The command-line surface, as plain values.
//!
//! [`NJParser`] carries the flags that configure a run.  Reading them
//! from the actual command line is the caller's concern; the decisions
//! derived from them — how much to log, and the effective count floor —
//! are made here.

use vstd::prelude::*;

verus! {

/// The flags that configure a run.
///
/// `quiet` and a positive `verbosity` conflict and are never both set;
/// `by_age_only` and an explicit `keep_at_least` likewise.
#[derive(Debug, Clone, Copy, PartialEq, Eq, Structural)]
pub struct NJParser {
    /// The number of days to keep generations.
    pub keep_days: i64,
    /// The minimum number of generations to keep.
    pub keep_at_least: usize,
    /// Delete by age only, still keeping at least one generation.
    pub by_age_only: bool,
    /// How many times verbosity was raised.
    pub verbosity: u8,
    /// Only log warnings and errors.
    pub quiet: bool,
}

/// How much the run logs.
#[derive(Debug, Clone, Copy, PartialEq, Eq, Structural)]
pub enum LogLevel {
    Warn,
    Info,
    Debug,
    Trace,
}

/// Which span lifecycle events the log subscriber records.
#[derive(Debug, Clone, Copy, PartialEq, Eq, Structural)]
pub enum SpanEvents {
    NoSpans,
    EnterExit,
}

impl NJParser {
    /// Maps the verbosity flags to a log level and the span events to
    /// record.  Raising verbosity beyond three changes nothing further.
    pub fn log_level_and_span(&self) -> (r: (LogLevel, SpanEvents))
        requires
            !(self.quiet && self.verbosity > 0),
        ensures
            r == if self.quiet {
                (LogLevel::Warn, SpanEvents::NoSpans)
            } else if self.verbosity == 0 {
                (LogLevel::Info, SpanEvents::NoSpans)
            } else if self.verbosity == 1 {
                (LogLevel::Debug, SpanEvents::NoSpans)
            } else if self.verbosity == 2 {
                (LogLevel::Trace, SpanEvents::NoSpans)
            } else {
                (LogLevel::Trace, SpanEvents::EnterExit)
            },
    {
        if self.quiet {
            (LogLevel::Warn, SpanEvents::NoSpans)
        } else if self.verbosity == 0 {
            (LogLevel::Info, SpanEvents::NoSpans)
        } else if self.verbosity == 1 {
            (LogLevel::Debug, SpanEvents::NoSpans)
        } else if self.verbosity == 2 {
            (LogLevel::Trace, SpanEvents::NoSpans)
        } else {
            (LogLevel::Trace, SpanEvents::EnterExit)
        }
    }

    /// The effective count floor: age-only mode forces it to one, and
    /// otherwise the configured minimum stands.
    pub fn effective_keep_at_least(&self) -> (r: usize)
        ensures
            r == if self.by_age_only {
                1usize
            } else {
                self.keep_at_least
            },
    {
        match crate::optional(!self.by_age_only, self.keep_at_least) {
            Some(v) => v,
            None => 1,
        }
    }
}

} // verus!
