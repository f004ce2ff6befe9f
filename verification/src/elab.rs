//! Errors of the source-level elaborator, as the debugger's surroundings
//! report them: a message, a position in the source, a severity level, and
//! optional related positions.

use vstd::prelude::*;

verus! {

/// A byte range in a source file.
#[derive(Debug, Clone, Copy, PartialEq, Eq, Structural)]
pub struct Span {
    pub start: usize,
    pub end: usize,
}

/// A span together with the file it lies in.
#[derive(Debug, Clone, PartialEq, Eq)]
pub struct FileSpan {
    pub file: String,
    pub span: Span,
}

/// The severity of a report.
#[derive(Debug, Clone, Copy, PartialEq, Eq, Structural)]
pub enum ErrorLevel {
    Error,
    Warning,
    Info,
}

/// The payload of an elaboration error: its message, and optionally a list
/// of related positions with their own messages.
#[derive(Debug, Clone, PartialEq, Eq)]
pub enum ElabErrorKind {
    Boxed(String, Option<Vec<(FileSpan, String)>>),
}

impl ElabErrorKind {
    /// The error's message.
    pub fn msg(&self) -> (r: String)
        ensures
            match self {
                ElabErrorKind::Boxed(e, _) => r@ == e@,
            },
    {
        match self {
            ElabErrorKind::Boxed(e, _) => e.clone(),
        }
    }
}

/// An elaboration error: where it happened, how severe it is, and what it
/// says.
#[derive(Debug, Clone, PartialEq, Eq)]
pub struct ElabError {
    pub pos: Span,
    pub level: ErrorLevel,
    pub kind: ElabErrorKind,
}

impl ElabError {
    /// An error-severity report at `pos`.
    pub fn new(pos: Span, kind: ElabErrorKind) -> (r: ElabError)
        ensures
            r == (ElabError { pos, level: ErrorLevel::Error, kind }),
    {
        ElabError { pos, level: ErrorLevel::Error, kind }
    }

    /// An error-severity report at `pos` with a plain message.
    pub fn new_e(pos: Span, e: String) -> (r: ElabError)
        ensures
            r.pos == pos,
            r.level == ErrorLevel::Error,
            r.kind == ElabErrorKind::Boxed(e, None::<Vec<(FileSpan, String)>>),
    {
        ElabError::new(pos, ElabErrorKind::Boxed(e, None))
    }

    /// An error-severity report with related positions.
    pub fn with_info(pos: Span, msg: String, v: Vec<(FileSpan, String)>) -> (r: ElabError)
        ensures
            r.pos == pos,
            r.level == ErrorLevel::Error,
            r.kind == ElabErrorKind::Boxed(msg, Some(v)),
    {
        ElabError::new(pos, ElabErrorKind::Boxed(msg, Some(v)))
    }

    /// An info-severity report at `pos` with a plain message.
    pub fn info(pos: Span, e: String) -> (r: ElabError)
        ensures
            r.pos == pos,
            r.level == ErrorLevel::Info,
            r.kind == ElabErrorKind::Boxed(e, None::<Vec<(FileSpan, String)>>),
    {
        ElabError { pos, level: ErrorLevel::Info, kind: ElabErrorKind::Boxed(e, None) }
    }
}

/// Which severities of reports are passed on.
#[derive(Debug, Clone, Copy, PartialEq, Eq, Structural)]
pub struct ReportMode {
    pub error: bool,
    pub warn: bool,
    pub info: bool,
}

impl ReportMode {
    /// Pass everything on.
    pub fn new() -> (r: ReportMode)
        ensures
            r.error && r.warn && r.info,
    {
        ReportMode { error: true, warn: true, info: true }
    }

    /// Whether reports of severity `lvl` are passed on.
    pub fn active(&self, lvl: ErrorLevel) -> (r: bool)
        ensures
            r == match lvl {
                ErrorLevel::Error => self.error,
                ErrorLevel::Warning => self.warn,
                ErrorLevel::Info => self.info,
            },
    {
        match lvl {
            ErrorLevel::Error => self.error,
            ErrorLevel::Warning => self.warn,
            ErrorLevel::Info => self.info,
        }
    }
}

} // verus!
