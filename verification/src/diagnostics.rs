//! The error log that scanning and parsing report to.
//!
//! Nothing here prints: a report is a line number, a location and a message,
//! kept in order of arrival, together with the flag that tells a caller
//! whether to go on past the front end.

use vstd::prelude::*;

verus! {

/// One reported error.
#[derive(Debug)]
pub struct Diagnostic {
    /// The 1-based source line the error was found on.
    pub line: usize,
    /// Where on the line, in words; empty when only the line is known.
    pub location: String,
    pub message: String,
}

/// Mathematical model of a [`Diagnostic`].
pub struct DiagnosticView {
    pub line: nat,
    pub location: Seq<char>,
    pub message: Seq<char>,
}

impl View for Diagnostic {
    type V = DiagnosticView;

    open spec fn view(&self) -> DiagnosticView {
        DiagnosticView {
            line: self.line as nat,
            location: self.location@,
            message: self.message@,
        }
    }
}

/// The models of a sequence of diagnostics, in order.
pub open spec fn diagnostic_views(entries: Seq<Diagnostic>) -> Seq<DiagnosticView> {
    Seq::new(entries.len(), |i: int| entries[i]@)
}

/// Errors in order of arrival, and the flag they raise.
#[derive(Debug)]
pub struct ErrorLog {
    pub had_error: bool,
    pub entries: Vec<Diagnostic>,
}

/// Mathematical model of an [`ErrorLog`].
pub struct ErrorLogView {
    pub had_error: bool,
    pub entries: Seq<DiagnosticView>,
}

impl View for ErrorLog {
    type V = ErrorLogView;

    open spec fn view(&self) -> ErrorLogView {
        ErrorLogView { had_error: self.had_error, entries: diagnostic_views(self.entries@) }
    }
}

impl ErrorLog {
    /// A log is consistent when every entry has raised the flag.
    pub open spec fn wf(&self) -> bool {
        self.entries@.len() > 0 ==> self.had_error
    }

    /// An empty log with the flag down.
    pub fn new() -> (log: ErrorLog)
        ensures
            log.wf(),
            !log@.had_error,
            log@.entries == Seq::<DiagnosticView>::empty(),
    {
        let log = ErrorLog { had_error: false, entries: Vec::new() };
        assert(log@.entries =~= Seq::<DiagnosticView>::empty());
        log
    }
}

/// Whether any error was declared to `log`.
pub fn had_err(log: &ErrorLog) -> (flag: bool)
    ensures
        flag == log@.had_error,
{
    log.had_error
}

/// Raises the error flag of `log` and leaves its entries alone.
pub fn declare_error(log: &mut ErrorLog)
    ensures
        final(log)@.had_error,
        final(log).entries == old(log).entries,
        final(log).wf(),
{
    log.had_error = true;
}

/// Appends one entry to `log` and raises its flag.
pub fn report(log: &mut ErrorLog, line: usize, w: String, msg: String)
    ensures
        final(log)@ == (ErrorLogView {
            had_error: true,
            entries: old(log)@.entries.push(
                DiagnosticView { line: line as nat, location: w@, message: msg@ },
            ),
        }),
        final(log).wf(),
{
    let ghost before = log.entries@;
    log.entries.push(Diagnostic { line, location: w, message: msg });
    declare_error(log);
    assert(diagnostic_views(log.entries@) =~= diagnostic_views(before).push(
        DiagnosticView { line: line as nat, location: w@, message: msg@ },
    ));
}

/// Reports `msg` for `line`, with no further location.
pub fn error(log: &mut ErrorLog, line: usize, msg: String)
    ensures
        final(log)@ == (ErrorLogView {
            had_error: true,
            entries: old(log)@.entries.push(
                DiagnosticView { line: line as nat, location: Seq::empty(), message: msg@ },
            ),
        }),
        final(log).wf(),
{
    report(log, line, String::new(), msg);
}

} // verus!
