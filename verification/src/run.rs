//! Scanning a source text in one call.

use vstd::prelude::*;

use crate::diagnostics::{ErrorLog, ErrorLogView};
use crate::lexing::scan;
use crate::scanner::Scanner;
use crate::token::{payloads_fit, terminated, token_views, Token};

verus! {

/// Scans `data` with a scanner of its own. Returns the tokens, closed by
/// the end-of-input token, and the log of the lexical errors; the flag of
/// the log is up exactly when there are any.
pub fn run(data: String) -> (scanned: (Vec<Token>, ErrorLog))
    requires
        data@.len() < usize::MAX,
    ensures
        token_views(scanned.0@) == scan(data@).tokens,
        terminated(token_views(scanned.0@)),
        payloads_fit(token_views(scanned.0@)),
        scanned.1@ == (ErrorLogView {
            had_error: scan(data@).errors.len() > 0,
            entries: scan(data@).errors,
        }),
{
    let mut scanner: Scanner = Scanner::new(data);
    let tokens = scanner.scan_tokens();
    (tokens, scanner.into_diagnostics())
}

} // verus!
