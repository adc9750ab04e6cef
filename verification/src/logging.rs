//! Diagnostic logging. A log line's fate is of no consequence to the
//! poller; nothing is stated about it.
use std::io::Write;
use vstd::prelude::*;

verus! {

/// Writes one diagnostic line to standard output.
/// Relies on std::io::Stdout's Write implementation.
#[verifier::external_body]
pub fn log_line(message: &str) {
    let mut out = std::io::stdout();
    let _ = writeln!(out, "{}", message);
}

} // verus!
