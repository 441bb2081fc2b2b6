//! The logger's few contacts with the host: the wall clock, local-time
//! formatting, standard output, and the palette type for namespace colors.

use std::fmt::Write as FmtWrite;
use std::io::Write as IoWrite;
use vstd::prelude::*;

verus! {

/// The palette of colors the embedding program may assign to a top-level
/// namespace segment, carried opaquely; owo_colors renders them.
#[verifier::external_type_specification]
#[verifier::external_body]
pub struct ExCssColors(owo_colors::CssColors);

/// Relies on std::time::SystemTime::now and SystemTime::duration_since:
/// nanoseconds of the wall clock since the Unix epoch, 0 if the clock stands
/// before it.  Nothing is promised of a clock reading.
#[verifier::external_body]
pub(crate) fn now_nanos() -> u64 {
    match std::time::SystemTime::now().duration_since(std::time::UNIX_EPOCH) {
        Ok(d) => d.as_nanos() as u64,
        Err(_) => 0,
    }
}

/// Relies on chrono::DateTime::from_timestamp_nanos, with_timezone and
/// format: `nanos` rendered in the machine's local time zone according to
/// `format`, or `None` when the format string is invalid.  The result
/// depends on the time zone, so nothing is promised of it.
#[verifier::external_body]
pub(crate) fn format_timestamp(nanos: u64, format: &str) -> Option<String> {
    let local = chrono::DateTime::from_timestamp_nanos(nanos as i64).with_timezone(
        &chrono::Local,
    );
    let mut out = String::new();
    match write!(out, "{}", local.format(format)) {
        Ok(()) => Some(out),
        Err(_) => None,
    }
}

/// Relies on std::io::Stdout: prints `line` and a newline to standard
/// output.
#[verifier::external_body]
pub(crate) fn emit_line(line: &str) {
    let _ = writeln!(std::io::stdout(), "{}", line);
}

} // verus!
