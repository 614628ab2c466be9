//! Progress of a sideload: each line the bridge prints while it streams a
//! package is reported with the percentage it shows, if any.
use vstd::prelude::*;
use crate::device::{parsed_u64, parse_u64, opt_view};

verus! {

/// The digits of the first `(NN%)` or `(~NN%)` in a line, as the pattern
/// `\(~?(\d+)%\)` captures them.
pub uninterp spec fn progress_match(line: Seq<char>) -> Option<Seq<char>>;

/// Relies on `regex::Regex::new` and `Regex::captures` for the fixed
/// pattern `\(~?(\d+)%\)`: the first group of its leftmost match, which
/// depends on the line alone.
#[verifier::external_body]
fn progress_digits(line: &str) -> (r: Option<String>)
    ensures
        opt_view(r) == progress_match(line@),
{
    let re = regex::Regex::new(r"\(~?(\d+)%\)").ok()?;
    re.captures(line).and_then(|c| c.get(1)).map(|m| m.as_str().to_string())
}

/// What `str::parse::<u32>` gives.
pub open spec fn parsed_u32(s: Seq<char>) -> Option<u32> {
    match parsed_u64(s) {
        Some(n) => if n <= u32::MAX {
            Some(n as u32)
        } else {
            None
        },
        None => None,
    }
}

/// The percentage to report for a line whose pattern match is `m`: the
/// captured number, 0 for a line without a percentage, and nothing (the
/// line is not reported) when the number does not fit.
pub open spec fn progress_value(m: Option<Seq<char>>) -> Option<u32> {
    match m {
        None => Some(0),
        Some(d) => parsed_u32(d),
    }
}

/// The percentage to report for a line, given what the pattern captured.
pub fn progress_from_match(m: Option<String>) -> (r: Option<u32>)
    ensures
        r == progress_value(opt_view(m)),
{
    match m {
        None => Some(0),
        Some(d) => match parse_u64(d.as_str()) {
            Some(n) => if n <= 0xffff_ffff {
                Some(n as u32)
            } else {
                None
            },
            None => None,
        },
    }
}

/// The percentage to report for a line printed during a sideload.
pub fn progress_of_line(line: &str) -> (r: Option<u32>)
    ensures
        r == progress_value(progress_match(line@)),
{
    progress_from_match(progress_digits(line))
}

} // verus!
