//! The local time, as the backup descriptor and the cache snapshots record
//! it.
use vstd::prelude::*;
use crate::text::{chars_of, slice_of, string_of};

verus! {

/// Relies on `chrono::Local::now` and `DateTime::to_rfc3339`: the local
/// time now in RFC 3339. Nothing is known of its value.
#[verifier::external_body]
pub(crate) fn now_rfc3339() -> (r: String) {
    chrono::Local::now().to_rfc3339()
}

/// The date and time to the second of an RFC 3339 time stamp, as
/// `YYYY-MM-DDTHH:MM:SS`: its first 19 characters.
pub fn to_seconds(stamp: &str) -> (r: String)
    ensures
        stamp@.len() >= 19 ==> r@ == stamp@.take(19),
        stamp@.len() < 19 ==> r@ == stamp@,
{
    let v = chars_of(stamp);
    let end: usize = if v.len() < 19 {
        v.len()
    } else {
        19
    };
    let part = slice_of(&v, 0, end);
    assert(v@.subrange(0, v.len() as int) =~= v@);
    assert(v@.subrange(0, end as int) =~= v@.take(end as int));
    string_of(part.as_slice())
}

} // verus!
