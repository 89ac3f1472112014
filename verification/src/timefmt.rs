//! Rendering an epoch-second timestamp as an absolute UTC instant.

use vstd::prelude::*;

verus! {

/// True of a text that cannot disturb the row layout of the output file.
pub open spec fn text_csv_safe(s: Seq<char>) -> bool {
    forall|i: int| 0 <= i < s.len() ==> s[i] != ',' && s[i] != '\n'
}

/// The UTC rendering of an epoch-second count, as an absolute instant.
pub uninterp spec fn utc_text_of(secs: int) -> Seq<char>;

/// Whether the date library's range can hold an epoch-second count;
/// a pure function of the count.
pub uninterp spec fn utc_renderable(secs: int) -> bool;

/// Relies on `chrono::DateTime::<Utc>::from_timestamp` and the `Display`
/// of `DateTime<Utc>`: the rendering is a pure function of the epoch
/// seconds, of the shape `2015-05-15 00:00:00 UTC` (digits, `-`, `+`
/// before a year past 9999, `:`, `.`, spaces and `UTC` only, so never a
/// comma or a line break), and `None` comes exactly when chrono's date
/// range cannot hold the value — itself a pure function of the seconds.
#[verifier::external_body]
pub(crate) fn utc_time_text(secs: i64) -> (r: Option<String>)
    ensures
        (r is Some) == utc_renderable(secs as int),
        r is Some ==> r.unwrap()@ == utc_text_of(secs as int),
        r is Some ==> text_csv_safe(utc_text_of(secs as int)),
{
    match chrono::DateTime::<chrono::Utc>::from_timestamp(secs, 0) {
        Some(d) => Some(d.to_string()),
        None => None,
    }
}

} // verus!
