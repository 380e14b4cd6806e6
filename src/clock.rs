use vstd::prelude::*;

verus! {

/// Relies on chrono's `Utc::now` and `DateTime::timestamp`: the current
/// time, in whole seconds since the Unix epoch. Nothing is promised of the
/// value read.
#[verifier::external_body]
pub(crate) fn now_seconds() -> (r: i64) {
    chrono::Utc::now().timestamp()
}

/// Relies on chrono's `DateTime::from_timestamp`, `with_timezone(&Local)` and
/// `FixedOffset::local_minus_utc`: the machine's offset from UTC at instant
/// `t`, in seconds. chrono builds every `FixedOffset` through `east_opt` or
/// `west_opt`, which keep it strictly within one day. `None` where chrono
/// cannot represent `t`.
#[verifier::external_body]
pub(crate) fn local_offset_at(t: i64) -> (r: Option<i32>)
    ensures
        r matches Some(o) ==> -86400 < o < 86400,
{
    match chrono::DateTime::from_timestamp(t, 0) {
        Some(d) => Some(d.with_timezone(&chrono::Local).offset().local_minus_utc()),
        None => None,
    }
}

} // verus!
