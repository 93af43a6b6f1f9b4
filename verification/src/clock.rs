//! The wall-clock time of day, read through `chrono`.
use vstd::prelude::*;

verus! {

/// `t` reads as `HH:MM:SS`: two digits, a colon, two digits, a colon, two digits.
pub open spec fn is_clock_time(t: Seq<char>) -> bool {
    &&& t.len() == 8
    &&& t[2] == ':'
    &&& t[5] == ':'
    &&& forall|i: int| 0 <= i < 8 && i != 2 && i != 5 ==> '0' <= #[trigger] t[i] <= '9'
}

/// `chrono::Local::now().format("%H:%M:%S")`: the local time of day. chrono
/// documents `%H`, `%M` and `%S` as numbers zero-padded to two digits, so the
/// text has the shape `is_clock_time` states; which time it holds is not stated.
#[verifier::external_body]
pub(crate) fn local_time_of_day() -> (t: String)
    ensures
        is_clock_time(t@),
{
    chrono::Local::now().format("%H:%M:%S").to_string()
}

} // verus!
