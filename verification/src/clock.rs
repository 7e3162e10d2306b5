//! Times of day as text.

use vstd::prelude::*;

use crate::format::{decimal2, format_decimal2};
use crate::text::texts;

verus! {

/// A time of day as `HH:MM:SS`.
pub open spec fn clock_text(h: nat, m: nat, s: nat) -> Seq<char> {
    decimal2(h) + ":"@ + decimal2(m) + ":"@ + decimal2(s)
}

/// Whether `t` is a time of day as `HH:MM:SS`.
pub open spec fn is_clock(t: Seq<char>) -> bool {
    exists|h: nat, m: nat, s: nat|
        h < 24 && m < 60 && s < 60 && t == #[trigger] clock_text(h, m, s)
}

/// A time of day as `HH:MM`.
pub open spec fn minute_text(h: nat, m: nat) -> Seq<char> {
    decimal2(h) + ":"@ + decimal2(m)
}

/// Whether `t` is a time of day as `HH:MM`.
pub open spec fn is_minute(t: Seq<char>) -> bool {
    exists|h: nat, m: nat| h < 24 && m < 60 && t == #[trigger] minute_text(h, m)
}

/// The time stamps that `chrono` can represent: the seconds of the years
/// -262143 to 262142.
pub open spec fn representable(ts: i64) -> bool {
    -8334601228800 <= ts <= 8210266876799
}

/// The local time of day now, as `HH:MM:SS`.
///
/// Calls `chrono::Local::now` and `DateTime::format`. Claimed: the text is a
/// time of day of that form. Which one is left unsaid, for it depends on the
/// machine's clock and time zone.
#[verifier::external_body]
pub(crate) fn local_clock() -> (r: String)
    ensures
        is_clock(r@),
{
    chrono::Local::now().format("%H:%M:%S").to_string()
}

/// Whether `text` can be what `chrono` writes for the local time at `ts` in
/// `form`. It names what can come of the call, over all time zones: for one `ts`
/// there may be many such texts.
pub uninterp spec fn is_local_time(ts: i64, form: Seq<char>, text: Seq<char>) -> bool;

/// The local time of day at `ts`, in one of the two forms that the screens use.
///
/// Calls `chrono::TimeZone::timestamp_opt` for `chrono::Local` and
/// `DateTime::format`. Claimed: there is a time for exactly the representable
/// time stamps, its text has the form that `form` asks for, and it is what the
/// call can give for `ts` and `form`. Which time of day it is is left unsaid, for
/// it depends on the machine's time zone.
#[verifier::external_body]
pub(crate) fn local_time(ts: i64, form: &str) -> (r: Option<String>)
    requires
        form@ == "%H:%M:%S"@ || form@ == "%H:%M"@,
    ensures
        r is Some <==> representable(ts),
        r matches Some(t) ==> is_local_time(ts, form@, t@),
        r matches Some(t) ==> form@ == "%H:%M:%S"@ ==> is_clock(t@),
        r matches Some(t) ==> form@ == "%H:%M"@ ==> is_minute(t@),
{
    match chrono::TimeZone::timestamp_opt(&chrono::Local, ts, 0).single() {
        Some(dt) => Some(dt.format(form).to_string()),
        None => None,
    }
}

/// The time stamp that is shown for `ts`: the epoch where `ts` is not
/// representable.
pub open spec fn shown_time(ts: i64) -> i64 {
    if representable(ts) {
        ts
    } else {
        0
    }
}

/// The time stamp that is shown for `ts`.
pub fn shown_ts(ts: i64) -> (r: i64)
    ensures
        r == shown_time(ts),
{
    if -8334601228800 <= ts && ts <= 8210266876799 {
        ts
    } else {
        0
    }
}

/// Whether `t` can be shown for `ts` as `HH:MM:SS`.
pub open spec fn is_clock_of(ts: i64, t: Seq<char>) -> bool {
    is_clock(t) && is_local_time(shown_time(ts), "%H:%M:%S"@, t)
}

/// Whether `t` can be shown for `ts` as `HH:MM`.
pub open spec fn is_minute_of(ts: i64, t: Seq<char>) -> bool {
    is_minute(t) && is_local_time(shown_time(ts), "%H:%M"@, t)
}

/// Whether `stamps` can be shown for `times` as `HH:MM:SS`.
pub open spec fn are_clocks_of(times: Seq<i64>, stamps: Seq<Seq<char>>) -> bool {
    &&& stamps.len() == times.len()
    &&& forall|i: int| 0 <= i < times.len() ==> is_clock_of(times[i], #[trigger] stamps[i])
}

/// Whether `stamps` can be shown for `times` as `HH:MM`.
pub open spec fn are_minutes_of(times: Seq<i64>, stamps: Seq<Seq<char>>) -> bool {
    &&& stamps.len() == times.len()
    &&& forall|i: int| 0 <= i < times.len() ==> is_minute_of(times[i], #[trigger] stamps[i])
}

/// The local time of day at `ts` as `HH:MM:SS`; at the epoch where `ts` is not
/// representable.
pub fn fmt_clock(ts: i64) -> (r: String)
    ensures
        is_clock_of(ts, r@),
{
    local_time(shown_ts(ts), "%H:%M:%S").unwrap()
}

/// The local time of day at `ts` as `HH:MM`; at the epoch where `ts` is not
/// representable.
pub fn fmt_minute(ts: i64) -> (r: String)
    ensures
        is_minute_of(ts, r@),
{
    local_time(shown_ts(ts), "%H:%M").unwrap()
}

/// The local times of day at some time stamps as `HH:MM:SS`.
pub fn clock_stamps(times: &Vec<i64>) -> (r: Vec<String>)
    ensures
        are_clocks_of(times@, texts(r@)),
{
    let mut out: Vec<String> = Vec::new();
    let mut i: usize = 0;
    while i < times.len()
        invariant
            i <= times@.len(),
            are_clocks_of(times@.take(i as int), texts(out@)),
        decreases times.len() - i,
    {
        let ghost so_far = texts(out@);
        let stamp = fmt_clock(times[i]);
        let ghost t = stamp@;
        out.push(stamp);
        assert(texts(out@) =~= so_far.push(t));
        i += 1;
    }
    assert(times@.take(i as int) =~= times@);
    out
}

/// The local times of day at some time stamps as `HH:MM`.
pub fn minute_stamps(times: &Vec<i64>) -> (r: Vec<String>)
    ensures
        are_minutes_of(times@, texts(r@)),
{
    let mut out: Vec<String> = Vec::new();
    let mut i: usize = 0;
    while i < times.len()
        invariant
            i <= times@.len(),
            are_minutes_of(times@.take(i as int), texts(out@)),
        decreases times.len() - i,
    {
        let ghost so_far = texts(out@);
        let stamp = fmt_minute(times[i]);
        let ghost t = stamp@;
        out.push(stamp);
        assert(texts(out@) =~= so_far.push(t));
        i += 1;
    }
    assert(times@.take(i as int) =~= times@);
    out
}

/// A duration of `secs` seconds as `HH:MM:SS`; hours beyond 99 take more digits.
pub open spec fn uptime_text(secs: nat) -> Seq<char> {
    clock_text(secs / 3600, (secs % 3600) / 60, secs % 60)
}

/// A duration of `secs` seconds as `HH:MM:SS`.
pub fn fmt_uptime(secs: u64) -> (r: String)
    ensures
        r@ == uptime_text(secs as nat),
{
    format_decimal2(secs / 3600).concat(":").concat(format_decimal2((secs % 3600) / 60).as_str())
        .concat(":").concat(format_decimal2(secs % 60).as_str())
}

} // verus!
