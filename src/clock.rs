//! Wall-clock time as plain fields, and the two texts made from it: the
//! timestamp put before each line and the log file's name.
use vstd::prelude::*;
use chrono::{Datelike, Timelike};
use crate::text::{padded, push_padded};

verus! {

/// A local date and time, field by field.
#[derive(Clone, Copy, Debug, PartialEq, Eq)]
pub struct LocalTime {
    pub year: i32,
    /// 1 to 12.
    pub month: u32,
    /// 1 to 31.
    pub day: u32,
    /// 0 to 23.
    pub hour: u32,
    /// 0 to 59.
    pub minute: u32,
    /// 0 to 59.
    pub second: u32,
    /// Nanoseconds into the second; 1_000_000_000 and above during a leap second.
    pub nanosecond: u32,
}

impl LocalTime {
    pub open spec fn wf(&self) -> bool {
        &&& 1 <= self.month <= 12
        &&& 1 <= self.day <= 31
        &&& self.hour < 24
        &&& self.minute < 60
        &&& self.second < 60
        &&& self.nanosecond < 2_000_000_000
    }
}

/// Milliseconds into the second, leap second folded in.
pub open spec fn millis(t: LocalTime) -> nat {
    (t.nanosecond / 1_000_000 % 1000) as nat
}

/// Two-digit field.
pub open spec fn two(n: nat) -> Seq<u8> {
    padded(n, 2)
}

/// The seconds as printed: 60 during a leap second.
pub open spec fn shown_second(t: LocalTime) -> nat {
    t.second as nat + t.nanosecond as nat / 1_000_000_000
}

/// `MM-DD hh:mm:ss.mmm ` followed by a space.
pub open spec fn timestamp_text(t: LocalTime) -> Seq<u8> {
    two(t.month as nat) + seq![45u8] + two(t.day as nat) + seq![32u8] + two(t.hour as nat) + seq![58u8] + two(t.minute as nat)
        + seq![58u8] + two(shown_second(t)) + seq![46u8] + padded(millis(t), 3) + seq![32u8]
}

/// The year as four zero-padded digits; outside 0 to 9999, signed and
/// zero-padded to five characters.
pub open spec fn year_text(y: int) -> Seq<u8> {
    if 0 <= y <= 9999 {
        padded(y as nat, 4)
    } else if y < 0 {
        seq![45u8] + padded((-y) as nat, 4)
    } else {
        seq![43u8] + padded(y as nat, 4)
    }
}

/// `Serial_Log_`
pub open spec fn log_name_prefix() -> Seq<u8> {
    seq![83u8, 101u8, 114u8, 105u8, 97u8, 108u8, 95u8, 76u8, 111u8, 103u8, 95u8]
}

/// `-MM-DD_hh_mm_ss`
pub open spec fn log_name_date_time(t: LocalTime) -> Seq<u8> {
    seq![45u8] + two(t.month as nat) + seq![45u8] + two(t.day as nat) + seq![95u8] + two(t.hour as nat) + seq![95u8]
        + two(t.minute as nat) + seq![95u8] + two(shown_second(t))
}

/// `Serial_Log_YYYY-MM-DD_hh_mm_ss.log`
pub open spec fn log_name_text(t: LocalTime) -> Seq<u8> {
    log_name_prefix() + year_text(t.year as int) + log_name_date_time(t) + seq![46u8, 108u8, 111u8, 103u8]
}

fn push_year(out: &mut Vec<u8>, y: i32)
    ensures
        final(out)@ == old(out)@ + year_text(y as int),
{
    if 0 <= y && y <= 9999 {
        push_padded(out, y as u64, 4);
    } else if y < 0 {
        out.push(45u8);
        push_padded(out, (-(y as i64)) as u64, 4);
    } else {
        out.push(43u8);
        push_padded(out, y as u64, 4);
    }
    assert(out@ =~= old(out)@ + year_text(y as int));
}

fn push_date_time(out: &mut Vec<u8>, t: &LocalTime)
    ensures
        final(out)@ == old(out)@ + log_name_date_time(*t),
{
    out.push(45u8);
    push_padded(out, t.month as u64, 2);
    out.push(45u8);
    push_padded(out, t.day as u64, 2);
    out.push(95u8);
    push_padded(out, t.hour as u64, 2);
    out.push(95u8);
    push_padded(out, t.minute as u64, 2);
    out.push(95u8);
    push_padded(out, t.second as u64 + (t.nanosecond / 1_000_000_000) as u64, 2);
    assert(out@ =~= old(out)@ + log_name_date_time(*t));
}

/// The timestamp text for `t`.
pub fn timestamp(t: &LocalTime) -> (r: Vec<u8>)
    ensures
        r@ == timestamp_text(*t),
{
    let mut out: Vec<u8> = Vec::new();
    push_padded(&mut out, t.month as u64, 2);
    out.push(45u8);
    push_padded(&mut out, t.day as u64, 2);
    out.push(32u8);
    push_padded(&mut out, t.hour as u64, 2);
    out.push(58u8);
    push_padded(&mut out, t.minute as u64, 2);
    out.push(58u8);
    push_padded(&mut out, t.second as u64 + (t.nanosecond / 1_000_000_000) as u64, 2);
    out.push(46u8);
    push_padded(&mut out, (t.nanosecond / 1_000_000 % 1000) as u64, 3);
    out.push(32u8);
    assert(out@ =~= timestamp_text(*t));
    out
}

/// The log file name for a session started at `t`.
pub fn log_file_name(t: &LocalTime) -> (r: Vec<u8>)
    ensures
        r@ == log_name_text(*t),
{
    let mut out: Vec<u8> = Vec::new();
    out.push(83u8);
    out.push(101u8);
    out.push(114u8);
    out.push(105u8);
    out.push(97u8);
    out.push(108u8);
    out.push(95u8);
    out.push(76u8);
    out.push(111u8);
    out.push(103u8);
    out.push(95u8);
    assert(out@ =~= log_name_prefix());
    push_year(&mut out, t.year);
    push_date_time(&mut out, t);
    out.push(46u8);
    out.push(108u8);
    out.push(111u8);
    out.push(103u8);
    assert(out@ =~= log_name_text(*t));
    out
}

/// The last second of the year 9999 counted from the Unix epoch: the clock
/// is read only up to here.
pub const LAST_CLOCK_SECOND: u64 = 253402300799;

#[verifier::external_type_specification]
#[verifier::external_body]
pub struct ExSystemTime(std::time::SystemTime);

/// Relies on `SystemTime::now`: the system clock's current reading.
#[verifier::external_body]
fn system_now() -> (r: std::time::SystemTime) {
    std::time::SystemTime::now()
}

/// Relies on `SystemTime::duration_since` with `UNIX_EPOCH`: whole seconds and
/// nanoseconds since the epoch (`Duration::subsec_nanos` is under one
/// billion), or `None` when the reading is earlier than the epoch.
#[verifier::external_body]
fn since_epoch(t: &std::time::SystemTime) -> (r: Option<(u64, u32)>)
    ensures
        r matches Some((_, nanos)) ==> nanos < 1_000_000_000,
{
    match t.duration_since(std::time::UNIX_EPOCH) {
        Ok(d) => Some((d.as_secs(), d.subsec_nanos())),
        Err(_) => None,
    }
}

/// Relies on chrono's `DateTime::from_timestamp`, then `with_timezone(&Local)`,
/// read through `Datelike::{year, month, day}` and
/// `Timelike::{hour, minute, second, nanosecond}`: the local time at that
/// instant, each field in the range chrono documents for it. Within these
/// bounds `from_timestamp` always gives a time, and the local offset lookup
/// does not overflow.
#[verifier::external_body]
fn local_time_at(secs: i64, nanos: u32) -> (r: Option<LocalTime>)
    requires
        0 <= secs <= LAST_CLOCK_SECOND,
        nanos < 1_000_000_000,
    ensures
        r is Some,
        r matches Some(t) ==> t.wf(),
{
    let now = chrono::DateTime::from_timestamp(secs, nanos)?.with_timezone(&chrono::Local);
    Some(LocalTime {
        year: now.year(),
        month: now.month(),
        day: now.day(),
        hour: now.hour(),
        minute: now.minute(),
        second: now.second(),
        nanosecond: now.nanosecond(),
    })
}

/// Whether a clock reading (seconds and nanoseconds since the Unix epoch)
/// can be turned into a local time: it exists and falls before the year 10000.
pub open spec fn readable(reading: Option<(u64, u32)>) -> bool {
    reading matches Some((secs, _)) && secs <= LAST_CLOCK_SECOND
}

/// The local time of a clock reading; `None` for no reading or one past the
/// year 9999.
pub fn local_time_of(reading: Option<(u64, u32)>) -> (r: Option<LocalTime>)
    requires
        reading matches Some((_, nanos)) ==> nanos < 1_000_000_000,
    ensures
        (r is Some) == readable(reading),
        r matches Some(t) ==> t.wf(),
{
    match reading {
        Some((secs, nanos)) => {
            if secs <= LAST_CLOCK_SECOND {
                local_time_at(secs as i64, nanos)
            } else {
                None
            }
        },
        None => None,
    }
}

/// The system clock's reading as seconds and nanoseconds since the Unix
/// epoch; `None` when it reads earlier.
pub fn clock_reading() -> (r: Option<(u64, u32)>)
    ensures
        r matches Some((_, nanos)) ==> nanos < 1_000_000_000,
{
    let now = system_now();
    since_epoch(&now)
}

/// The current local time; `None` when the system clock reads before 1970
/// or after 9999.
pub fn local_now() -> (r: Option<LocalTime>)
    ensures
        r matches Some(t) ==> t.wf(),
{
    local_time_of(clock_reading())
}

/// The timestamp text for a clock reading; `None` exactly when the reading
/// cannot be turned into a local time.
pub fn timestamp_of(reading: Option<(u64, u32)>) -> (r: Option<Vec<u8>>)
    requires
        reading matches Some((_, nanos)) ==> nanos < 1_000_000_000,
    ensures
        (r is Some) == readable(reading),
        r matches Some(v) ==> exists|t: LocalTime| t.wf() && v@ == timestamp_text(t),
{
    match local_time_of(reading) {
        Some(t) => Some(timestamp(&t)),
        None => None,
    }
}

/// The log file name for a clock reading; `None` exactly when the reading
/// cannot be turned into a local time.
pub fn log_file_name_of(reading: Option<(u64, u32)>) -> (r: Option<Vec<u8>>)
    requires
        reading matches Some((_, nanos)) ==> nanos < 1_000_000_000,
    ensures
        (r is Some) == readable(reading),
        r matches Some(v) ==> exists|t: LocalTime| t.wf() && v@ == log_name_text(t),
{
    match local_time_of(reading) {
        Some(t) => Some(log_file_name(&t)),
        None => None,
    }
}

/// The timestamp text for the current local time; `None` when the clock
/// cannot be read.
pub fn get_timestamp() -> (r: Option<Vec<u8>>)
    ensures
        r matches Some(v) ==> exists|t: LocalTime| t.wf() && v@ == timestamp_text(t),
{
    timestamp_of(clock_reading())
}

/// The log file name for a session starting now; `None` when the clock
/// cannot be read.
pub fn get_log_file_name() -> (r: Option<Vec<u8>>)
    ensures
        r matches Some(v) ==> exists|t: LocalTime| t.wf() && v@ == log_name_text(t),
{
    log_file_name_of(clock_reading())
}

} // verus!
