//! Capture times in UTC, their hour buckets, and how both are written out.
use vstd::prelude::*;
use crate::text::{padded, push_char, push_padded};
use chrono::{Datelike, Timelike};

verus! {

/// A UTC instant as civil fields, as the clock reports it.
#[derive(Clone, Copy, Debug, PartialEq, Eq, Structural)]
pub struct CaptureTime {
    pub year: i32,
    pub month: u32,
    pub day: u32,
    pub hour: u32,
    pub minute: u32,
    pub second: u32,
    /// Nanoseconds since the whole second; from one billion on, a leap second.
    pub nanos: u32,
}

/// The hour that a capture time falls in: the rotation key of the log files.
#[derive(Clone, Copy, Debug, PartialEq, Eq, Structural)]
pub struct BucketKey {
    pub year: i32,
    pub month: u32,
    pub day: u32,
    pub hour: u32,
}

impl CaptureTime {
    pub open spec fn wf(&self) -> bool {
        &&& 1 <= self.month <= 12
        &&& 1 <= self.day <= 31
        &&& self.hour < 24
        &&& self.minute < 60
        &&& self.second < 60
        &&& self.nanos < 2_000_000_000
    }

    pub open spec fn bucket_spec(&self) -> BucketKey {
        BucketKey { year: self.year, month: self.month, day: self.day, hour: self.hour }
    }

    /// The hour bucket: this time with minutes and below dropped.
    pub fn bucket(&self) -> (r: BucketKey)
        ensures
            r == self.bucket_spec(),
    {
        BucketKey { year: self.year, month: self.month, day: self.day, hour: self.hour }
    }

    /// The time as written at the start of each captured line.
    pub fn stamp_text(&self) -> (r: String)
        requires
            self.wf(),
        ensures
            r@ == stamp_text_spec(*self),
    {
        let mut s = String::new();
        push_date(&mut s, self.year, self.month, self.day);
        push_char(&mut s, 'T');
        push_padded(&mut s, self.hour as u64, 2);
        push_char(&mut s, ':');
        push_padded(&mut s, self.minute as u64, 2);
        push_char(&mut s, ':');
        let (sec, nano) = if self.nanos >= 1_000_000_000 {
            (self.second + 1, self.nanos - 1_000_000_000)
        } else {
            (self.second, self.nanos)
        };
        push_padded(&mut s, sec as u64, 2);
        if nano == 0 {
        } else if nano % 1_000_000 == 0 {
            push_char(&mut s, '.');
            push_padded(&mut s, (nano / 1_000_000) as u64, 3);
        } else if nano % 1_000 == 0 {
            push_char(&mut s, '.');
            push_padded(&mut s, (nano / 1_000) as u64, 6);
        } else {
            push_char(&mut s, '.');
            push_padded(&mut s, nano as u64, 9);
        }
        push_char(&mut s, 'Z');
        assert(s@ =~= stamp_text_spec(*self));
        s
    }
}

impl BucketKey {
    /// The key as it appears in file names: `YYYY-MM-DD_HHZ`.
    pub fn text(&self) -> (r: String)
        ensures
            r@ == key_text(*self),
    {
        let mut s = String::new();
        push_date(&mut s, self.year, self.month, self.day);
        push_char(&mut s, '_');
        push_padded(&mut s, self.hour as u64, 2);
        push_char(&mut s, 'Z');
        assert(s@ =~= key_text(*self));
        s
    }
}

/// A year in four digits, with a sign when it lies outside 0 to 9999.
pub open spec fn year_text(y: int) -> Seq<char> {
    if 0 <= y <= 9999 {
        padded(y as nat, 4)
    } else if y > 9999 {
        seq!['+'] + padded(y as nat, 4)
    } else {
        seq!['-'] + padded((-y) as nat, 4)
    }
}

/// `YYYY-MM-DD`.
pub open spec fn date_text(y: int, m: nat, d: nat) -> Seq<char> {
    year_text(y) + seq!['-'] + padded(m, 2) + seq!['-'] + padded(d, 2)
}

/// `YYYY-MM-DD_HHZ`.
pub open spec fn key_text(k: BucketKey) -> Seq<char> {
    date_text(k.year as int, k.month as nat, k.day as nat) + seq!['_'] + padded(k.hour as nat, 2)
        + seq!['Z']
}

/// The fraction of a second: none when whole, else three, six or nine digits,
/// the fewest that hold it exactly.
pub open spec fn fraction_text(nano: nat) -> Seq<char> {
    if nano == 0 {
        Seq::empty()
    } else if nano % 1_000_000 == 0 {
        seq!['.'] + padded(nano / 1_000_000, 3)
    } else if nano % 1_000 == 0 {
        seq!['.'] + padded(nano / 1_000, 6)
    } else {
        seq!['.'] + padded(nano, 9)
    }
}

/// `YYYY-MM-DDTHH:MM:SS[.fraction]Z`; a leap second shows as second 60.
pub open spec fn stamp_text_spec(t: CaptureTime) -> Seq<char> {
    let leap = t.nanos >= 1_000_000_000;
    let sec: nat = if leap { t.second as nat + 1 } else { t.second as nat };
    let nano: nat = if leap { (t.nanos - 1_000_000_000) as nat } else { t.nanos as nat };
    date_text(t.year as int, t.month as nat, t.day as nat) + seq!['T'] + padded(t.hour as nat, 2)
        + seq![':'] + padded(t.minute as nat, 2) + seq![':'] + padded(sec, 2) + fraction_text(nano)
        + seq!['Z']
}

fn push_date(s: &mut String, year: i32, month: u32, day: u32)
    ensures
        final(s)@ == old(s)@ + date_text(year as int, month as nat, day as nat),
{
    let ghost start = s@;
    if 0 <= year && year <= 9999 {
        push_padded(s, year as u64, 4);
    } else if year > 9999 {
        push_char(s, '+');
        push_padded(s, year as u64, 4);
    } else {
        push_char(s, '-');
        let magnitude: i64 = -(year as i64);
        push_padded(s, magnitude as u64, 4);
    }
    push_char(s, '-');
    push_padded(s, month as u64, 2);
    push_char(s, '-');
    push_padded(s, day as u64, 2);
    assert(s@ =~= start + date_text(year as int, month as nat, day as nat));
}

#[verifier::external_type_specification]
#[verifier::external_body]
pub struct ExSystemTime(std::time::SystemTime);

/// Relies on `SystemTime::now`: the system clock, of which nothing is known.
pub assume_specification[ std::time::SystemTime::now ]() -> std::time::SystemTime;

/// Relies on `SystemTime::duration_since(UNIX_EPOCH)`: `Ok` with how far `t`
/// lies after the epoch, or `Err` with how far it lies before it, each as whole
/// seconds and the nanoseconds of the last partial second (`Duration::as_secs`,
/// `Duration::subsec_nanos`, the latter below one billion).
#[verifier::external_body]
fn distance_from_epoch(t: &std::time::SystemTime) -> (r: Result<(u64, u32), (u64, u32)>)
    ensures
        match r {
            Ok((_, n)) => n < 1_000_000_000,
            Err((_, n)) => n < 1_000_000_000,
        },
{
    match t.duration_since(std::time::UNIX_EPOCH) {
        Ok(d) => Ok((d.as_secs(), d.subsec_nanos())),
        Err(e) => Err((e.duration().as_secs(), e.duration().subsec_nanos())),
    }
}

/// A distance from the epoch (`Ok`: after it, `Err`: before it) as a Unix
/// timestamp: seconds, rounded down, and the nanoseconds past them.
pub open spec fn unix_time_spec(d: Result<(u64, u32), (u64, u32)>) -> Option<(int, int)> {
    match d {
        Ok((s, n)) => Some((s as int, n as int)),
        Err((s, n)) => if n == 0 {
            Some((-s, 0))
        } else {
            Some((-s - 1, 1_000_000_000 - n))
        },
    }
}

/// The Unix timestamp of a distance from the epoch; `None` when the seconds do
/// not fit in an `i64`.
pub fn unix_time(d: Result<(u64, u32), (u64, u32)>) -> (r: Option<(i64, u32)>)
    requires
        match d {
            Ok((_, n)) => n < 1_000_000_000,
            Err((_, n)) => n < 1_000_000_000,
        },
    ensures
        r is None <==> match d {
            Ok((s, _)) => s > i64::MAX,
            Err((s, _)) => s > i64::MAX,
        },
        r matches Some((s, n)) ==> unix_time_spec(d) == Some((s as int, n as int)),
{
    match d {
        Ok((s, n)) => {
            if s > i64::MAX as u64 {
                None
            } else {
                Some((s as i64, n))
            }
        },
        Err((s, n)) => {
            if s > i64::MAX as u64 {
                None
            } else if n == 0 {
                Some((-(s as i64), 0))
            } else {
                Some((-(s as i64) - 1, 1_000_000_000 - n))
            }
        },
    }
}

/// Relies on chrono's `DateTime::<Utc>::from_timestamp`, which gives `None` for
/// timestamps it cannot represent, and on its `Datelike` / `Timelike`
/// accessors, which document the ranges of month, day, hour, minute, second
/// and nanosecond.
#[verifier::external_body]
fn utc_fields(secs: i64, nanos: u32) -> (r: Option<CaptureTime>)
    ensures
        r matches Some(t) ==> t.wf(),
{
    match chrono::DateTime::from_timestamp(secs, nanos) {
        Some(t) => Some(CaptureTime {
            year: t.year(),
            month: t.month(),
            day: t.day(),
            hour: t.hour(),
            minute: t.minute(),
            second: t.second(),
            nanos: t.nanosecond(),
        }),
        None => None,
    }
}

/// The time now, from the system clock; `None` when the clock reads a time
/// that cannot be represented.
pub fn capture_now() -> (r: Option<CaptureTime>)
    ensures
        r matches Some(t) ==> t.wf(),
{
    let now = std::time::SystemTime::now();
    let d = distance_from_epoch(&now);
    match unix_time(d) {
        Some((secs, nanos)) => utc_fields(secs, nanos),
        None => None,
    }
}

} // verus!
