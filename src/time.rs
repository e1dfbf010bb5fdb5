use crate::format::Format;
use chrono::{DateTime, Local, Utc};
use vstd::arithmetic::div_mod::{lemma_fundamental_div_mod, lemma_fundamental_div_mod_converse};
use vstd::prelude::*;

verus! {

/// The earliest second that chrono's `DateTime<Utc>` can hold
/// (-262143-01-01T00:00:00Z), counted from the Unix epoch.
pub const MIN_UTC_SECS: i64 = -8_334_601_228_800;

/// The latest second that chrono's `DateTime<Utc>` can hold
/// (+262142-12-31T23:59:59Z), counted from the Unix epoch.
pub const MAX_UTC_SECS: i64 = 8_210_266_876_799;

pub const NANOS_PER_SEC: u32 = 1_000_000_000;

/// Whether a whole second since the epoch lies in the range of `DateTime<Utc>`.
pub open spec fn utc_secs_in_range(secs: int) -> bool {
    MIN_UTC_SECS <= secs <= MAX_UTC_SECS
}

/// A point on the UTC time line: whole seconds since the Unix epoch, rounded
/// toward negative infinity, and the nanoseconds past that second.
#[derive(Clone, Copy, Debug, PartialEq, Eq, Structural)]
pub struct UtcTime {
    pub secs: i64,
    pub nanos: u32,
}

impl UtcTime {
    pub open spec fn wf(self) -> bool {
        &&& utc_secs_in_range(self.secs as int)
        &&& self.nanos < NANOS_PER_SEC
    }

    /// Nanoseconds since the Unix epoch.
    pub open spec fn total_nanos(self) -> int {
        self.secs * 1_000_000_000 + self.nanos
    }

    /// Whole milliseconds since the Unix epoch, rounded toward negative infinity.
    pub open spec fn millis_spec(self) -> int {
        self.secs * 1000 + self.nanos / 1_000_000
    }

    /// Whole milliseconds since the Unix epoch (chrono's `timestamp_millis`).
    pub fn unix_millis(&self) -> (r: i64)
        requires
            self.wf(),
        ensures
            r == self.millis_spec(),
    {
        self.secs * 1000 + (self.nanos / 1_000_000) as i64
    }
}

/// Why a timestamp could not be decoded.
#[derive(Clone, Copy, Debug, PartialEq, Eq, Structural)]
pub enum DecodeError {
    /// The value, read in the unit, falls outside the range of `DateTime<Utc>`.
    OutOfRange { value: i64, format: Format },
}

/// What decoding `value` counted in `format` yields: the instant
/// `value * nanos_per_unit` nanoseconds after the epoch, when its second is in range.
pub open spec fn decode_spec(value: i64, format: Format) -> Result<UtcTime, DecodeError> {
    let n = value * format.nanos_per_unit();
    let secs = n / 1_000_000_000;
    if utc_secs_in_range(secs) {
        Ok(UtcTime { secs: secs as i64, nanos: (n % 1_000_000_000) as u32 })
    } else {
        Err(DecodeError::OutOfRange { value, format })
    }
}

/// Relies on `DateTime::<Utc>::from_timestamp`, read back through `timestamp`
/// and `timestamp_subsec_nanos`: with a nanosecond part under one second it
/// succeeds exactly on the seconds from `MIN_UTC_SECS` to `MAX_UTC_SECS`, and
/// round-trips both parts.
#[verifier::external_body]
fn utc_from_timestamp(secs: i64, nsecs: u32) -> (r: Option<UtcTime>)
    ensures
        nsecs < NANOS_PER_SEC ==> (r is Some <==> utc_secs_in_range(secs as int)),
        r matches Some(t) ==> t.secs == secs && t.nanos == nsecs,
{
    DateTime::<Utc>::from_timestamp(secs, nsecs).map(
        |d| UtcTime { secs: d.timestamp(), nanos: d.timestamp_subsec_nanos() },
    )
}

/// Relies on `DateTime::<Utc>::from_timestamp_millis`: it splits the count with
/// `div_euclid` / `rem_euclid` by 1000 and hands the parts to `from_timestamp`.
#[verifier::external_body]
fn utc_from_timestamp_millis(millis: i64) -> (r: Option<UtcTime>)
    ensures
        r is Some <==> utc_secs_in_range(millis / 1000),
        r matches Some(t) ==> t.secs == millis / 1000 && t.nanos == (millis % 1000) * 1_000_000,
{
    DateTime::<Utc>::from_timestamp_millis(millis).map(
        |d| UtcTime { secs: d.timestamp(), nanos: d.timestamp_subsec_nanos() },
    )
}

/// Relies on `DateTime::<Utc>::from_timestamp_micros`: it splits the count with
/// `div_euclid` / `rem_euclid` by 1_000_000 and hands the parts to `from_timestamp`.
#[verifier::external_body]
fn utc_from_timestamp_micros(micros: i64) -> (r: Option<UtcTime>)
    ensures
        r is Some <==> utc_secs_in_range(micros / 1_000_000),
        r matches Some(t) ==> t.secs == micros / 1_000_000 && t.nanos == (micros % 1_000_000)
            * 1000,
{
    DateTime::<Utc>::from_timestamp_micros(micros).map(
        |d| UtcTime { secs: d.timestamp(), nanos: d.timestamp_subsec_nanos() },
    )
}

/// Relies on `DateTime::<Utc>::from_timestamp_nanos`: it splits the count with
/// `div_euclid` / `rem_euclid` by 10^9 and never fails.
#[verifier::external_body]
fn utc_from_timestamp_nanos(nanos: i64) -> (r: UtcTime)
    ensures
        r.secs == nanos / 1_000_000_000,
        r.nanos == nanos % 1_000_000_000,
{
    let d = DateTime::<Utc>::from_timestamp_nanos(nanos);
    UtcTime { secs: d.timestamp(), nanos: d.timestamp_subsec_nanos() }
}

/// Scaling a count of `per`-sized units by `k` nanoseconds, with `k * per` one
/// second, splits into the same seconds and sub-second part as the count does.
proof fn lemma_split_scaled(v: int, k: int, per: int)
    requires
        k > 0,
        per > 0,
        k * per == 1_000_000_000,
    ensures
        (v * k) / 1_000_000_000 == v / per,
        (v * k) % 1_000_000_000 == (v % per) * k,
{
    lemma_fundamental_div_mod(v, per);
    let q = v / per;
    let r = v % per;
    assert(0 <= r < per);
    assert(v * k == q * 1_000_000_000 + r * k) by (nonlinear_arith)
        requires
            v == per * q + r,
            k * per == 1_000_000_000,
    ;
    assert(0 <= r * k < 1_000_000_000) by (nonlinear_arith)
        requires
            0 <= r < per,
            k > 0,
            k * per == 1_000_000_000,
    ;
    lemma_fundamental_div_mod_converse(v * k, 1_000_000_000, q, r * k);
}

/// Reads `value` as a count of `format` units since the Unix epoch.
pub fn decode(value: i64, format: Format) -> (r: Result<UtcTime, DecodeError>)
    ensures
        r == decode_spec(value, format),
        r matches Ok(t) ==> t.wf() && t.total_nanos() == value * format.nanos_per_unit(),
        format == Format::Nanoseconds ==> r is Ok,
{
    let ghost v = value as int;
    let t = match format {
        Format::Seconds => {
            proof {
                lemma_split_scaled(v, 1_000_000_000, 1);
            }
            utc_from_timestamp(value, 0)
        },
        Format::Milliseconds => {
            proof {
                lemma_split_scaled(v, 1_000_000, 1000);
            }
            utc_from_timestamp_millis(value)
        },
        Format::Microseconds => {
            proof {
                lemma_split_scaled(v, 1000, 1_000_000);
            }
            utc_from_timestamp_micros(value)
        },
        Format::Nanoseconds => {
            proof {
                lemma_split_scaled(v, 1, 1_000_000_000);
            }
            Some(utc_from_timestamp_nanos(value))
        },
    };
    proof {
        lemma_fundamental_div_mod(v * format.nanos_per_unit(), 1_000_000_000);
    }
    match t {
        Some(t) => Ok(t),
        None => Err(DecodeError::OutOfRange { value, format }),
    }
}

/// Relies on `DateTime::<Utc>::from_timestamp` and the `From` conversion into
/// `DateTime<Local>` (chrono's `with_timezone(&Local)`), read back through
/// `FixedOffset::local_minus_utc`: the host zone's offset at that instant, which
/// `FixedOffset` keeps strictly within one day.
#[verifier::external_body]
fn local_offset_at(secs: i64, nsecs: u32) -> (r: Option<i32>)
    ensures
        nsecs < NANOS_PER_SEC ==> (r is Some <==> utc_secs_in_range(secs as int)),
        r matches Some(o) ==> -86_400 < o < 86_400,
{
    DateTime::<Utc>::from_timestamp(secs, nsecs).map(
        |d| DateTime::<Local>::from(d).offset().local_minus_utc(),
    )
}

/// Relies on `Utc::now`, read back through `timestamp` and
/// `timestamp_subsec_nanos`: it builds the value with `from_timestamp` from the
/// system clock's whole seconds and sub-second nanoseconds, so it is in range.
#[verifier::external_body]
fn clock_now() -> (r: UtcTime)
    ensures
        r.wf(),
{
    let d = Utc::now();
    UtcTime { secs: d.timestamp(), nanos: d.timestamp_subsec_nanos() }
}

/// An instant as seen in the host's time zone: the instant itself and the
/// zone's offset from UTC there.
#[derive(Clone, Copy, Debug, PartialEq, Eq, Structural)]
pub struct LocalTime {
    pub utc: UtcTime,
    /// Seconds to add to UTC to get the local wall-clock time.
    pub offset_secs: i32,
}

/// The views of one instant that a report prints.
#[derive(Clone, Copy, Debug, PartialEq, Eq, Structural)]
pub struct Times {
    pub local: LocalTime,
    pub utc: UtcTime,
    pub unix_s: i64,
    pub unix_ms: i64,
}

impl Times {
    /// Every view describes the same in-range instant.
    pub open spec fn wf(self) -> bool {
        &&& self.utc.wf()
        &&& self.local.utc == self.utc
        &&& -86_400 < self.local.offset_secs < 86_400
        &&& self.unix_s == self.utc.secs
        &&& self.unix_ms == self.utc.millis_spec()
    }

    /// The views of `dt`; the local offset is whatever the host zone has there.
    pub fn new(dt: UtcTime) -> (r: Times)
        requires
            dt.wf(),
        ensures
            r.wf(),
            r.utc == dt,
            r.unix_s == dt.secs,
            r.unix_ms == dt.millis_spec(),
    {
        let offset = match local_offset_at(dt.secs, dt.nanos) {
            Some(o) => o,
            None => {
                proof {
                    assert(false);
                }
                0
            },
        };
        Times {
            local: LocalTime { utc: dt, offset_secs: offset },
            utc: dt,
            unix_s: dt.secs,
            unix_ms: dt.unix_millis(),
        }
    }

    /// The views of the system clock's current time.
    pub fn now() -> (r: Times)
        ensures
            r.wf(),
    {
        Times::new(clock_now())
    }
}

/// Decoding a value and reading back its millisecond count gives the value
/// converted to milliseconds: exactly for seconds and milliseconds, rounded
/// toward negative infinity for the finer units.
pub proof fn lemma_decode_millis_round_trip(value: i64, format: Format)
    requires
        decode_spec(value, format) is Ok,
    ensures
        decode_spec(value, format)->Ok_0.millis_spec() == (value * format.nanos_per_unit())
            / 1_000_000,
        format == Format::Seconds ==> decode_spec(value, format)->Ok_0.millis_spec() == value
            * 1000,
        format == Format::Milliseconds ==> decode_spec(value, format)->Ok_0.millis_spec()
            == value,
{
    let t = decode_spec(value, format)->Ok_0;
    let n = value * format.nanos_per_unit();
    lemma_fundamental_div_mod(n, 1_000_000_000);
    lemma_fundamental_div_mod(t.nanos as int, 1_000_000);
    let q = t.secs * 1000 + (t.nanos as int) / 1_000_000;
    let r = (t.nanos as int) % 1_000_000;
    assert(n == q * 1_000_000 + r);
    lemma_fundamental_div_mod_converse(n, 1_000_000, q, r);
}

} // verus!
