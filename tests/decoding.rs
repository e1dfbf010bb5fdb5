use tsconv::format::Format;
use tsconv::time::{decode, DecodeError, Times, UtcTime, MAX_UTC_SECS, MIN_UTC_SECS};

#[test]
fn symbols_of_each_unit() {
    assert_eq!(Format::Seconds.symbol(), "s");
    assert_eq!(Format::Milliseconds.symbol(), "ms");
    assert_eq!(Format::Microseconds.symbol(), "\u{3bc}s");
    assert_eq!(Format::Nanoseconds.symbol(), "ns");
}

#[test]
fn default_unit_is_seconds() {
    assert_eq!(Format::default(), Format::Seconds);
}

#[test]
fn zero_seconds_is_the_epoch() {
    let t = decode(0, Format::Seconds).unwrap();
    assert_eq!(t, UtcTime { secs: 0, nanos: 0 });
    let times = Times::new(t);
    assert_eq!(times.utc, UtcTime { secs: 0, nanos: 0 });
    assert_eq!(times.unix_s, 0);
    assert_eq!(times.unix_ms, 0);
    assert_eq!(times.local.utc, times.utc);
}

#[test]
fn seconds_scale_to_milliseconds_exactly() {
    let t = decode(1_725_932_348, Format::Seconds).unwrap();
    assert_eq!(t, UtcTime { secs: 1_725_932_348, nanos: 0 });
    let times = Times::new(t);
    assert_eq!(times.unix_s, 1_725_932_348);
    assert_eq!(times.unix_ms, 1_725_932_348_000);
}

#[test]
fn milliseconds_round_trip() {
    let t = decode(1_725_932_348_123, Format::Milliseconds).unwrap();
    assert_eq!(t, UtcTime { secs: 1_725_932_348, nanos: 123_000_000 });
    assert_eq!(Times::new(t).unix_ms, 1_725_932_348_123);
}

#[test]
fn negative_milliseconds_borrow_a_second() {
    let t = decode(-1, Format::Milliseconds).unwrap();
    assert_eq!(t, UtcTime { secs: -1, nanos: 999_000_000 });
    let times = Times::new(t);
    assert_eq!(times.unix_s, -1);
    assert_eq!(times.unix_ms, -1);
}

#[test]
fn microseconds_truncate_to_milliseconds() {
    let t = decode(1_725_932_348_123_456, Format::Microseconds).unwrap();
    assert_eq!(t, UtcTime { secs: 1_725_932_348, nanos: 123_456_000 });
    assert_eq!(Times::new(t).unix_ms, 1_725_932_348_123);
}

#[test]
fn negative_nanoseconds_round_down() {
    let t = decode(-1, Format::Nanoseconds).unwrap();
    assert_eq!(t, UtcTime { secs: -1, nanos: 999_999_999 });
    assert_eq!(Times::new(t).unix_ms, -1);
}

#[test]
fn largest_nanosecond_value_decodes() {
    let t = decode(i64::MAX, Format::Nanoseconds).unwrap();
    assert_eq!(t, UtcTime { secs: 9_223_372_036, nanos: 854_775_807 });
    let t = decode(i64::MIN, Format::Nanoseconds).unwrap();
    assert_eq!(t, UtcTime { secs: -9_223_372_037, nanos: 145_224_192 });
}

#[test]
fn seconds_beyond_the_range_fail() {
    assert_eq!(
        decode(i64::MAX, Format::Seconds),
        Err(DecodeError::OutOfRange { value: i64::MAX, format: Format::Seconds })
    );
    assert_eq!(
        decode(MAX_UTC_SECS + 1, Format::Seconds),
        Err(DecodeError::OutOfRange { value: MAX_UTC_SECS + 1, format: Format::Seconds })
    );
    assert_eq!(
        decode(MIN_UTC_SECS - 1, Format::Seconds),
        Err(DecodeError::OutOfRange { value: MIN_UTC_SECS - 1, format: Format::Seconds })
    );
}

#[test]
fn range_edges_decode() {
    assert_eq!(
        decode(MAX_UTC_SECS, Format::Seconds),
        Ok(UtcTime { secs: MAX_UTC_SECS, nanos: 0 })
    );
    assert_eq!(
        decode(MIN_UTC_SECS, Format::Seconds),
        Ok(UtcTime { secs: MIN_UTC_SECS, nanos: 0 })
    );
}

#[test]
fn milliseconds_and_microseconds_out_of_range_fail() {
    assert_eq!(
        decode(i64::MAX, Format::Milliseconds),
        Err(DecodeError::OutOfRange { value: i64::MAX, format: Format::Milliseconds })
    );
    assert!(decode(i64::MAX, Format::Microseconds).is_err());
    assert!(decode(i64::MIN, Format::Microseconds).is_err());
    assert!(decode(i64::MIN, Format::Milliseconds).is_err());
    assert_eq!(
        decode(8_210_266_876_799_999_999, Format::Microseconds),
        Ok(UtcTime { secs: MAX_UTC_SECS, nanos: 999_999_000 })
    );
    assert!(decode(8_210_266_876_800_000_000, Format::Microseconds).is_err());
}

#[test]
fn unix_millis_of_an_instant() {
    let t = UtcTime { secs: 1_000_000_000, nanos: 555_999_999 };
    assert_eq!(t.unix_millis(), 1_000_000_000_555);
}

#[test]
fn now_is_after_the_epoch() {
    let times = Times::now();
    assert!(times.unix_s > 1_600_000_000);
    assert_eq!(times.unix_s, times.utc.secs);
    assert!(times.utc.nanos < 1_000_000_000);
    assert!(times.local.offset_secs > -86_400 && times.local.offset_secs < 86_400);
}
