use fdf::size_filter::{ParseSizeError, SizeFilter};
use fdf::time_filter::{ParseTimeError, TimeFilter, Timestamp};
use std::time::{Duration, SystemTime, UNIX_EPOCH};

#[test]
fn test_size_filter_from_string() {
    assert_eq!(SizeFilter::from_string("100"), Ok(SizeFilter::Equals(100)));
    assert_eq!(SizeFilter::from_string("+100"), Ok(SizeFilter::Min(100)));
    assert_eq!(SizeFilter::from_string("-100"), Ok(SizeFilter::Max(100)));

    assert_eq!(SizeFilter::from_string("1k"), Ok(SizeFilter::Equals(1000)));
    assert_eq!(SizeFilter::from_string("1kb"), Ok(SizeFilter::Equals(1000)));
    assert_eq!(SizeFilter::from_string("1ki"), Ok(SizeFilter::Equals(1024)));
    assert_eq!(
        SizeFilter::from_string("1kib"),
        Ok(SizeFilter::Equals(1024))
    );

    assert_eq!(
        SizeFilter::from_string("1m"),
        Ok(SizeFilter::Equals(1_000_000))
    );
    assert_eq!(
        SizeFilter::from_string("1mb"),
        Ok(SizeFilter::Equals(1_000_000))
    );
    assert_eq!(
        SizeFilter::from_string("1mi"),
        Ok(SizeFilter::Equals(1_048_576))
    );
    assert_eq!(
        SizeFilter::from_string("1mib"),
        Ok(SizeFilter::Equals(1_048_576))
    );

    assert_eq!(
        SizeFilter::from_string("1g"),
        Ok(SizeFilter::Equals(1_000_000_000))
    );
    assert_eq!(
        SizeFilter::from_string("1gb"),
        Ok(SizeFilter::Equals(1_000_000_000))
    );
    assert_eq!(
        SizeFilter::from_string("1gi"),
        Ok(SizeFilter::Equals(1_073_741_824))
    );
    assert_eq!(
        SizeFilter::from_string("1gib"),
        Ok(SizeFilter::Equals(1_073_741_824))
    );

    assert_eq!(
        SizeFilter::from_string("1t"),
        Ok(SizeFilter::Equals(1_000_000_000_000))
    );
    assert_eq!(
        SizeFilter::from_string("1tb"),
        Ok(SizeFilter::Equals(1_000_000_000_000))
    );
    assert_eq!(
        SizeFilter::from_string("1ti"),
        Ok(SizeFilter::Equals(1_099_511_627_776))
    );
    assert_eq!(
        SizeFilter::from_string("1tib"),
        Ok(SizeFilter::Equals(1_099_511_627_776))
    );

    assert_eq!(SizeFilter::from_string("+1k"), Ok(SizeFilter::Min(1000)));
    assert_eq!(
        SizeFilter::from_string("-2m"),
        Ok(SizeFilter::Max(2_000_000))
    );

    assert!(SizeFilter::from_string("abc").is_err());
    assert!(SizeFilter::from_string("").is_err());
    assert!(SizeFilter::from_string("1x").is_err());
}

#[test]
fn size_filter_doc_examples() {
    let filter = SizeFilter::from_string("+1MB").unwrap();
    assert!(filter.is_within_size(2_000_000));
    assert!(!filter.is_within_size(500_000));
    let filter = SizeFilter::from_string("500").unwrap();
    assert!(filter.is_within_size(500));
    assert!(!filter.is_within_size(501));
}

#[test]
fn size_filter_bounds_are_inclusive() {
    assert!(SizeFilter::Max(100).is_within_size(100));
    assert!(!SizeFilter::Max(100).is_within_size(101));
    assert!(SizeFilter::Min(100).is_within_size(100));
    assert!(!SizeFilter::Min(100).is_within_size(99));
    assert!(SizeFilter::Equals(0).is_within_size(0));
}

#[test]
fn size_filter_trims_and_ignores_case() {
    assert_eq!(SizeFilter::from_string("  +2 KiB "), Ok(SizeFilter::Min(2048)));
    assert_eq!(SizeFilter::from_string("3 T"), Ok(SizeFilter::Equals(3_000_000_000_000)));
    assert_eq!(SizeFilter::from_string("+"), Err(ParseSizeError::InvalidNumber));
    assert_eq!(SizeFilter::from_string("k"), Err(ParseSizeError::InvalidNumber));
    assert_eq!(
        SizeFilter::from_string("99999999999999999999"),
        Err(ParseSizeError::InvalidNumber)
    );
}

#[test]
fn size_filter_overflow_is_reported_by_checked_parse() {
    assert_eq!(SizeFilter::checked_from_string("20000000t"), None);
    assert_eq!(
        SizeFilter::checked_from_string("2t"),
        Some(Ok(SizeFilter::Equals(2_000_000_000_000)))
    );
    assert_eq!(
        SizeFilter::checked_from_string("bogus"),
        Some(Err(ParseSizeError::InvalidNumber))
    );
}

#[test]
fn size_error_messages() {
    assert_eq!(ParseSizeError::Empty.to_string(), "empty size string");
    assert_eq!(ParseSizeError::InvalidFormat.to_string(), "invalid format");
    assert_eq!(ParseTimeError::InvalidUnit.to_string(), "invalid time unit");
}

#[test]
fn test_time_filter_from_string_basic() {
    assert!(TimeFilter::from_string("1s").is_ok());
    assert!(TimeFilter::from_string("30m").is_ok());
    assert!(TimeFilter::from_string("1h").is_ok());
    assert!(TimeFilter::from_string("2d").is_ok());
    assert!(TimeFilter::from_string("1w").is_ok());
    assert!(TimeFilter::from_string("1y").is_ok());

    assert!(TimeFilter::from_string("-1h").is_ok());
    assert!(TimeFilter::from_string("+2d").is_ok());

    assert!(TimeFilter::from_string("2d..1d").is_ok());
    assert!(TimeFilter::from_string("1w..2d").is_ok());

    assert!(TimeFilter::from_string("").is_err());
    assert!(TimeFilter::from_string("abc").is_err());
    assert!(TimeFilter::from_string("1x").is_err());
}

#[test]
fn test_time_filter_from_string_units() {
    assert!(TimeFilter::from_string("1sec").is_ok());
    assert!(TimeFilter::from_string("1second").is_ok());
    assert!(TimeFilter::from_string("1seconds").is_ok());

    assert!(TimeFilter::from_string("1min").is_ok());
    assert!(TimeFilter::from_string("1minute").is_ok());
    assert!(TimeFilter::from_string("1minutes").is_ok());

    assert!(TimeFilter::from_string("1hour").is_ok());
    assert!(TimeFilter::from_string("1hours").is_ok());

    assert!(TimeFilter::from_string("1day").is_ok());
    assert!(TimeFilter::from_string("1days").is_ok());

    assert!(TimeFilter::from_string("1week").is_ok());
    assert!(TimeFilter::from_string("1weeks").is_ok());

    assert!(TimeFilter::from_string("1year").is_ok());
    assert!(TimeFilter::from_string("1years").is_ok());
}

#[test]
fn test_time_filter_matches_time() {
    let now = SystemTime::now();
    let one_hour_ago = now - Duration::from_secs(3600);
    let two_hours_ago = now - Duration::from_secs(7200);
    let one_day_ago = now - Duration::from_secs(86400);

    let filter = TimeFilter::from_string("-2h").unwrap();
    assert!(
        filter.matches_time(one_hour_ago),
        "File from 1 hour ago should match filter for last 2 hours"
    );
    assert!(
        !filter.matches_time(one_day_ago),
        "File from 1 day ago should not match filter for last 2 hours"
    );

    let filter = TimeFilter::from_string("+2h").unwrap();
    assert!(
        !filter.matches_time(one_hour_ago),
        "File from 1 hour ago should not match filter for older than 2 hours"
    );
    assert!(
        filter.matches_time(one_day_ago),
        "File from 1 day ago should match filter for older than 2 hours"
    );

    let filter = TimeFilter::from_string("1d..2h").unwrap();
    assert!(
        filter.matches_time(two_hours_ago),
        "File from 2 hours ago should match between filter"
    );
    assert!(
        !filter.matches_time(one_hour_ago),
        "File from 1 hour ago should not match between filter"
    );
    assert!(
        !filter.matches_time(one_day_ago),
        "File from 1 day ago should not match between filter"
    );
}

#[test]
fn test_time_filter_edge_cases() {
    let now = SystemTime::now();

    let filter = TimeFilter::from_string("-1s").unwrap();
    assert!(filter.matches_time(now));

    let very_old = UNIX_EPOCH + Duration::from_secs(946684800);
    let filter = TimeFilter::from_string("+1y").unwrap();
    assert!(
        filter.matches_time(very_old),
        "Very old file should match +1y filter"
    );
}

#[test]
fn time_filter_at_fixed_clock() {
    let now = Timestamp { secs: 1_000_000, nanos: 5 };
    assert_eq!(
        TimeFilter::from_string_at("-1h", now),
        Ok(TimeFilter::After(Timestamp { secs: 996_400, nanos: 5 }))
    );
    assert_eq!(
        TimeFilter::from_string_at("+2 Days", now),
        Ok(TimeFilter::Before(Timestamp { secs: 827_200, nanos: 5 }))
    );
    assert_eq!(
        TimeFilter::from_string_at("30", now),
        Err(ParseTimeError::InvalidFormat)
    );
    // both orders of a range give the same filter
    let a = TimeFilter::from_string_at("1d..2h", now).unwrap();
    let b = TimeFilter::from_string_at("2h..1d", now).unwrap();
    assert_eq!(a, b);
    assert_eq!(
        a,
        TimeFilter::Between(
            Timestamp { secs: 913_600, nanos: 5 },
            Timestamp { secs: 992_800, nanos: 5 }
        )
    );
    assert!(a.matches_timestamp(Timestamp { secs: 950_000, nanos: 0 }));
    assert!(!a.matches_timestamp(Timestamp { secs: 992_800, nanos: 5 }));
}

#[test]
fn time_filter_refuses_times_before_the_earliest_second() {
    let now = Timestamp { secs: i64::MIN + 10, nanos: 0 };
    assert_eq!(
        TimeFilter::from_string_at("-11s", now),
        Err(ParseTimeError::InvalidFormat)
    );
    assert!(TimeFilter::from_string_at("-10s", now).is_ok());
}

#[test]
fn time_filter_overflow_is_reported_by_checked_parse() {
    let now = Timestamp { secs: 0, nanos: 0 };
    assert_eq!(TimeFilter::checked_from_string_at("999999999999999y", now), None);
    assert!(TimeFilter::checked_from_string_at("1y", now).is_some());
}

#[test]
fn timestamps_from_system_times() {
    let t = UNIX_EPOCH + Duration::new(12, 250);
    assert_eq!(Timestamp::from_system_time(t), Some(Timestamp { secs: 12, nanos: 250 }));
    let early = UNIX_EPOCH - Duration::new(3, 250);
    assert_eq!(
        Timestamp::from_system_time(early),
        Some(Timestamp { secs: -4, nanos: 999_999_750 })
    );
    assert_eq!(
        Timestamp::from_epoch_offset(true, 5, 0),
        Some(Timestamp { secs: -5, nanos: 0 })
    );
    assert_eq!(Timestamp::from_epoch_offset(false, u64::MAX, 0), None);
}

#[test]
fn size_filter_matches_a_hundred_bytes() {
    let len = 100u64;
    assert!(SizeFilter::Equals(100).is_within_size(len));
    assert!(SizeFilter::Min(99).is_within_size(len));
    assert!(SizeFilter::Min(100).is_within_size(len));
    assert!(!SizeFilter::Min(101).is_within_size(len));
    assert!(SizeFilter::Max(101).is_within_size(len));
    assert!(SizeFilter::Max(100).is_within_size(len));
    assert!(!SizeFilter::Max(99).is_within_size(len));
}

#[test]
fn time_filter_between_a_day_and_six_hours_ago() {
    let filter = TimeFilter::from_string("1d..6h").unwrap();
    let now = SystemTime::now();
    assert!(filter.matches_time(now - Duration::from_secs(12 * 3600)));
    assert!(!filter.matches_time(now - Duration::from_secs(3600)));
    assert!(!filter.matches_time(now - Duration::from_secs(2 * 86400)));
}

#[test]
fn test_size_filter_edge_zero_and_large() {
    let len: u64 = 0;
    assert!(SizeFilter::Equals(0).is_within_size(len));
    assert!(!SizeFilter::Min(10_000_000).is_within_size(len));
}

#[test]
fn size_filter_errors_and_equals_prefix() {
    assert_eq!(SizeFilter::from_string(""), Err(ParseSizeError::Empty));
    assert_eq!(SizeFilter::from_string("   "), Err(ParseSizeError::Empty));
    assert_eq!(SizeFilter::from_string("1x"), Err(ParseSizeError::InvalidUnit));
    assert_eq!(SizeFilter::from_string("=100"), Ok(SizeFilter::Equals(100)));
    assert_eq!(SizeFilter::from_string("=2k"), Ok(SizeFilter::Equals(2000)));
    assert_eq!(SizeFilter::from_string("="), Err(ParseSizeError::InvalidNumber));
}

#[test]
fn range_ends_in_either_order_give_one_filter() {
    let now = Timestamp { secs: 1_000_000, nanos: 0 };
    let a = TimeFilter::from_string_at("1d..2h", now);
    let b = TimeFilter::from_string_at("2h..1d", now);
    assert_eq!(a, b);
    assert_eq!(
        a,
        Ok(TimeFilter::Between(
            Timestamp { secs: 1_000_000 - 86_400, nanos: 0 },
            Timestamp { secs: 1_000_000 - 7_200, nanos: 0 },
        ))
    );
}
