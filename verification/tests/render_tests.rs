use repo_sql::{Date, DateTime, RepoValue, Time};

#[test]
fn render_null() {
    assert_eq!(RepoValue::Null.render(), "NULL");
}

#[test]
fn render_integers() {
    assert_eq!(RepoValue::Int(0).render(), "0");
    assert_eq!(RepoValue::Int(42).render(), "42");
    assert_eq!(RepoValue::Int(-42).render(), "-42");
    assert_eq!(RepoValue::Int(i64::MAX).render(), "9223372036854775807");
    assert_eq!(RepoValue::Int(i64::MIN).render(), "-9223372036854775808");
    assert_eq!(RepoValue::UInt(0).render(), "0");
    assert_eq!(RepoValue::UInt(u64::MAX).render(), "18446744073709551615");
}

#[test]
fn render_strings() {
    assert_eq!(RepoValue::Str("abc").render(), "'abc'");
    assert_eq!(RepoValue::OwnedString(String::from("x y")).render(), "'x y'");
    assert_eq!(RepoValue::Str("").render(), "''");
}

#[test]
fn render_bytes_as_hex() {
    assert_eq!(RepoValue::Bytes(vec![0x00, 0xff, 0x1a]).render(), "0x00ff1a");
    assert_eq!(RepoValue::Bytes(Vec::new()).render(), "0x");
}

#[test]
fn render_temporal_values() {
    let date = Date::new(2024, 7, 8).unwrap();
    let time = Time::new(9, 5, 3).unwrap();
    assert_eq!(RepoValue::Date(date).render(), "'2024-07-08'");
    assert_eq!(RepoValue::Time(time).render(), "'09:05:03'");
    assert_eq!(RepoValue::DateTime(DateTime::new(date, time)).render(), "'2024-07-08 09:05:03'");
}

#[test]
fn date_and_time_reject_out_of_range_parts() {
    assert!(Date::new(10000, 1, 1).is_none());
    assert!(Date::new(2024, 0, 1).is_none());
    assert!(Date::new(2024, 13, 1).is_none());
    assert!(Date::new(2024, 1, 0).is_none());
    assert!(Date::new(2024, 1, 32).is_none());
    assert!(Time::new(24, 0, 0).is_none());
    assert!(Time::new(0, 60, 0).is_none());
    assert!(Time::new(0, 0, 60).is_none());
    let d = Date::new(9999, 12, 31).unwrap();
    assert_eq!((d.year(), d.month(), d.day()), (9999, 12, 31));
    let t = Time::new(23, 59, 59).unwrap();
    assert_eq!((t.hour(), t.minute(), t.second()), (23, 59, 59));
}

#[test]
fn equality_is_variant_sensitive() {
    assert_ne!(RepoValue::Int(1), RepoValue::UInt(1));
    assert_ne!(RepoValue::Str("a"), RepoValue::OwnedString(String::from("a")));
    assert_eq!(RepoValue::Str("a"), RepoValue::Str("a"));
    assert_ne!(RepoValue::Str("a"), RepoValue::Str("b"));
    assert_eq!(
        RepoValue::OwnedString(String::from("ab")),
        RepoValue::OwnedString(String::from("ab"))
    );
    assert_eq!(RepoValue::Bytes(vec![1, 2]), RepoValue::Bytes(vec![1, 2]));
    assert_ne!(RepoValue::Bytes(vec![1, 2]), RepoValue::Bytes(vec![1, 3]));
    assert_ne!(RepoValue::Bytes(vec![1, 2]), RepoValue::Bytes(vec![1, 2, 3]));
    assert_ne!(RepoValue::Null, RepoValue::Int(0));
}

#[test]
fn conversions_choose_the_documented_variant() {
    assert_eq!(RepoValue::from(true), RepoValue::Int(1));
    assert_eq!(RepoValue::from(false), RepoValue::Int(0));
    assert_eq!(RepoValue::from(-5i32), RepoValue::Int(-5));
    assert_eq!(RepoValue::from(-5i64), RepoValue::Int(-5));
    assert_eq!(RepoValue::from(5u8), RepoValue::UInt(5));
    assert_eq!(RepoValue::from(5u16), RepoValue::UInt(5));
    assert_eq!(RepoValue::from(5u32), RepoValue::UInt(5));
    assert_eq!(RepoValue::from(5u64), RepoValue::UInt(5));
    assert_eq!(RepoValue::from("s"), RepoValue::Str("s"));
    assert_eq!(RepoValue::from(String::from("t")), RepoValue::OwnedString(String::from("t")));
    assert_eq!(RepoValue::from(vec![9u8]), RepoValue::Bytes(vec![9]));
    let date = Date::new(2020, 1, 2).unwrap();
    assert_eq!(RepoValue::from(date), RepoValue::Date(date));
    assert_eq!(RepoValue::from_option(Some(RepoValue::Int(3))), RepoValue::Int(3));
    assert_eq!(RepoValue::from_option(None), RepoValue::Null);
}

#[test]
fn int_render_parse_round_trip() {
    for n in [0i64, 5, -5, 1000000007, i64::MAX, i64::MIN] {
        let rendered = RepoValue::Int(n).render();
        assert_eq!(RepoValue::parse_int(&rendered), Some(RepoValue::Int(n)));
    }
}

#[test]
fn uint_render_parse_round_trip() {
    for n in [0u64, 7, 4294967296, u64::MAX] {
        let rendered = RepoValue::UInt(n).render();
        assert_eq!(RepoValue::parse_uint(&rendered), Some(RepoValue::UInt(n)));
    }
}

#[test]
fn parse_rejects_malformed_and_overflowing_text() {
    assert_eq!(RepoValue::parse_int(""), None);
    assert_eq!(RepoValue::parse_int("-"), None);
    assert_eq!(RepoValue::parse_int("12x"), None);
    assert_eq!(RepoValue::parse_int("9223372036854775808"), None);
    assert_eq!(RepoValue::parse_int("-9223372036854775809"), None);
    assert_eq!(RepoValue::parse_uint(""), None);
    assert_eq!(RepoValue::parse_uint("-1"), None);
    assert_eq!(RepoValue::parse_uint("18446744073709551616"), None);
}

#[test]
fn temporal_rendering_zero_pads_every_part() {
    let date = Date::new(1, 1, 1).unwrap();
    let time = Time::new(0, 0, 0).unwrap();
    assert_eq!(RepoValue::Date(date).render(), "'0001-01-01'");
    assert_eq!(RepoValue::Time(time).render(), "'00:00:00'");
}

#[test]
fn parse_accepts_leading_zeros() {
    assert_eq!(RepoValue::parse_uint("007"), Some(RepoValue::UInt(7)));
    assert_eq!(RepoValue::parse_int("-007"), Some(RepoValue::Int(-7)));
}
