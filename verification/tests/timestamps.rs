use session_logs::json::JsonLite;
use session_logs::timestamp::parse_timestamp_ms;

#[test]
fn seconds_below_threshold_scale_by_thousand() {
    assert_eq!(parse_timestamp_ms(&JsonLite::Int(5)), Some(5000));
    assert_eq!(parse_timestamp_ms(&JsonLite::Int(0)), Some(0));
    assert_eq!(parse_timestamp_ms(&JsonLite::Int(1_704_067_200)), Some(1_704_067_200_000));
    assert_eq!(
        parse_timestamp_ms(&JsonLite::Int(999_999_999_999)),
        Some(999_999_999_999_000)
    );
    assert_eq!(parse_timestamp_ms(&JsonLite::Int(-5)), Some(-5000));
}

#[test]
fn milliseconds_at_or_above_threshold_pass_through() {
    assert_eq!(
        parse_timestamp_ms(&JsonLite::Int(1_000_000_000_000)),
        Some(1_000_000_000_000)
    );
    assert_eq!(
        parse_timestamp_ms(&JsonLite::Int(1_704_067_500_000)),
        Some(1_704_067_500_000)
    );
    assert_eq!(
        parse_timestamp_ms(&JsonLite::Int(-1_000_000_000_000)),
        Some(-1_000_000_000_000)
    );
}

#[test]
fn rfc3339_strings_convert_to_epoch_millis() {
    let t = |s: &str| parse_timestamp_ms(&JsonLite::Text(String::from(s)));
    assert_eq!(t("1970-01-01T00:00:00Z"), Some(0));
    assert_eq!(t("2024-01-01T00:00:00Z"), Some(1_704_067_200_000));
    assert_eq!(t("2024-01-01T00:05:00Z"), Some(1_704_067_500_000));
    assert_eq!(t("2024-01-01T01:00:00+01:00"), Some(1_704_067_200_000));
    assert_eq!(t("2024-01-01T00:00:00.500Z"), Some(1_704_067_200_500));
}

#[test]
fn unparsable_strings_yield_none() {
    let t = |s: &str| parse_timestamp_ms(&JsonLite::Text(String::from(s)));
    assert_eq!(t("not a date"), None);
    assert_eq!(t(""), None);
    assert_eq!(t("2024-01-01"), None);
    assert_eq!(t("2024-01-01T00:00:00"), None);
}

#[test]
fn other_shapes_yield_none() {
    assert_eq!(parse_timestamp_ms(&JsonLite::Null), None);
    assert_eq!(parse_timestamp_ms(&JsonLite::Other), None);
    assert_eq!(parse_timestamp_ms(&JsonLite::Array(vec![])), None);
    assert_eq!(parse_timestamp_ms(&JsonLite::Object(vec![])), None);
}
