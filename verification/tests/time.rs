use hrc_cli::enrol::invite_store_name;
use hrc_cli::time::{
    civil_from_days, days_from_civil, expiry_from, parse_lifetime, rfc3339_from, time_from_rfc3339,
};

#[test]
fn a_lifetime_resolves_to_an_absolute_expiry() {
    assert_eq!(
        expiry_from("2026-09-13T00:00:00Z", "24h").unwrap(),
        "2026-09-14T00:00:00Z"
    );
    assert_eq!(
        expiry_from("2026-09-13T23:30:00Z", "30m").unwrap(),
        "2026-09-14T00:00:00Z"
    );
    assert_eq!(
        expiry_from("2026-09-13T00:00:00Z", "7d").unwrap(),
        "2026-09-20T00:00:00Z"
    );
}

#[test]
fn a_duration_is_never_stored_as_if_it_were_a_timestamp() {
    let resolved = expiry_from("2026-09-13T00:00:00Z", "24h").unwrap();

    assert!(resolved.starts_with("2026-"), "{resolved}");
    assert!(resolved.ends_with('Z'));
}

#[test]
fn month_and_year_boundaries_are_handled() {
    assert_eq!(
        expiry_from("2026-01-31T12:00:00Z", "1d").unwrap(),
        "2026-02-01T12:00:00Z"
    );
    assert_eq!(
        expiry_from("2026-12-31T23:00:00Z", "2h").unwrap(),
        "2027-01-01T01:00:00Z"
    );
    assert_eq!(
        expiry_from("2028-02-28T00:00:00Z", "1d").unwrap(),
        "2028-02-29T00:00:00Z"
    );
}

#[test]
fn a_timestamp_round_trips_through_both_directions() {
    for stamp in [
        "1970-01-01T00:00:00Z",
        "2000-02-29T12:34:56Z",
        "2026-09-13T07:08:09Z",
        "2100-03-01T00:00:00Z",
    ] {
        let seconds = time_from_rfc3339(stamp).expect(stamp);
        assert_eq!(rfc3339_from(seconds), stamp);
    }
}

#[test]
fn a_lifetime_that_is_not_one_is_refused() {
    for bad in ["", "h", "0h", "-1h", "24", "24y", "twenty4h", "24 h"] {
        assert!(
            expiry_from("2026-09-13T00:00:00Z", bad).is_err(),
            "{bad:?} was accepted"
        );
    }
}

#[test]
fn only_the_timestamp_shape_this_project_emits_is_parsed() {
    for bad in [
        "2026-09-13T00:00:00+02:00",
        "2026-09-13T00:00:00.500Z",
        "2026-09-13 00:00:00Z",
        "2026-09-13",
    ] {
        assert!(time_from_rfc3339(bad).is_none(), "{bad:?} was parsed");
    }
}

#[test]
fn an_invite_store_name_cannot_escape_the_store() {
    let name = invite_store_name("iFeQifaw9tVbdMRboDaYqg");

    assert!(!name.contains('/'));
    assert!(!name.contains('\\'));
    assert!(!name.contains(".."));
    assert!(name.starts_with("invite-"));
}

#[test]
fn the_epoch_is_day_zero_and_dates_map_both_ways() {
    assert_eq!(days_from_civil(1970, 1, 1), 0);
    assert_eq!(days_from_civil(2000, 3, 1), 11017);
    assert_eq!(civil_from_days(11017), (2000, 3, 1));
    assert_eq!(civil_from_days(-1), (1969, 12, 31));
    assert_eq!(days_from_civil(1969, 12, 31), -1);
}

#[test]
fn lifetimes_are_counted_in_seconds() {
    assert_eq!(parse_lifetime("30m"), Some(1800));
    assert_eq!(parse_lifetime(" 24h "), Some(86_400));
    assert_eq!(parse_lifetime("7d"), Some(604_800));
    assert_eq!(parse_lifetime("10s"), None);
    assert_eq!(parse_lifetime("+5m"), Some(300));
}

#[test]
fn an_expiry_from_a_malformed_now_names_the_now() {
    let error = expiry_from("yesterday", "1h").unwrap_err();
    assert_eq!(error.code(), "invalid_lifetime");
    assert!(error.message().contains("yesterday"), "{}", error.message());
}

#[test]
fn a_stamp_is_written_in_the_one_shape_it_is_read() {
    assert_eq!(rfc3339_from(0), "1970-01-01T00:00:00Z");
    assert_eq!(rfc3339_from(951_827_696), "2000-02-29T12:34:56Z");
    assert_eq!(time_from_rfc3339("2000-02-29T01:00:00Z"), Some(951_786_000));
    assert_eq!(time_from_rfc3339("0000-01-01T00:00:00Z"), Some(-62_167_219_200));
    assert_eq!(time_from_rfc3339("9999-12-31T23:59:59Z"), Some(253_402_300_799));
    assert_eq!(rfc3339_from(253_402_300_799), "9999-12-31T23:59:59Z");
}

#[test]
fn every_separator_digit_and_range_is_checked() {
    for bad in [
        "2026-09/13T00:00:00Z",
        "2026-09-13T00x00x00Z",
        "2000-02-30T00:00:00Z",
        "2001-02-29T00:00:00Z",
        "2000-02-29T+1:00:00Z",
        "2026-13-01T00:00:00Z",
        "2026-00-01T00:00:00Z",
        "2026-09-00T00:00:00Z",
        "2026-09-13T24:00:00Z",
        "2026-09-13T00:60:00Z",
        "2026-09-13T00:00:60Z",
        "+026-09-13T00:00:00Z",
        "2026-09-13T00:00:0\u{e9}Z",
    ] {
        assert!(time_from_rfc3339(bad).is_none(), "{bad:?} was parsed");
    }
    assert!(time_from_rfc3339("2000-02-29T23:59:59Z").is_some());
}

#[test]
fn a_caller_can_tell_which_lifetimes_can_be_read() {
    assert!(hrc_cli::time::lifetime_readable("24h"));
    assert!(hrc_cli::time::lifetime_readable(""));
    assert!(hrc_cli::time::lifetime_readable("twenty4h"));
    assert!(!hrc_cli::time::lifetime_readable("24\u{e9}"));
    assert!(!hrc_cli::time::lifetime_readable("9223372036854775807d"));
    assert!(hrc_cli::time::lifetime_readable("106751991167300d"));
    assert!(!hrc_cli::time::lifetime_readable("106751991167301d"));
}
