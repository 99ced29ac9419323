use astrid_capsule::calendar::{civil_from_days, today_date_string};

#[test]
fn civil_from_days_epoch() {
    // Day 0 since Unix epoch is 1970-01-01.
    assert_eq!(civil_from_days(0), (1970, 1, 1));
}

#[test]
fn civil_from_days_known_dates() {
    // A leap-day, a month boundary, a year boundary, a far-future date.
    assert_eq!(civil_from_days(59), (1970, 3, 1)); // 1970-03-01 (Jan + Feb = 59 days)
    assert_eq!(civil_from_days(365), (1971, 1, 1)); // 1970 has 365 days
    assert_eq!(civil_from_days(11_016), (2000, 2, 29)); // Y2K leap day
    assert_eq!(civil_from_days(20_564), (2026, 4, 21)); // issue-reference date
}

#[test]
fn today_date_string_matches_civil_from_days() {
    // Cross-check the format: the string must match `civil_from_days`
    // applied to the same epoch-seconds value.
    let secs = std::time::SystemTime::now()
        .duration_since(std::time::UNIX_EPOCH)
        .unwrap()
        .as_secs();
    let days = secs / 86400;
    let (y, m, d) = civil_from_days(days as i64);
    assert_eq!(today_date_string(secs), format!("{y:04}-{m:02}-{d:02}"));
}

#[test]
fn dates_before_the_epoch_and_around_centuries() {
    assert_eq!(civil_from_days(-1), (1969, 12, 31));
    assert_eq!(civil_from_days(-719_468), (0, 3, 1));
    assert_eq!(civil_from_days(-719_469), (0, 2, 29));
    assert_eq!(civil_from_days(-25_509), (1900, 2, 28));
    assert_eq!(civil_from_days(-25_508), (1900, 3, 1));
    assert_eq!(civil_from_days(47_540), (2100, 2, 28));
    assert_eq!(civil_from_days(47_541), (2100, 3, 1));
}

#[test]
fn date_strings_are_padded() {
    assert_eq!(today_date_string(0), "1970-01-01");
    assert_eq!(today_date_string(86_399), "1970-01-01");
    assert_eq!(today_date_string(86_400), "1970-01-02");
    assert_eq!(today_date_string(951_782_400), "2000-02-29");
    assert_eq!(today_date_string(253_402_300_800), "10000-01-01");
}
