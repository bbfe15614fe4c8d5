use chrono_tz::Tz;
use lunais::disruption_time::DisruptionDate;
use lunais::timezone_pair::{parse_tz, InvalidTimezonePair, TimezonePair};
use lunais::zone::CivilDate;

fn date(year: i32, month: u32, day: u32) -> CivilDate {
    CivilDate::from_ymd(year, month, day)
}

#[test]
fn test_try_from() {
    let r = TimezonePair::try_from("UTC/UTC");
    assert_eq!(r.is_ok(), true);

    let r = TimezonePair::try_from("UTC/UTC".to_owned());
    assert_eq!(r.is_ok(), true);
}

#[test]
fn test_parse_tz() {
    // fail
    for testcase in [
        "UTC",
        "UTC/gmt",
        "UTC/GMT/plop",
        "UTC/GMT/America/Paris",
        "UTC/GMT/America/Paris/coin",
        "Asia/////Tokyo/Europe/Berlin",
        "Asia/Tokyo/Europe/Berlin///",
        "//Asia/Tokyo/Europe/Berlin",
    ] {
        let r = parse_tz(testcase.split('/').collect());
        assert_eq!(r, None);
    }

    // ok
    let utc_tz: Tz = "UTC".parse().expect("is hardcoded");
    let gmt_tz: Tz = "GMT".parse().expect("is hardcoded");
    let berlin_tz: Tz = "Europe/Berlin".parse().expect("is hardcoded");
    let newyork_tz: Tz = "America/New_York".parse().expect("is hardcoded");
    let vancouver_tz: Tz = "America/Vancouver".parse().expect("is hardcoded");
    let indianapolis_tz: Tz = "America/Indiana/Indianapolis"
        .parse()
        .expect("is hardcoded");
    let buenos_aires_tz: Tz = "America/Argentina/Buenos_Aires"
        .parse()
        .expect("is hardcoded");

    let r = TimezonePair::try_from("UTC/GMT").unwrap();
    assert_eq!(r.tzs()[0], utc_tz);
    assert_eq!(r.tzs()[1], gmt_tz);

    let r = TimezonePair::try_from("UTC/Europe/Berlin").unwrap();
    assert_eq!(r.tzs()[0], utc_tz);
    assert_eq!(r.tzs()[1], berlin_tz);

    let r = TimezonePair::try_from("America/New_York/UTC").unwrap();
    assert_eq!(r.tzs()[0], newyork_tz);
    assert_eq!(r.tzs()[1], utc_tz);

    let r = TimezonePair::try_from("America/Vancouver/Europe/Berlin").unwrap();
    assert_eq!(r.tzs()[0], vancouver_tz);
    assert_eq!(r.tzs()[1], berlin_tz);

    let r = TimezonePair::try_from("America/Vancouver/America/Indiana/Indianapolis").unwrap();
    assert_eq!(r.tzs()[0], vancouver_tz);
    assert_eq!(r.tzs()[1], indianapolis_tz);

    let r = TimezonePair::try_from("America/Argentina/Buenos_Aires/America/Indiana/Indianapolis")
        .unwrap();
    assert_eq!(r.tzs()[0], buenos_aires_tz);
    assert_eq!(r.tzs()[1], indianapolis_tz);
}

#[test]
fn test_disruption_date() {
    let r = TimezonePair::try_from("America/Vancouver/Europe/Berlin").unwrap();
    let dd = r.get_disruption_dates(2024).unwrap();

    let mut expected_res = Vec::new();
    expected_res.push(DisruptionDate::DSTChaosPeriod(date(2024, 3, 10), date(2024, 3, 31)));
    expected_res.push(DisruptionDate::DSTChaosPeriod(date(2024, 10, 27), date(2024, 11, 3)));

    assert_eq!(dd, expected_res);
}

#[test]
fn test_dst_half_hour() {
    let r = TimezonePair::try_from("Australia/Lord_Howe/Pacific/Norfolk").unwrap();
    let dd = r.get_disruption_dates(2024).unwrap();

    let mut expected_res = Vec::new();
    expected_res.push(DisruptionDate::DSTChaosPeriod(date(2024, 4, 7), date(2024, 10, 6)));

    assert_eq!(dd, expected_res);
}

#[test]
fn test_dst_2_hours_europe() {
    let r = TimezonePair::try_from("Antarctica/Troll/Europe/Paris").unwrap();
    let dd = r.get_disruption_dates(2024).unwrap();

    let mut expected_res = Vec::new();
    expected_res.push(DisruptionDate::DSTChaosPeriod(date(2024, 3, 31), date(2024, 10, 27)));

    assert_eq!(dd, expected_res);
}

#[test]
fn test_dst_2_hours_usa() {
    let r = TimezonePair::try_from("Antarctica/Troll/America/New_York").unwrap();
    let dd = r.get_disruption_dates(2024).unwrap();

    let mut expected_res = Vec::new();
    expected_res.push(DisruptionDate::DSTChaosPeriod(date(2024, 3, 10), date(2024, 11, 3)));

    assert_eq!(dd, expected_res);
}

#[test]
fn test_tz_half_hour_offset() {
    let r = TimezonePair::try_from("Asia/Calcutta/Asia/Karachi").unwrap();
    let dd = r.get_disruption_dates(2008).unwrap();

    let mut expected_res = Vec::new();
    expected_res.push(DisruptionDate::DSTChaosPeriod(date(2008, 6, 1), date(2008, 11, 1)));

    assert_eq!(dd, expected_res);
}

#[test]
fn test_utc_plus_14() {
    let r1 = TimezonePair::try_from("Pacific/Kiritimati/America/Atka").unwrap();
    let r2 = TimezonePair::try_from("America/Atka/Pacific/Kiritimati").unwrap();

    let i = 2025;
    assert_ne!(r1.get_disruption_dates(i).unwrap(), r2.get_disruption_dates(i).unwrap());
}

#[test]
fn test_tz_order() {
    let r1 = TimezonePair::try_from("America/Vancouver/Asia/Tokyo").unwrap();
    let r2 = TimezonePair::try_from("Asia/Tokyo/America/Vancouver").unwrap();

    let i = 2025;
    assert_ne!(r1.get_disruption_dates(i).unwrap(), r2.get_disruption_dates(i).unwrap());

    let r1 = TimezonePair::try_from("America/Vancouver/Europe/Berlin").unwrap();
    let r2 = TimezonePair::try_from("Europe/Berlin/America/Vancouver").unwrap();
    assert_eq!(r1.get_disruption_dates(i).unwrap(), r2.get_disruption_dates(i).unwrap());
}

#[test]
fn parse_keeps_the_order_of_the_zones() {
    let r = TimezonePair::parse("Europe/Berlin/America/Vancouver").unwrap();
    assert_eq!(r.primary().name(), "Europe/Berlin");
    assert_eq!(r.secondary().name(), "America/Vancouver");
}

#[test]
fn parse_reports_invalid_pairs() {
    assert_eq!(TimezonePair::parse("UTC"), Err(InvalidTimezonePair));
    assert_eq!(TimezonePair::parse(""), Err(InvalidTimezonePair));
    assert_eq!(TimezonePair::parse("UTC/GMT/UTC"), Err(InvalidTimezonePair));
    assert_eq!(TimezonePair::try_from("UTC/gmt"), Err(InvalidTimezonePair));
}

#[test]
fn parse_refuses_more_than_six_segments() {
    let r = parse_tz(vec!["UTC", "GMT", "", "", "", "", ""]);
    assert_eq!(r, None);
    let r = parse_tz(vec!["UTC", "GMT"]);
    assert!(r.is_some());
}

#[test]
fn pair_round_trips_through_its_text() {
    for (a, b) in [
        ("UTC", "GMT"),
        ("America/Indiana/Indianapolis", "Europe/Paris"),
        ("Asia/Tokyo", "America/Argentina/Buenos_Aires"),
    ] {
        let r = TimezonePair::parse(&format!("{a}/{b}")).unwrap();
        assert_eq!(r.primary().name(), a);
        assert_eq!(r.secondary().name(), b);
    }
}

#[test]
fn scan_is_deterministic() {
    let r = TimezonePair::try_from("America/Vancouver/Europe/Berlin").unwrap();
    assert_eq!(r.get_disruption_dates(2024), r.get_disruption_dates(2024));
    let r = TimezonePair::try_from("Europe/London/Australia/Sydney").unwrap();
    assert_eq!(r.get_disruption_dates(2023), r.get_disruption_dates(2023));
}

#[test]
fn equal_zones_never_disrupt() {
    let r = TimezonePair::try_from("Europe/Paris/Europe/Paris").unwrap();
    assert_eq!(r.get_disruption_dates(2024).unwrap(), Vec::new());
    let r = TimezonePair::try_from("UTC/GMT").unwrap();
    assert_eq!(r.get_disruption_dates(2024).unwrap(), Vec::new());
}

#[test]
fn permanent_change_stays_open_at_year_end() {
    // Samoa stopped observing daylight saving time in April 2021.
    let r = TimezonePair::try_from("UTC/Pacific/Apia").unwrap();
    let dd = r.get_disruption_dates(2021).unwrap();
    assert_eq!(dd.len(), 1);
    assert!(matches!(dd[0], DisruptionDate::DSTPermanentChange(_)));
}

#[test]
fn scan_of_unreachable_year_is_an_error() {
    let r = TimezonePair::try_from("UTC/GMT").unwrap();
    assert!(r.get_disruption_dates(i32::MAX).is_err());
}

#[test]
fn years_are_scanned_in_order() {
    let r = TimezonePair::try_from("America/Vancouver/Europe/Berlin").unwrap();
    let dd = r.disruptions_for_years(2023, 2).unwrap();
    let mut expected = r.get_disruption_dates(2023).unwrap();
    expected.append(&mut r.get_disruption_dates(2024).unwrap());
    assert_eq!(dd.len(), 4);
    assert_eq!(dd, expected);
    assert_eq!(r.disruptions_for_years(2024, 0).unwrap(), Vec::new());
}

#[test]
fn years_fail_when_one_year_fails() {
    let r = TimezonePair::try_from("UTC/GMT").unwrap();
    assert!(r.disruptions_for_years(i32::MAX - 1, 2).is_err());
}
