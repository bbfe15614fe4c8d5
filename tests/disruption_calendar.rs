use icalendar::Component;
use lunais::disruption_calendar::{generate_ical, InvalidDate};
use lunais::disruption_time::DisruptionDate;
use lunais::zone::CivilDate;

#[test]
fn test_generate_ical() {
    let mut dates = Vec::new();
    dates.push(DisruptionDate::DSTChaosPeriod(
        CivilDate::from_ymd(2024, 3, 10),
        CivilDate::from_ymd(2024, 3, 31),
    ));
    dates.push(DisruptionDate::DSTPermanentChange(CivilDate::from_ymd(2024, 10, 27)));
    let cal = generate_ical(&dates).unwrap();
    assert_eq!(cal.components.len(), 2);
    assert_eq!(
        cal.components
            .get(0)
            .expect("hardcoded 1st element")
            .as_event()
            .expect("hardcoded event")
            .get_summary()
            .unwrap(),
        "Meeting chaos period"
    );
    assert_eq!(
        cal.components
            .get(1)
            .expect("hardcoded 2nd element")
            .as_event()
            .expect("hardcoded event")
            .get_summary()
            .unwrap(),
        "Permament TZ change"
    );
}

#[test]
fn calendar_carries_name_and_dates() {
    let dates = vec![DisruptionDate::DSTChaosPeriod(
        CivilDate::from_ymd(2024, 3, 10),
        CivilDate::from_ymd(2024, 3, 31),
    )];
    let cal = generate_ical(&dates).unwrap();
    assert_eq!(cal.get_name(), Some("Timezone chaos meeting"));
    let text = cal.to_string();
    assert!(text.contains("DTSTART;VALUE=DATE:20240310"));
    assert!(text.contains("DTEND;VALUE=DATE:20240331"));
    assert!(text.contains("SUMMARY:Meeting chaos period"));
}

#[test]
fn empty_calendar_for_no_disruption() {
    let cal = generate_ical(&Vec::new()).unwrap();
    assert_eq!(cal.components.len(), 0);
}

#[test]
fn calendar_refuses_impossible_dates() {
    let dates = vec![DisruptionDate::DSTPermanentChange(CivilDate::from_ymd(2023, 2, 29))];
    assert_eq!(generate_ical(&dates).err(), Some(InvalidDate));
    let dates = vec![DisruptionDate::DSTPermanentChange(CivilDate::from_ymd(2024, 2, 29))];
    assert!(generate_ical(&dates).is_ok());
    let dates = vec![DisruptionDate::DSTChaosPeriod(
        CivilDate::from_ymd(2024, 1, 1),
        CivilDate::from_ymd(2024, 13, 1),
    )];
    assert_eq!(generate_ical(&dates).err(), Some(InvalidDate));
}

#[test]
fn permanent_change_is_an_all_day_event() {
    let dates = vec![DisruptionDate::DSTPermanentChange(CivilDate::from_ymd(2024, 10, 27))];
    let text = generate_ical(&dates).unwrap().to_string();
    assert!(text.contains("DTSTART;VALUE=DATE:20241027"));
    assert!(text.contains("DTEND;VALUE=DATE:20241027"));
    assert!(text.contains("SUMMARY:Permament TZ change"));
}
