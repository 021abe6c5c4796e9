use lewrep::timo::TimoDateTime;

fn london(year: i32, month: u32, day: u32, hour: u32, minute: u32) -> TimoDateTime {
    match TimoDateTime::new(year, month, day, hour, minute, 0, "Europe/London") {
        Ok(t) => t,
        Err(e) => panic!("{}", e),
    }
}

#[test]
fn new_reads_back_its_fields() {
    let t = london(2024, 7, 15, 12, 30);
    assert_eq!(t.zone(), "Europe/London");
    assert_eq!((t.year(), t.month(), t.day(), t.hour(), t.minute(), t.second()), (2024, 7, 15, 12, 30, 0));
    assert_eq!(t.timestamp(), 1721043000);
    assert_eq!(t.offset_seconds(), 3600);
    assert_eq!(t.abbreviation(), "BST");
}

#[test]
fn unknown_zone_is_refused() {
    match TimoDateTime::new(2024, 1, 1, 0, 0, 0, "Mars/Olympus") {
        Err(e) => assert_eq!(e, "Unknown timezone: Mars/Olympus"),
        Ok(_) => panic!("accepted an unknown zone"),
    }
    match TimoDateTime::now("europe/london") {
        Err(e) => assert_eq!(e, "Unknown timezone: europe/london"),
        Ok(_) => panic!("accepted a wrongly cased zone"),
    }
    let t = london(2024, 7, 15, 12, 30);
    match t.switch_timezone("Nowhere") {
        Err(e) => assert_eq!(e, "Unknown timezone: Nowhere"),
        Ok(_) => panic!("accepted an unknown zone"),
    }
}

#[test]
fn skipped_local_time_is_refused() {
    match TimoDateTime::new(2024, 3, 31, 1, 30, 0, "Europe/London") {
        Err(e) => assert_eq!(e, "Invalid local time (skipped due to seasonal DST jump)."),
        Ok(_) => panic!("accepted a skipped time"),
    }
    match TimoDateTime::new(2023, 2, 30, 0, 0, 0, "Europe/London") {
        Err(e) => assert_eq!(e, "Invalid local time (skipped due to seasonal DST jump)."),
        Ok(_) => panic!("accepted a non-existent date"),
    }
}

#[test]
fn repeated_local_time_takes_the_earlier_instant() {
    let t = london(2024, 10, 27, 1, 30);
    assert_eq!(t.timestamp(), 1729989000);
    assert_eq!(t.abbreviation(), "BST");
    assert_eq!(t.hour(), 1);
}

#[test]
fn summertime_follows_the_offset() {
    assert!(london(2024, 7, 15, 12, 30).is_summertime());
    assert!(!london(2024, 1, 10, 9, 0).is_summertime());
    assert_eq!(london(2024, 7, 15, 12, 30).checked_is_summertime(), Some(true));
    let sydney = TimoDateTime::new(2024, 7, 1, 12, 0, 0, "Australia/Sydney").unwrap();
    assert!(!sydney.is_summertime());
    let utc = TimoDateTime::new(2024, 7, 1, 12, 0, 0, "UTC").unwrap();
    assert!(!utc.is_summertime());
}

#[test]
fn month_lengths() {
    assert_eq!(london(2024, 2, 10, 12, 0).days_in_month(), 29);
    assert_eq!(london(2023, 2, 10, 12, 0).days_in_month(), 28);
    assert_eq!(london(2024, 4, 10, 12, 0).days_in_month(), 30);
    assert_eq!(london(2024, 12, 10, 12, 0).days_in_month(), 31);
    assert_eq!(london(2024, 1, 10, 12, 0).checked_days_in_month(), Some(31));
}

#[test]
fn month_length_counts_back_one_day_of_seconds() {
    // Midnight on 1 April 2024 is BST; 86400 seconds earlier it is still 30 March in GMT.
    assert_eq!(london(2024, 3, 10, 12, 0).days_in_month(), 30);
    assert_eq!(TimoDateTime::new(2024, 3, 10, 12, 0, 0, "UTC").unwrap().days_in_month(), 31);
}

#[test]
fn days_left_in_month() {
    assert_eq!(london(2024, 7, 15, 12, 30).days_until_next_month(), 16);
    assert_eq!(london(2024, 2, 29, 8, 0).days_until_next_month(), 0);
    assert_eq!(london(2024, 12, 1, 8, 0).checked_days_until_next_month(), Some(30));
}

#[test]
fn weekday_of_the_first() {
    assert_eq!(london(2024, 7, 15, 12, 30).weekday_of_first(), 0);
    assert_eq!(london(2024, 9, 20, 12, 30).weekday_of_first(), 6);
    assert_eq!(london(2023, 2, 20, 12, 30).checked_weekday_of_first(), Some(2));
}

#[test]
fn next_month_names() {
    assert_eq!(london(2024, 12, 5, 0, 0).next_month_name(), "January");
    assert_eq!(london(2024, 7, 5, 0, 0).next_month_name(), "August");
    assert_eq!(london(2024, 11, 5, 0, 0).next_month_name(), "December");
}

#[test]
fn moon_phases() {
    assert_eq!(london(2024, 7, 15, 12, 30).moon_phase(), "🌘 Waning Crescent");
    assert_eq!(london(2024, 1, 10, 9, 0).moon_phase(), "🌖 Waning Gibbous");
}

#[test]
fn status_summary_layout() {
    assert_eq!(
        london(2024, 7, 15, 12, 30).status_summary(),
        "Time: 2024-07-15 12:30:00 | Zone: BST | Season: Summertime (DST) | Moon: 🌘 Waning Crescent"
    );
    assert_eq!(
        london(2024, 1, 10, 9, 5).checked_status_summary(),
        Some("Time: 2024-01-10 09:05:00 | Zone: GMT | Season: Wintertime / Standard Time | Moon: 🌖 Waning Gibbous".to_string())
    );
}

#[test]
fn switching_zones_keeps_the_instant() {
    let t = london(2024, 7, 15, 12, 30);
    let ny = t.switch_timezone("America/New_York").unwrap();
    assert_eq!(ny.timestamp(), t.timestamp());
    assert_eq!((ny.hour(), ny.minute()), (7, 30));
    assert_eq!(ny.offset_seconds(), -14400);
    assert_eq!(ny.abbreviation(), "EDT");
    let back = ny.switch_timezone("Europe/London").unwrap();
    assert_eq!(
        (back.year(), back.month(), back.day(), back.hour(), back.minute(), back.abbreviation()),
        (2024, 7, 15, 12, 30, "BST")
    );
}

#[test]
fn now_gives_a_reading_in_the_zone() {
    let t = TimoDateTime::now("Europe/London").unwrap();
    assert_eq!(t.zone(), "Europe/London");
    assert!(t.year() >= 2024);
    assert!(t.checked_status_summary().is_some());
}

#[test]
fn at_timestamp_reads_the_instant() {
    let t = TimoDateTime::at_timestamp("Europe/London", 1721043000).unwrap();
    assert_eq!((t.year(), t.month(), t.day(), t.hour(), t.minute()), (2024, 7, 15, 12, 30));
    assert_eq!(t.timestamp(), 1721043000);
    let t = TimoDateTime::at_timestamp("UTC", -86400).unwrap();
    assert_eq!((t.year(), t.month(), t.day(), t.hour()), (1969, 12, 31, 0));
    match TimoDateTime::at_timestamp("Nowhere/Else", 0) {
        Err(e) => assert_eq!(e, "Unknown timezone: Nowhere/Else"),
        Ok(_) => panic!("accepted an unknown zone"),
    }
}

#[test]
fn clock_readings() {
    let t = TimoDateTime::from_clock_reading("Europe/London", Some(1721043000)).unwrap();
    assert_eq!(t.timestamp(), 1721043000);
    assert_eq!(t.abbreviation(), "BST");
    for reading in [None, Some(8210266876800u64), Some(u64::MAX)] {
        match TimoDateTime::from_clock_reading("Europe/London", reading) {
            Err(e) => assert_eq!(e, "System time out of range."),
            Ok(_) => panic!("accepted an unusable clock reading"),
        }
    }
    let last = TimoDateTime::from_clock_reading("UTC", Some(8210266876799)).unwrap();
    assert_eq!((last.month(), last.day(), last.hour(), last.minute(), last.second()), (12, 31, 23, 59, 59));
    match TimoDateTime::from_clock_reading("Mars", None) {
        Err(e) => assert_eq!(e, "Unknown timezone: Mars"),
        Ok(_) => panic!("accepted an unknown zone"),
    }
}
