use chrono::{Local, TimeZone};
use dirsize::clock::format_modified;
use dirsize::collector::collect;
use dirsize::entry::{Entry, FileEntry, Stat, Timestamp};

fn by_chrono(secs: i64, nanos: u32) -> String {
    Local.timestamp_opt(secs, nanos).unwrap().format("%Y-%m-%d %H:%M").to_string()
}

#[test]
fn text_is_the_local_minute() {
    for secs in [0i64, 59, 60, 1431648000, 1700000000, 4102444800, -86400, -1] {
        let text = format_modified(Timestamp { secs, nanos: 0 });
        assert_eq!(text, Some(by_chrono(secs, 0)));
    }
}

#[test]
fn text_has_the_shape_of_a_date_and_a_time() {
    let text = format_modified(Timestamp { secs: 1431648000, nanos: 123 }).unwrap();
    let bytes = text.as_bytes();
    assert_eq!(bytes.len(), 16);
    assert_eq!(&text[0..8], "2015-05-");
    assert_eq!(bytes[4], b'-');
    assert_eq!(bytes[7], b'-');
    assert_eq!(bytes[10], b' ');
    assert_eq!(bytes[13], b':');
    for i in [0usize, 1, 2, 3, 5, 6, 8, 9, 11, 12, 14, 15] {
        assert!(bytes[i].is_ascii_digit());
    }
}

#[test]
fn seconds_and_nanoseconds_do_not_show() {
    let minute = format_modified(Timestamp { secs: 1700000040, nanos: 0 });
    assert_eq!(format_modified(Timestamp { secs: 1700000041, nanos: 999_999_999 }), minute);
    assert_ne!(format_modified(Timestamp { secs: 1700000040 + 60, nanos: 0 }), minute);
}

#[test]
fn instants_outside_the_calendar_have_no_text() {
    assert_eq!(format_modified(Timestamp { secs: i64::MAX, nanos: 0 }), None);
    assert_eq!(format_modified(Timestamp { secs: i64::MIN, nanos: 0 }), None);
    assert_eq!(format_modified(Timestamp { secs: 0, nanos: 2_000_000_000 }), None);
    assert_eq!(
        format_modified(Timestamp { secs: 0, nanos: 0 }).is_some(),
        chrono::DateTime::from_timestamp(0, 0).is_some()
    );
}

fn has_minute_shape(text: &str) -> bool {
    let chars: Vec<char> = text.chars().collect();
    if chars.len() < 16 {
        return false;
    }
    let year = chars.len() - 12;
    let signed = chars[0] == '+' || chars[0] == '-';
    let head = if signed { year >= 5 } else { year == 4 && chars[0].is_ascii_digit() };
    let digits = [1usize, 2, 4, 5, 7, 8, 10, 11];
    head && chars[1..year].iter().all(|c| c.is_ascii_digit())
        && chars[year] == '-'
        && chars[year + 3] == '-'
        && chars[year + 6] == ' '
        && chars[year + 9] == ':'
        && digits.iter().all(|d| chars[year + d].is_ascii_digit())
}

fn seconds_of(year: i32, month: u32, day: u32) -> i64 {
    chrono::NaiveDate::from_ymd_opt(year, month, day)
        .unwrap()
        .and_hms_opt(12, 34, 56)
        .unwrap()
        .and_utc()
        .timestamp()
}

#[test]
fn text_keeps_its_shape_in_every_year() {
    for year in [-262000, -10000, -9999, -1000, -5, -1, 0, 1, 9, 10, 999, 1000, 1969, 1970, 2024,
        9999, 10000, 10001, 99999, 262000]
    {
        let secs = seconds_of(year, 6, 15);
        let text = format_modified(Timestamp { secs, nanos: 0 }).unwrap();
        assert!(has_minute_shape(&text));
        assert_eq!(text, by_chrono(secs, 0));
    }
}

#[test]
fn years_outside_four_digits_carry_a_sign() {
    let early = format_modified(Timestamp { secs: seconds_of(-5, 6, 15), nanos: 0 }).unwrap();
    assert_eq!(&early[0..6], "-0005-");
    let late = format_modified(Timestamp { secs: seconds_of(12345, 6, 15), nanos: 0 }).unwrap();
    assert_eq!(&late[0..7], "+12345-");
    let plain = format_modified(Timestamp { secs: seconds_of(7, 6, 15), nanos: 0 }).unwrap();
    assert_eq!(&plain[0..5], "0007-");
}

#[test]
fn every_text_of_a_collection_has_the_shape() {
    let listing = vec![Entry::File(FileEntry {
        name: "f".to_string(),
        stat: Stat { size: 1, modified: Timestamp { secs: seconds_of(2001, 7, 8), nanos: 0 } },
    })];
    let report = collect(&listing, 5).unwrap();
    assert_eq!(report.records.len(), 1);
    assert!(has_minute_shape(&report.records[0].modified));
    assert_eq!(&report.records[0].modified[0..8], "2001-07-");
}
