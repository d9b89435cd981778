use expire::error::ErrorKind;
use expire::file::writer::Row;
use expire::json::find_text;
use expire::time::{Timestamp, MAX_SECS, TEXT_MAX_SECS};

fn row(path: &str, secs: i64, nanos: u32) -> Row {
    Row { path: String::from(path), expiration: Timestamp { secs, nanos } }
}

#[test]
fn a_record_is_written_as_one_json_object() {
    assert_eq!(
        row("/tmp/x", 1577836800, 0).to_file().unwrap(),
        "{\"path\":\"/tmp/x\",\"expiration\":\"2020-01-01T00:00:00+00:00\"}"
    );
    assert_eq!(
        row("/tmp/a \"b\"\\c", 1_700_000_000, 500_000_000).to_file().unwrap(),
        "{\"path\":\"/tmp/a \\\"b\\\"\\\\c\",\"expiration\":\"2023-11-14T22:13:20.500+00:00\"}"
    );
}

#[test]
fn a_line_is_read_as_a_record() {
    assert_eq!(
        Row::from_file("{\"path\":\"/tmp/x\",\"expiration\":\"2020-01-01T00:00:00+00:00\"}"),
        Some(row("/tmp/x", 1577836800, 0))
    );
    assert_eq!(
        Row::from_file("{\"path\":\"/tmp/x\",\"expiration\":\"2020-01-01T00:00:00Z\"}"),
        Some(row("/tmp/x", 1577836800, 0))
    );
    assert_eq!(
        Row::from_file(" { \"expiration\" : \"2020-01-01T01:00:00+01:00\", \"path\" : \"/tmp/x\" } "),
        Some(row("/tmp/x", 1577836800, 0))
    );
    assert_eq!(
        Row::from_file(
            "{\"path\":\"/tmp/\\u00e9\",\"note\":[1,2],\"expiration\":\"2020-01-01T00:00:00Z\"}"
        ),
        Some(row("/tmp/\u{e9}", 1577836800, 0))
    );
}

#[test]
fn a_line_that_holds_no_record_gives_none() {
    assert_eq!(Row::from_file(""), None);
    assert_eq!(Row::from_file("garbage"), None);
    assert_eq!(Row::from_file("null"), None);
    assert_eq!(Row::from_file("42"), None);
    assert_eq!(Row::from_file("[\"/tmp/x\",\"2020-01-01T00:00:00Z\"]"), None);
    assert_eq!(Row::from_file("{}"), None);
    assert_eq!(Row::from_file("{\"path\":\"/tmp/x\"}"), None);
    assert_eq!(Row::from_file("{\"expiration\":\"2020-01-01T00:00:00Z\"}"), None);
    assert_eq!(Row::from_file("{\"path\":5,\"expiration\":\"2020-01-01T00:00:00Z\"}"), None);
    assert_eq!(Row::from_file("{\"path\":\"/tmp/x\",\"expiration\":1577836800}"), None);
    assert_eq!(Row::from_file("{\"path\":\"/tmp/x\",\"expiration\":\"soon\"}"), None);
    assert_eq!(Row::from_file("{\"path\":\"/tmp/x\",\"expiration\":\"2016-12-31T23:59:60Z\"}"), None);
    assert_eq!(Row::from_file("{\"path\":\"/tmp/x\",\"expiration\":\"2020-01-01T00:00:00Z\""), None);
    assert_eq!(
        Row::from_file("{\"path\":\"/tmp/x\",\"expiration\":\"2020-01-01T00:00:00Z\"} trailing"),
        None
    );
}

#[test]
fn a_record_is_read_back_as_it_was_written() {
    let rows = [
        row("/tmp/x", 1577836800, 0),
        row("", 0, 0),
        row("/tmp/with space/and \"quotes\"", 1_700_000_000, 123_456_789),
        row("/tmp/back\\slash", -1, 999_999_999),
        row("/tmp/line\nbreak\tand\rcontrol\u{1}", 1_700_000_000, 1_000),
        row("/tmp/\u{e9}\u{4e2d}\u{1f600}", TEXT_MAX_SECS, 999_999_999),
        row("~/$HOME/{}[],:", -62_167_219_200, 0),
    ];
    for r in rows.iter() {
        let line = r.to_file().unwrap();
        assert!(!line.contains('\n'));
        assert_eq!(Row::from_file(&line), Some(r.clone()));
    }
}

#[test]
fn a_year_of_five_digits_is_written_and_not_read_back() {
    let late = row("/tmp/x", TEXT_MAX_SECS + 1, 0);
    let line = late.to_file().unwrap();
    assert_eq!(line, "{\"path\":\"/tmp/x\",\"expiration\":\"+10000-01-01T00:00:00+00:00\"}");
    assert_eq!(Row::from_file(&line), None);
}

#[test]
fn a_record_that_cannot_be_held_is_not_written() {
    assert_eq!(row("/tmp/x", MAX_SECS + 1, 0).to_file(), None);
    assert_eq!(row("/tmp/x", 0, 1_000_000_000).to_file(), None);
    let mut wrt = expire::file::writer::Writer::at(String::from("/tmp/list.conf"));
    assert_eq!(wrt.store_entry(&row("/tmp/x", MAX_SECS + 1, 0)), Err(ErrorKind::WrongFormat));
    assert!(wrt.lines().is_empty());
}

#[test]
fn expired_and_days_at_an_instant() {
    let r = row("/tmp/x", 1577836800, 0);
    let same = Timestamp { secs: 1577836800, nanos: 0 };
    let later = Timestamp { secs: 1577836800, nanos: 1 };
    let next_day = Timestamp { secs: 1577836800 + 86_400, nanos: 0 };
    let day_before = Timestamp { secs: 1577836800 - 86_400, nanos: 0 };
    assert!(!r.is_expired_at(&same));
    assert!(r.is_expired_at(&later));
    assert!(!r.is_expired_at(&day_before));
    assert_eq!(r.days_expired_at(&same), 0);
    assert_eq!(r.days_expired_at(&later), 0);
    assert_eq!(r.days_expired_at(&next_day), 1);
    assert_eq!(r.days_left_at(&next_day), -1);
    assert_eq!(r.days_expired_at(&day_before), -1);
    assert_eq!(r.days_left_at(&day_before), 1);
    assert_eq!(r.days_expired_at(&Timestamp { secs: 1_700_000_000, nanos: 0 }), 1413);
}

#[test]
fn expired_and_days_by_the_clock() {
    let past = row("/tmp/x", 1577836800, 0);
    assert!(past.is_expired());
    assert!(past.get_days_expired() >= 1413);
    assert!(past.get_days_left() <= -1413);
    let future = row("/tmp/x", TEXT_MAX_SECS, 0);
    assert!(!future.is_expired());
    assert!(future.get_days_expired() < 0);
    assert!(future.get_days_left() > 0);
}

#[test]
fn the_first_member_of_a_name_is_found() {
    let members = vec![
        (String::from("a"), Some(String::from("1"))),
        (String::from("b"), None),
        (String::from("a"), Some(String::from("2"))),
    ];
    assert_eq!(find_text(&members, "a"), Some(String::from("1")));
    assert_eq!(find_text(&members, "b"), None);
    assert_eq!(find_text(&members, "c"), None);
    assert_eq!(find_text(&Vec::new(), "a"), None);
}
