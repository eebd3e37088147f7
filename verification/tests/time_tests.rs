use todo_cli::time::{hm, TimeValue};

fn t(hr: u8, min: u8) -> TimeValue {
    TimeValue { hr, min }
}

#[test]
fn parses_unpadded_times() {
    assert_eq!(hm(String::from("9:5")), Some(t(9, 5)));
    assert_eq!(hm(String::from("0:0")), Some(t(0, 0)));
    assert_eq!(hm(String::from("23:59")), Some(t(23, 59)));
    assert_eq!(hm(String::from("9:30")), Some(t(9, 30)));
}

#[test]
fn parses_padded_times() {
    assert_eq!(hm(String::from("09:05")), Some(t(9, 5)));
    assert_eq!(hm(String::from("007:05")), Some(t(7, 5)));
    assert_eq!(hm(String::from("00023:059")), Some(t(23, 59)));
}

#[test]
fn rejects_out_of_range_hour() {
    assert_eq!(hm(String::from("24:00")), None);
    assert_eq!(hm(String::from("99:00")), None);
    assert_eq!(hm(String::from("100:00")), None);
}

#[test]
fn rejects_out_of_range_minute() {
    assert_eq!(hm(String::from("10:60")), None);
    assert_eq!(hm(String::from("09:99")), None);
    assert_eq!(hm(String::from("0:600")), None);
}

#[test]
fn rejects_overlong_digit_runs() {
    assert_eq!(hm(String::from("99999999999:00")), None);
    assert_eq!(hm(String::from("0:99999999999999999999")), None);
}

#[test]
fn rejects_wrong_segment_count() {
    assert_eq!(hm(String::from("")), None);
    assert_eq!(hm(String::from("9")), None);
    assert_eq!(hm(String::from("1:2:3")), None);
    assert_eq!(hm(String::from("::")), None);
}

#[test]
fn rejects_empty_segments() {
    assert_eq!(hm(String::from(":")), None);
    assert_eq!(hm(String::from("9:")), None);
    assert_eq!(hm(String::from(":9")), None);
}

#[test]
fn rejects_non_digit_segments() {
    assert_eq!(hm(String::from("a:b")), None);
    assert_eq!(hm(String::from("nine:5")), None);
    assert_eq!(hm(String::from("9:5pm")), None);
    assert_eq!(hm(String::from(" 9:30")), None);
    assert_eq!(hm(String::from("9:30 ")), None);
    assert_eq!(hm(String::from("+1:05")), None);
    assert_eq!(hm(String::from("-1:05")), None);
    assert_eq!(hm(String::from("9\u{30a}:5")), None);
}
