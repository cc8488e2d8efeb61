use dota_clock::text::{format_time, push_decimal, seconds_text, str_eq};

#[test]
fn format_time_zero() {
    assert_eq!(format_time(0), "0:00");
}

#[test]
fn format_time_pads_seconds() {
    assert_eq!(format_time(65), "1:05");
    assert_eq!(format_time(600), "10:00");
    assert_eq!(format_time(10800), "180:00");
}

#[test]
fn format_time_negative() {
    assert_eq!(format_time(-65), "-1:05");
    assert_eq!(format_time(-1), "-0:01");
}

#[test]
fn format_time_extremes() {
    assert_eq!(format_time(i64::MIN), "-153722867280912930:08");
    assert_eq!(format_time(i64::MAX), "153722867280912930:07");
}

#[test]
fn seconds_text_values() {
    assert_eq!(seconds_text(5), "5s");
    assert_eq!(seconds_text(60), "60s");
    assert_eq!(seconds_text(1234567), "1234567s");
}

#[test]
fn push_decimal_appends() {
    let mut s = String::from("t=");
    push_decimal(&mut s, 0);
    push_decimal(&mut s, 907);
    assert_eq!(s, "t=0907");
    let mut m = String::new();
    push_decimal(&mut m, u64::MAX);
    assert_eq!(m, u64::MAX.to_string());
}

#[test]
fn str_eq_compares_characters() {
    assert!(str_eq("pull.png", "pull.png"));
    assert!(!str_eq("pull.png", "pull.pn"));
    assert!(str_eq("", ""));
}
