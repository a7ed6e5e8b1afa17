use islog::error::Kndx;
use islog::time::{known_day, now_timestamp_nanos, year_month_day};

#[test]
fn test_year_month_day() {
    let ymd = year_month_day().expect("the clock has a date");
    println!("year_month_day: {}", ymd);
}

#[test]
fn year_month_day_has_the_shape_of_a_day() {
    let ymd = year_month_day().expect("the clock has a date");
    assert!(ymd.len() == 10 || ymd.len() == 11);
    assert!(ymd.chars().all(|c| c == '-' || c.is_ascii_digit()));
    let parts: Vec<&str> = ymd.rsplitn(3, '-').collect();
    assert_eq!(parts.len(), 3);
    assert_eq!(parts[0].len(), 2);
    assert_eq!(parts[1].len(), 2);
    let day: u32 = parts[0].parse().unwrap();
    let month: u32 = parts[1].parse().unwrap();
    assert!((1..=31).contains(&day));
    assert!((1..=12).contains(&month));
}

#[test]
fn known_day_hands_the_day_on() {
    assert_eq!(known_day(Some("2024-01-02".to_string())).unwrap(), "2024-01-02");
    assert_eq!(known_day(Some(String::new())).unwrap(), "");
}

#[test]
fn known_day_refuses_a_clock_without_a_date() {
    let refused = known_day(None).unwrap_err();
    assert_eq!(
        refused.knd,
        Kndx::G("the clock is set to a time that has no date".to_string())
    );
    assert!(refused.src.is_none());
    assert_eq!(
        refused.message(),
        "generic error: the clock is set to a time that has no date"
    );
}

#[test]
fn now_timestamp_nanos_goes_forward() {
    let first = now_timestamp_nanos().expect("the clock stands behind the epoch");
    let second = now_timestamp_nanos().expect("the clock stands behind the epoch");
    assert!(first > 1_600_000_000_000_000_000);
    assert!(second >= first);
}
