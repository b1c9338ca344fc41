use niri_bar::utils::time::{clock_text, date_text, time_text, ClockTime};

fn t(hour: u32, minute: u32, weekday: u32, month: u32, day: u32) -> ClockTime {
    ClockTime { hour, minute, weekday, month, day }
}

#[test]
fn clock_text_is_hours_minutes_day_month_date() {
    assert_eq!(clock_text(&t(23, 26, 4, 1, 3)), "23:26  Fri Jan 03");
}

#[test]
fn clock_fields_are_zero_padded() {
    assert_eq!(time_text(&t(0, 5, 0, 12, 31)), "00:05");
    assert_eq!(date_text(&t(0, 5, 0, 12, 31)), "Mon Dec 31");
    assert_eq!(date_text(&t(9, 9, 6, 9, 9)), "Sun Sep 09");
}

#[test]
fn every_month_and_weekday_has_its_name() {
    let months = ["Jan", "Feb", "Mar", "Apr", "May", "Jun", "Jul", "Aug", "Sep", "Oct", "Nov", "Dec"];
    for (i, m) in months.iter().enumerate() {
        assert_eq!(date_text(&t(1, 1, 2, i as u32 + 1, 15)), format!("Wed {} 15", m));
    }
    let days = ["Mon", "Tue", "Wed", "Thu", "Fri", "Sat", "Sun"];
    for (i, d) in days.iter().enumerate() {
        assert_eq!(date_text(&t(1, 1, i as u32, 5, 1)), format!("{} May 01", d));
    }
}
