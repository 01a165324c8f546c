use asterctl::datetime::{get_date_time_value, DateTimeParts};

fn at() -> DateTimeParts {
    DateTimeParts { year: 2025, month: 3, day: 7, hour: 9, minute: 5, second: 42 }
}

fn value(label: &str) -> Option<String> {
    get_date_time_value(label, &at())
}

#[test]
fn single_date_fields_are_padded() {
    assert_eq!(value("DATE_year").as_deref(), Some("2025"));
    assert_eq!(value("DATE_month").as_deref(), Some("03"));
    assert_eq!(value("DATE_day").as_deref(), Some("07"));
    assert_eq!(value("DATE_hour").as_deref(), Some("09"));
    assert_eq!(value("DATE_minute").as_deref(), Some("05"));
    assert_eq!(value("DATE_second").as_deref(), Some("42"));
}

#[test]
fn combined_date_formats() {
    assert_eq!(value("DATE_m_d_h_m_1").as_deref(), Some("03月07日  09:05"));
    assert_eq!(value("DATE_m_d_h_m_2").as_deref(), Some("03/07  09:05"));
    assert_eq!(value("DATE_m_d_1").as_deref(), Some("03月07日"));
    assert_eq!(value("DATE_m_d_2").as_deref(), Some("03-07"));
    assert_eq!(value("DATE_y_m_d_1").as_deref(), Some("2025年03月07日"));
    assert_eq!(value("DATE_y_m_d_2").as_deref(), Some("2025-03-07"));
    assert_eq!(value("DATE_y_m_d_3").as_deref(), Some("2025/03/07"));
    assert_eq!(value("DATE_y_m_d_4").as_deref(), Some("2025 03 07"));
    assert_eq!(value("DATE_h_m_s_1").as_deref(), Some("09:05:42"));
    assert_eq!(value("DATE_h_m_s_2").as_deref(), Some("09时05分42秒"));
    assert_eq!(value("DATE_h_m_s_3").as_deref(), Some("09 05 42"));
    assert_eq!(value("DATE_h_m_1").as_deref(), Some("09时05分"));
    assert_eq!(value("DATE_h_m_2").as_deref(), Some("09 : 05"));
    assert_eq!(value("DATE_h_m_3").as_deref(), Some("09:05"));
}

#[test]
fn other_labels_have_no_date_value() {
    assert_eq!(value("cpu_temp"), None);
    assert_eq!(value("DATE_unknown"), None);
    assert_eq!(value(""), None);
}

#[test]
fn two_digit_values_and_negative_years() {
    let t = DateTimeParts { year: -44, month: 12, day: 31, hour: 23, minute: 59, second: 0 };
    assert_eq!(get_date_time_value("DATE_y_m_d_2", &t).as_deref(), Some("-44-12-31"));
    assert_eq!(get_date_time_value("DATE_h_m_s_1", &t).as_deref(), Some("23:59:00"));
    let t = DateTimeParts { year: 0, month: 1, day: 1, hour: 0, minute: 0, second: 0 };
    assert_eq!(get_date_time_value("DATE_year", &t).as_deref(), Some("0"));
}
