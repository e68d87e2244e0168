use timesheet::dates::{month_day_label, month_label, weekday_name_es, weekday_x, Date};
use timesheet::numfmt::{format_duration, hms_string, pad2_string, pad4_string, u64_to_string};

#[test]
fn format_hm_two_hours_five_minutes() {
    assert_eq!(format_duration(125), "02:05");
}

#[test]
fn format_hm_zero() {
    assert_eq!(format_duration(0), "00:00");
}

#[test]
fn format_hm_large_totals() {
    assert_eq!(format_duration(510), "08:30");
    assert_eq!(format_duration(60), "01:00");
    assert_eq!(format_duration(59), "00:59");
    // hours grow past two digits without truncation
    assert_eq!(format_duration(6000), "100:00");
}

#[test]
fn decimal_strings() {
    assert_eq!(u64_to_string(0), "0");
    assert_eq!(u64_to_string(7), "7");
    assert_eq!(u64_to_string(10), "10");
    assert_eq!(u64_to_string(240), "240");
    assert_eq!(u64_to_string(18446744073709551615), "18446744073709551615");
}

#[test]
fn padded_strings() {
    assert_eq!(pad2_string(0), "00");
    assert_eq!(pad2_string(9), "09");
    assert_eq!(pad2_string(10), "10");
    assert_eq!(pad4_string(3), "0003");
    assert_eq!(pad4_string(42), "0042");
    assert_eq!(pad4_string(999), "0999");
    assert_eq!(pad4_string(2024), "2024");
}

#[test]
fn hms_labels() {
    assert_eq!(hms_string(8, 0, 0), "08:00:00");
    assert_eq!(hms_string(17, 30, 59), "17:30:59");
}

#[test]
fn month_and_day_labels() {
    assert_eq!(month_label(2024, 3), "2024-03");
    assert_eq!(month_label(987, 12), "0987-12");
    assert_eq!(
        month_day_label(Date { year: 2024, month: 3, day: 5 }),
        "03/05"
    );
}

#[test]
fn weekdays_march_2024() {
    // 2024-03-05 was a Tuesday, 2024-03-03 a Sunday.
    let tue = weekday_x(Date { year: 2024, month: 3, day: 5 });
    assert_eq!(tue, 1);
    assert_eq!(weekday_name_es(tue), "martes");
    let sun = weekday_x(Date { year: 2024, month: 3, day: 3 });
    assert_eq!(sun, 6);
    assert_eq!(weekday_name_es(sun), "domingo");
    // leap-year boundary: 2024-02-29 was a Thursday, 2024-03-01 a Friday.
    assert_eq!(weekday_x(Date { year: 2024, month: 2, day: 29 }), 3);
    assert_eq!(weekday_x(Date { year: 2024, month: 3, day: 1 }), 4);
}
