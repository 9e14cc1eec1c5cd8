use liberado_actual_mcp::models::{
    date_int_to_str, date_str_to_int, div_to_zero, format_amount, format_month, month_bounds,
    month_to_ym,
};

#[test]
fn format_positive_amount() {
    assert_eq!(format_amount(500), "$5.00");
    assert_eq!(format_amount(100), "$1.00");
    assert_eq!(format_amount(1), "$0.01");
    assert_eq!(format_amount(0), "$0.00");
}

#[test]
fn format_negative_amount() {
    assert_eq!(format_amount(-500), "-$5.00");
    assert_eq!(format_amount(-1234), "-$12.34");
}

#[test]
fn format_extreme_amounts() {
    assert_eq!(format_amount(i64::MAX), "$92233720368547758.07");
    assert_eq!(format_amount(i64::MIN), "-$92233720368547758.08");
}

#[test]
fn amounts_are_shown_apart() {
    let shown: Vec<String> = [-100, -1, 0, 1, 10, 100].iter().map(|c| format_amount(*c)).collect();
    for i in 0..shown.len() {
        for j in 0..i {
            assert_ne!(shown[i], shown[j]);
        }
    }
}

#[test]
fn date_int_round_trips() {
    assert_eq!(date_int_to_str(20240115), "2024-01-15");
    assert_eq!(date_int_to_str(20241231), "2024-12-31");
    assert_eq!(date_int_to_str(20010101), "2001-01-01");
}

#[test]
fn dates_are_read_as_they_are_written() {
    for d in [0, 101, 20240115, 99991231, 123456789012345678] {
        assert_eq!(date_str_to_int(&date_int_to_str(d)), Some(d));
    }
}

#[test]
fn dates_are_ordered_as_their_texts() {
    let dates = [0, 1, 99, 100, 9999, 10000, 19991231, 20000101, 20240131, 20240201, 99999999];
    for a in dates {
        let text = date_int_to_str(a);
        assert_eq!(text.len(), 10);
        for (i, c) in text.chars().enumerate() {
            assert_eq!(c == '-', i == 4 || i == 7);
            assert!(c == '-' || c.is_ascii_digit());
        }
        for b in dates {
            assert_eq!(a < b, text < date_int_to_str(b));
        }
    }
}

#[test]
fn negative_dates_keep_their_signs() {
    assert_eq!(date_int_to_str(-20240115), "-2024--1--15");
    assert_eq!(date_int_to_str(-5), "0000-00--5");
}

#[test]
fn date_str_valid() {
    assert_eq!(date_str_to_int("2024-01-15"), Some(20240115));
    assert_eq!(date_str_to_int("2024-12-31"), Some(20241231));
}

#[test]
fn date_str_invalid() {
    assert_eq!(date_str_to_int("not-a-date"), None);
    assert_eq!(date_str_to_int("2024"), None);
    assert_eq!(date_str_to_int(""), None);
}

#[test]
fn date_str_odd_forms() {
    assert_eq!(date_str_to_int("2024-1-5"), Some(20240105));
    assert_eq!(date_str_to_int("+2024-01-15"), Some(20240115));
    assert_eq!(date_str_to_int("2024-01--5"), Some(20240095));
    assert_eq!(date_str_to_int("2024-01-"), None);
    assert_eq!(date_str_to_int("2024-01-1 "), None);
    assert_eq!(date_str_to_int("9223372036854775807-01-01"), None);
    assert_eq!(date_str_to_int("9223372036854775808-01-01"), None);
}

#[test]
fn month_bounds_normal() {
    assert_eq!(month_bounds("2024-01"), Some((20240101, 20240201)));
    assert_eq!(month_bounds("2024-06"), Some((20240601, 20240701)));
}

#[test]
fn month_bounds_year_rollover() {
    assert_eq!(month_bounds("2024-12"), Some((20241201, 20250101)));
}

#[test]
fn month_bounds_invalid() {
    assert_eq!(month_bounds("2024"), None);
    assert_eq!(month_bounds("not-valid"), None);
}

#[test]
fn months_follow_each_other() {
    for (month, next) in [("2024-01", "2024-02"), ("2024-12", "2025-01")] {
        assert_eq!(month_bounds(month).unwrap().1, month_bounds(next).unwrap().0);
    }
}

#[test]
fn month_numbers() {
    assert_eq!(month_to_ym("2024-01"), Some(202401));
    assert_eq!(month_to_ym("2024-12"), Some(202412));
    assert_eq!(month_to_ym("2024"), None);
    assert_eq!(month_to_ym("x-1"), None);
    assert_eq!(month_to_ym("99999999999999999999-1"), None);
    assert_eq!(format_month(202401), "2024-01");
    assert_eq!(month_to_ym(&format_month(199912)), Some(199912));
}

#[test]
fn division_rounds_towards_zero() {
    assert_eq!(div_to_zero(-7, 2), -3);
    assert_eq!(div_to_zero(7, 2), 3);
    assert_eq!(div_to_zero(i64::MIN, 1), i64::MIN);
}

#[test]
fn bounds_enclose_the_days_of_their_month() {
    for (month, y, m) in [("2024-01", 2024, 1), ("2024-12", 2024, 12), ("1999-06", 1999, 6)] {
        let (start, end) = month_bounds(month).unwrap();
        for year in 1998..2026 {
            for other in 1..13 {
                for day in [1, 15, 31] {
                    let date = year * 10000 + other * 100 + day;
                    assert_eq!(start <= date && date < end, (year, other) == (y, m), "{date}");
                }
            }
        }
    }
}
