use video_editor::calendar::{
    pad_visual_center, pad_visual_left, pad_visual_right, CalendarMonth, CalendarPositionPreset,
    CalendarStyle, CustomCalendarEvent, HolidayCategory, HolidayItem,
};

#[test]
fn leap_years_follow_the_gregorian_rule() {
    assert!(CalendarMonth::is_leap_year(2024));
    assert!(!CalendarMonth::is_leap_year(2025));
    assert!(!CalendarMonth::is_leap_year(1900));
    assert!(CalendarMonth::is_leap_year(2000));
}

#[test]
fn month_lengths() {
    assert_eq!(CalendarMonth::days_in_year_month(2024, 2), 29);
    assert_eq!(CalendarMonth::days_in_year_month(2025, 2), 28);
    assert_eq!(CalendarMonth::days_in_year_month(2025, 4), 30);
    assert_eq!(CalendarMonth::days_in_year_month(2025, 12), 31);
    assert_eq!(CalendarMonth::new(2026, 9).days_in_month(), 30);
}

#[test]
fn month_numbers_are_clamped() {
    let m = CalendarMonth::new(2026, 0);
    assert_eq!(m.month, 1);
    let m = CalendarMonth::new(2026, 13);
    assert_eq!(m.month, 12);
    assert_eq!(m.month_name(), "December");
}

#[test]
fn month_names() {
    assert_eq!(CalendarMonth::name_for_month(1), "January");
    assert_eq!(CalendarMonth::short_name_for_month(8), "Aug");
}

#[test]
fn first_weekdays_sunday_is_zero() {
    assert_eq!(CalendarMonth::first_weekday_for(2026, 1), 4);
    assert_eq!(CalendarMonth::first_weekday_for(2024, 2), 4);
    assert_eq!(CalendarMonth::first_weekday_for(2025, 12), 1);
    assert_eq!(CalendarMonth::new(2026, 3).first_weekday(), 0);
}

#[test]
fn floating_holidays() {
    // Martin Luther King Day: third Monday of January.
    assert_eq!(CalendarMonth::nth_weekday_of_month(2026, 1, 1, 3), 19);
    // Thanksgiving: fourth Thursday of November.
    assert_eq!(CalendarMonth::nth_weekday_of_month(2025, 11, 4, 4), 27);
    // Memorial Day: last Monday of May.
    assert_eq!(CalendarMonth::last_weekday_of_month(2026, 5, 1), 25);
}

#[test]
fn easter_dates() {
    assert_eq!(CalendarMonth::calculate_easter(2024), (3, 31));
    assert_eq!(CalendarMonth::calculate_easter(2025), (4, 20));
    assert_eq!(CalendarMonth::calculate_easter(2019), (4, 21));
}

#[test]
fn chinese_festival_table() {
    assert_eq!(CalendarMonth::get_chinese_festival_date(2025, "cny"), Some((1, 29)));
    assert_eq!(CalendarMonth::get_chinese_festival_date(2026, "mid_autumn"), Some((9, 25)));
    assert_eq!(CalendarMonth::get_chinese_festival_date(2025, "unknown"), None);
}

#[test]
fn compact_grid_of_january_2026() {
    let lines = CalendarMonth::get_simple_month_grid_lines(2026, 1, true);
    let expected = vec![
        "       January 2026        ",
        "Su Mo Tu We Th Fr Sa",
        "             1  2  3",
        " 4  5  6  7  8  9 10",
        "11 12 13 14 15 16 17",
        "18 19 20 21 22 23 24",
        "25 26 27 28 29 30 31",
        "",
    ];
    assert_eq!(lines, expected);
}

#[test]
fn holiday_badges() {
    let h = HolidayItem::new("us_mlk", "MLK Day", 1, 19, HolidayCategory::American, [1, 2, 3, 255]);
    assert_eq!(h.short_badge(), "MLK");
    assert!(h.enabled);
    let other = HolidayItem::new("made_up", "Mine", 2, 2, HolidayCategory::Custom, [1, 2, 3, 255]);
    assert_eq!(other.short_badge(), "Event");
}

#[test]
fn custom_event_badges() {
    let mut e = CustomCalendarEvent::default();
    assert_eq!(e.label, "Family Birthday");
    assert_eq!(e.short_badge(), "★Famil");
    e.label = "  Mom  ".to_string();
    assert_eq!(e.short_badge(), "★Mom");
}

#[test]
fn visual_padding() {
    assert_eq!(pad_visual_right("ab", 4), "  ab");
    assert_eq!(pad_visual_left("ab", 4), "ab  ");
    assert_eq!(pad_visual_center("ab", 5), " ab  ");
    assert_eq!(pad_visual_right("abcdef", 3), "abc");
}

#[test]
fn default_holidays_are_sorted_by_date() {
    let list = CalendarMonth::default_holidays_for_year(2026);
    assert!(!list.is_empty());
    for w in list.windows(2) {
        assert!((w[0].month, w[0].day) <= (w[1].month, w[1].day));
    }
}

#[test]
fn calendar_labels() {
    assert_eq!(CalendarStyle::default(), CalendarStyle::BoxedGrid);
    assert!(!CalendarPositionPreset::all().is_empty());
    assert!(!CalendarPositionPreset::default().label().is_empty());
    assert_eq!(HolidayCategory::Chinese.label(), "[CN] Chinese Festivals");
}

#[test]
fn grid_string_has_month_title() {
    let s = CalendarMonth::new(2026, 1).format_grid_string();
    assert!(s.contains("January 2026"));
}
