use dashboard::format::{format_duration, language_icon_is_bright, language_label_text, scroll_offset, truncate};

#[test]
fn refactor_format_language_padding() {
    assert_eq!(language_label_text("CMake"), "△  CMake");
    assert_eq!(language_label_text("Unknown"), "   Unknown");
}

#[test]
fn refactor_format_unicode_truncation() {
    assert_eq!(truncate("aé界z", 3), "aé…");
    assert_eq!(truncate("aé界z", 4), "aé界z");
}

#[test]
fn truncation_keeps_one_character_for_the_ellipsis() {
    assert_eq!(truncate("abcdef", 1), "…");
    assert_eq!(truncate("abcdef", 0), "…");
    assert_eq!(truncate("", 0), "");
}

#[test]
fn durations_show_minutes_and_seconds() {
    assert_eq!(format_duration(None), "—");
    assert_eq!(format_duration(Some(0)), "00:00");
    assert_eq!(format_duration(Some(61)), "01:01");
    assert_eq!(format_duration(Some(3599)), "59:59");
    assert_eq!(format_duration(Some(6000)), "100:00");
}

#[test]
fn rust_and_python_labels_use_their_icons() {
    assert_eq!(language_label_text("Rust"), "🦀 Rust");
    assert_eq!(language_label_text("Python"), "🐍 Python");
}

#[test]
fn scrolling_keeps_the_cursor_mid_screen() {
    assert_eq!(scroll_offset(0, 3, 10), 0);
    assert_eq!(scroll_offset(100, -1, 10), 0);
    assert_eq!(scroll_offset(100, 3, 10), 0);
    assert_eq!(scroll_offset(100, 50, 10), 45);
    assert_eq!(scroll_offset(100, 99, 10), 90);
    assert_eq!(scroll_offset(5, 4, 10), 0);
    assert_eq!(scroll_offset(100, 50, 0), 0);
}

#[test]
fn only_the_cmake_icon_is_bright() {
    assert!(language_icon_is_bright("CMake"));
    assert!(language_icon_is_bright("cmake"));
    assert!(!language_icon_is_bright("Rust"));
}

fn is_day(t: &str) -> bool {
    let b = t.as_bytes();
    b.len() == 10
        && b.iter().enumerate().all(|(i, c)| if i == 4 || i == 7 { *c == b'-' } else { c.is_ascii_digit() })
}

#[test]
fn timestamps_show_the_local_day() {
    // Midday UTC is the same day in every time zone within twelve hours.
    let day = dashboard::format::format_timestamp(Some(1_431_691_200));
    assert!(is_day(&day), "{day}");
    assert!(day.starts_with("2015-05-1"));
    assert!(is_day(&dashboard::format::format_timestamp(Some(0))));
    assert_eq!(dashboard::format::format_timestamp(None), "\u{2014}");
}

#[test]
fn ci_times_that_do_not_parse_are_kept() {
    assert_eq!(dashboard::format::format_ci_time("yesterday"), "yesterday");
    let t = dashboard::format::format_ci_time("2024-01-02T12:04:05Z");
    assert_eq!(t.len(), "2024-01-02 12:04".len());
    assert!(is_day(&t[..10]), "{t}");
    assert_eq!(&t[10..11], " ");
    assert_eq!(&t[13..14], ":");
    assert!(t[11..13].bytes().chain(t[14..].bytes()).all(|c| c.is_ascii_digit()));
}

#[test]
fn label_gap_follows_the_icon_width() {
    assert_eq!(dashboard::format::language_label_with_width("Rust", 2), "\u{1f980} Rust");
    assert_eq!(dashboard::format::language_label_with_width("Unknown", 0), "   Unknown");
    assert_eq!(dashboard::format::language_label_with_width("CMake", 1), "\u{25b3}  CMake");
}
