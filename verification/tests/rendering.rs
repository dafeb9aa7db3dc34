use initial_setup_pages::decimal::{render_fixed_point, render_percent, zero_padded};
use initial_setup_pages::text::{prefix_until, same_text};

#[test]
fn decimal_digits_of_integers() {
    assert_eq!(render_percent(0), "0%");
    assert_eq!(render_percent(7), "7%");
    assert_eq!(render_percent(1920), "1920%");
    assert_eq!(render_percent(u32::MAX), "4294967295%");
}

#[test]
fn zero_padding_reaches_width() {
    assert_eq!(zero_padded("7", 3), "007");
    assert_eq!(zero_padded("42", 2), "42");
    assert_eq!(zero_padded("1234", 2), "1234");
    assert_eq!(zero_padded("", 2), "00");
}

#[test]
fn fixed_point_rendering() {
    assert_eq!(render_fixed_point(125, 100, 2), "1.25");
    assert_eq!(render_fixed_point(130, 100, 2), "1.30");
    assert_eq!(render_fixed_point(105, 100, 2), "1.05");
    assert_eq!(render_fixed_point(50, 100, 2), "0.50");
    assert_eq!(render_fixed_point(60000, 1000, 3), "60.000");
    assert_eq!(render_fixed_point(59951, 1000, 3), "59.951");
    assert_eq!(render_fixed_point(144007, 1000, 3), "144.007");
}

#[test]
fn percent_rendering() {
    assert_eq!(render_percent(125), "125%");
    assert_eq!(render_percent(0), "0%");
}

#[test]
fn prefix_before_separator() {
    assert_eq!(prefix_until("de_DE.UTF-8", '.'), "de_DE");
    assert_eq!(prefix_until("de_DE", '_'), "de");
    assert_eq!(prefix_until("C", '.'), "C");
    assert_eq!(prefix_until("", '_'), "");
    assert_eq!(prefix_until(".UTF-8", '.'), "");
    assert_eq!(prefix_until("zh_Hans_CN", '_'), "zh");
}

#[test]
fn text_comparison() {
    assert!(same_text("name", "name"));
    assert!(!same_text("name", "id"));
    assert!(!same_text("", "x"));
}
