use smarthub::db::{cutoff, like_pattern, now, AppSettings, DEFAULT_MAX_CLIPBOARD_ITEMS};
use smarthub::hotkey::{initial_hotkey, DEFAULT_HOTKEY};
use smarthub::licensing::local_state_at;
use smarthub::text::{
    collapsed_prefix, hex_string, i64_to_decimal, is_blank, is_whitespace, parse_i64, trim_str,
    u64_to_decimal,
};

#[test]
fn like_patterns() {
    assert_eq!(like_pattern(None), None);
    assert_eq!(like_pattern(Some("   ")), None);
    assert_eq!(like_pattern(Some("note")).as_deref(), Some("%note%"));
    assert_eq!(like_pattern(Some("50%_off")).as_deref(), Some("%50\\%\\_off%"));
    assert_eq!(like_pattern(Some(" a ")).as_deref(), Some("% a %"));
    assert_eq!(like_pattern(Some("a\\b")).as_deref(), Some("%a\\\\b%"));
}

#[test]
fn settings_defaults() {
    let s = AppSettings::default();
    assert_eq!(s.hotkey, "Alt+Space");
    assert!(s.launch_at_login);
    assert_eq!(s.max_clipboard_items, 20);
    assert_eq!(DEFAULT_MAX_CLIPBOARD_ITEMS, 20);
    assert!(s.clipboard_monitoring);
    assert!(s.text_capture_enabled);
}

#[test]
fn cutoffs_and_clock() {
    assert_eq!(cutoff(1000, 3600), -2600);
    assert_eq!(cutoff(1_700_003_600, 3600), 1_700_000_000);
    assert!(now() > 1_600_000_000);
}

#[test]
fn hotkey_at_start() {
    assert_eq!(initial_hotkey(""), DEFAULT_HOTKEY);
    assert_eq!(initial_hotkey(" \t"), "Alt+Space");
    assert_eq!(initial_hotkey("Ctrl+K"), "Ctrl+K");
    assert_eq!(initial_hotkey(" Ctrl+K "), " Ctrl+K ");
}

#[test]
fn text_helpers() {
    assert!(is_whitespace('\u{3000}'));
    assert!(!is_whitespace('x'));
    assert_eq!(trim_str("\u{a0} a b \n"), "a b");
    assert!(is_blank(" \t\n"));
    assert!(!is_blank(" x "));
    assert_eq!(collapsed_prefix("a  b\tc", 3), "a b");
    assert_eq!(hex_string(&vec![0x00, 0xab, 0x10]), "00ab10");
}

fn stored_time(text: &str) -> Option<i64> {
    local_state_at(None, None, None, Some(text.to_string()), 0).last_validated_at
}

#[test]
fn stored_times_are_parsed_as_integers() {
    assert_eq!(stored_time("-42"), Some(-42));
    assert_eq!(stored_time("+7"), Some(7));
    assert_eq!(stored_time("1e3"), None);
    assert_eq!(stored_time(""), None);
    assert_eq!(stored_time(" 5"), None);
    assert_eq!(stored_time("9223372036854775807"), Some(i64::MAX));
    assert_eq!(stored_time("9223372036854775808"), None);
    assert_eq!(stored_time("-9223372036854775808"), Some(i64::MIN));
}

#[test]
fn decimal_rendering_and_parsing() {
    assert_eq!(u64_to_decimal(0), "0");
    assert_eq!(u64_to_decimal(u64::MAX), u64::MAX.to_string());
    assert_eq!(i64_to_decimal(-42), "-42");
    assert_eq!(i64_to_decimal(i64::MIN), "-9223372036854775808");
    assert_eq!(i64_to_decimal(i64::MAX), "9223372036854775807");
    for t in ["0", "-0", "+12", "-9223372036854775808", "9223372036854775807", "9223372036854775808",
              "-9223372036854775809", "", "-", "+", "1a", " 1", "99999999999999999999999"] {
        assert_eq!(parse_i64(t), t.parse::<i64>().ok(), "{t:?}");
    }
}
