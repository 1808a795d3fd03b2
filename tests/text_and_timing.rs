use nfd2nfc::text::wrap_text;
use nfd2nfc::timing::{heartbeat_is_fresh, interval_over, TickTimer, HEARTBEAT_MAX_AGE_MS};

#[test]
fn wrapping_by_columns() {
    assert_eq!(wrap_text("abcdef", 4), vec!["abcd".to_string(), "ef".to_string()]);
    assert_eq!(wrap_text("abcdef", 0), vec!["abcdef".to_string()]);
    assert_eq!(wrap_text("", 5), vec![String::new()]);
    assert_eq!(wrap_text("ab", 5), vec!["ab".to_string()]);
    // Wide characters take two columns each.
    assert_eq!(
        wrap_text("\u{d30c}\u{c77c}\u{d30c}", 4),
        vec!["\u{d30c}\u{c77c}".to_string(), "\u{d30c}".to_string()]
    );
    // A character wider than the line stands alone.
    assert_eq!(wrap_text("\u{d30c}a", 1), vec!["\u{d30c}".to_string(), "a".to_string()]);
    // Control characters take no columns.
    assert_eq!(wrap_text("ab\ncd", 4), vec!["ab\ncd".to_string()]);
}

#[test]
fn heartbeat_freshness() {
    assert_eq!(HEARTBEAT_MAX_AGE_MS, 750);
    assert!(heartbeat_is_fresh(0));
    assert!(heartbeat_is_fresh(750));
    assert!(!heartbeat_is_fresh(751));
}

#[test]
fn timer_intervals() {
    assert!(interval_over(500, 500));
    assert!(!interval_over(500, 499));
    let mut t = TickTimer::new(0);
    assert!(t.ready());
    let mut slow = TickTimer::new(3_600_000);
    assert!(!slow.ready());
}
