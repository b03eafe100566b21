use room_hub::heartbeat::{Heartbeat, CLIENT_TIMEOUT_MS, HEARTBEAT_INTERVAL_MS};
use room_hub::registry::SWEEP_INTERVAL_MS;
use room_hub::keyed::KeyedList;
use room_hub::text::{abbreviate, decimal_string, inner_bounds, same_text, trim};

#[test]
fn decimal_string_renders_counts() {
    assert_eq!(decimal_string(0), "0");
    assert_eq!(decimal_string(7), "7");
    assert_eq!(decimal_string(10), "10");
    assert_eq!(decimal_string(109), "109");
    assert_eq!(decimal_string(65_535), "65535");
    assert_eq!(decimal_string(usize::MAX), usize::MAX.to_string());
}

#[test]
fn same_text_compares_characters() {
    assert!(same_text("", ""));
    assert!(same_text("room", "room"));
    assert!(!same_text("room", "rooms"));
    assert!(!same_text("room", "roon"));
    assert!(same_text("héllo ✓", "héllo ✓"));
    assert!(!same_text("héllo", "hello"));
}

#[test]
fn trim_strips_white_space_at_both_ends() {
    assert_eq!(trim("hi"), "hi");
    assert_eq!(trim("  hi  "), "hi");
    assert_eq!(trim("\t hello world \r\n"), "hello world");
    assert_eq!(trim("a"), "a");
    assert_eq!(trim(" a"), "a");
    assert_eq!(trim("a "), "a");
}

#[test]
fn trim_of_blank_text_is_empty() {
    assert_eq!(trim(""), "");
    assert_eq!(trim("   "), "");
    assert_eq!(trim("\n\t"), "");
}

#[test]
fn trim_knows_unicode_white_space() {
    assert_eq!(trim("\u{3000}héllo wörld\u{2003}"), "héllo wörld");
    assert_eq!(trim("\u{a0}x\u{a0}"), "x");
    assert_eq!(trim("\u{200b}x"), "\u{200b}x");
    assert_eq!(trim("_x_"), "_x_");
}

#[test]
fn abbreviate_takes_eight_characters() {
    assert_eq!(abbreviate("0123456789abcdef"), "01234567");
    assert_eq!(abbreviate("01234567"), "01234567");
    assert_eq!(abbreviate("0123456"), "0123456");
    assert_eq!(abbreviate(""), "");
    assert_eq!(abbreviate("ääääääääää"), "ääääääää");
}

#[test]
fn heartbeat_timeout_is_thirty_seconds() {
    assert_eq!(CLIENT_TIMEOUT_MS, 30_000);
    assert_eq!(HEARTBEAT_INTERVAL_MS, 5_000);
    assert_eq!(SWEEP_INTERVAL_MS, 30_000);
    let heartbeat = Heartbeat::new(1_000);
    assert_eq!(heartbeat.last_heartbeat(), 1_000);
    assert!(heartbeat.is_alive(1_000));
    assert!(heartbeat.is_alive(30_999));
    assert!(!heartbeat.is_alive(31_000));
    assert!(!heartbeat.is_alive(u64::MAX));
}

#[test]
fn heartbeat_refresh_defers_the_timeout() {
    let mut heartbeat = Heartbeat::new(0);
    assert!(!heartbeat.is_alive(40_000));
    heartbeat.heartbeat(20_000);
    assert_eq!(heartbeat.last_heartbeat(), 20_000);
    assert!(heartbeat.is_alive(40_000));
    assert!(!heartbeat.is_alive(50_000));
}

#[test]
fn heartbeat_reading_before_the_last_activity_counts_as_alive() {
    let heartbeat = Heartbeat::new(5_000);
    assert!(heartbeat.is_alive(0));
    assert!(heartbeat.is_alive(4_999));
}

#[test]
fn keyed_list_behaves_as_a_map() {
    let mut list: KeyedList<u32> = KeyedList::new();
    assert_eq!(list.len(), 0);
    assert_eq!(list.insert("a".to_string(), 1), None);
    assert_eq!(list.insert("b".to_string(), 2), None);
    assert_eq!(list.insert("a".to_string(), 3), Some(1));
    assert_eq!(list.len(), 2);
    assert!(list.contains_key("a"));
    assert!(!list.contains_key("c"));
    assert_eq!(list.get("a"), Some(&3));
    assert_eq!(list.get("b"), Some(&2));
    assert_eq!(list.get("c"), None);
    assert_eq!(list.remove("c"), None);
    assert_eq!(list.remove("b"), Some(2));
    assert_eq!(list.len(), 1);
    assert_eq!(list.key_at(0), "a");
    assert_eq!(list.value_at(0), &3);
    assert_eq!(list.pop(), Some(("a".to_string(), 3)));
    assert_eq!(list.pop(), None);
    assert_eq!(list.len(), 0);
}

#[test]
fn inner_bounds_drop_blanks_at_both_ends() {
    assert_eq!(inner_bounds(&[]), (0, 0));
    assert_eq!(inner_bounds(&[false]), (0, 1));
    assert_eq!(inner_bounds(&[true]), (0, 0));
    assert_eq!(inner_bounds(&[true, true, true]), (0, 0));
    assert_eq!(inner_bounds(&[true, false, true]), (1, 2));
    assert_eq!(inner_bounds(&[false, true, false]), (0, 3));
    assert_eq!(inner_bounds(&[true, true, false, true, false, false, true]), (2, 6));
    assert_eq!(inner_bounds(&[false, false, true]), (0, 2));
    assert_eq!(inner_bounds(&[true, false, false]), (1, 3));
}
