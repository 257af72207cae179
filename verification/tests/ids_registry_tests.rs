//! Tests for subscription id naming and the registry.

use winccua_graphql_client::ids::{format_sub_id, parse_sub_id, format_u64, parse_u64_dec, IdGen};
use winccua_graphql_client::registry::{CallbackInfo, Registry};

#[test]
fn ids_format_as_wire_names() {
    assert_eq!(format_sub_id(0), "sub_0");
    assert_eq!(format_sub_id(7), "sub_7");
    assert_eq!(format_sub_id(12345), "sub_12345");
    assert_eq!(format_u64(0), "0");
    assert_eq!(format_u64(10), "10");
    assert_eq!(format_u64(u64::MAX), "18446744073709551615");
}

#[test]
fn ids_parse_back_what_was_formatted() {
    for n in [0u64, 1, 9, 10, 99, 12345, u64::MAX] {
        assert_eq!(parse_sub_id(&format_sub_id(n)), Some(n));
    }
}

#[test]
fn ids_reject_foreign_names() {
    assert_eq!(parse_sub_id(""), None);
    assert_eq!(parse_sub_id("sub_"), None);
    assert_eq!(parse_sub_id("42"), None);
    assert_eq!(parse_sub_id("sub_007"), None);
    assert_eq!(parse_sub_id("sub_x"), None);
    assert_eq!(parse_sub_id("sub_-1"), None);
    assert_eq!(parse_sub_id("sub_18446744073709551615"), Some(u64::MAX));
    assert_eq!(parse_sub_id("sub_18446744073709551616"), None);
    assert_eq!(parse_u64_dec("0"), Some(0));
    assert_eq!(parse_u64_dec("00"), None);
    assert_eq!(parse_u64_dec(""), None);
}

#[test]
fn id_generator_counts_up() {
    let mut g = IdGen::new();
    assert_eq!(g.fresh(), 0);
    assert_eq!(g.fresh(), 1);
    assert_eq!(g.fresh(), 2);
}

#[test]
fn registry_tracks_live_ids() {
    let mut r = Registry::new();
    assert_eq!(r.len(), 0);
    assert!(!r.contains(3));

    let a = CallbackInfo { has_on_error: true, has_on_complete: false };
    let b = CallbackInfo { has_on_error: false, has_on_complete: true };
    r.insert(3, a);
    r.insert(5, b);
    assert_eq!(r.len(), 2);
    assert!(r.contains(3) && r.contains(5));
    assert_eq!(r.lookup(3), Some(a));
    assert_eq!(r.lookup(5), Some(b));
    assert_eq!(r.lookup(4), None);

    assert_eq!(r.remove(3), Some(a));
    assert_eq!(r.remove(3), None);
    assert!(!r.contains(3));
    assert_eq!(r.len(), 1);
}

#[test]
fn registry_insert_replaces_and_drain_empties() {
    let mut r = Registry::new();
    let a = CallbackInfo { has_on_error: true, has_on_complete: true };
    let b = CallbackInfo { has_on_error: false, has_on_complete: false };
    r.insert(1, a);
    r.insert(1, b);
    assert_eq!(r.len(), 1);
    assert_eq!(r.lookup(1), Some(b));

    r.insert(2, a);
    let all = r.drain();
    assert_eq!(all, vec![(1, b), (2, a)]);
    assert_eq!(r.len(), 0);
}
