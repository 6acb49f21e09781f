use giveaway_core::ids::uuid_to_string;
use giveaway_core::payload::{
    make_deep_link, make_join_payload, parse_deep_link, parse_draw_request, parse_giveaway_id,
    parse_join_payload, parse_publish_request,
};
use giveaway_core::text::{chars_to_vec, parse_u64, u64_to_string};

const SAMPLE_ID: u128 = 0xa1a2a3a4b1b2c1c2d1d2d3d4d5d6d7d8;

#[test]
fn decimal_rendering_exact() {
    assert_eq!(u64_to_string(0), "0");
    assert_eq!(u64_to_string(7), "7");
    assert_eq!(u64_to_string(105), "105");
    assert_eq!(u64_to_string(u64::MAX), "18446744073709551615");
}

#[test]
fn decimal_parsing_exact() {
    assert_eq!(parse_u64(&chars_to_vec("0")), Some(0));
    assert_eq!(parse_u64(&chars_to_vec("105")), Some(105));
    assert_eq!(parse_u64(&chars_to_vec("18446744073709551615")), Some(u64::MAX));
    assert_eq!(parse_u64(&chars_to_vec("18446744073709551616")), None);
    assert_eq!(parse_u64(&chars_to_vec("")), None);
    assert_eq!(parse_u64(&chars_to_vec("12a")), None);
    assert_eq!(parse_u64(&chars_to_vec("-5")), None);
}

#[test]
fn decimal_round_trip() {
    for n in [0u64, 1, 9, 10, 99, 100, 123456789, u64::MAX] {
        assert_eq!(parse_u64(&chars_to_vec(&u64_to_string(n))), Some(n));
    }
}

#[test]
fn uuid_text_round_trip() {
    let text = uuid_to_string(SAMPLE_ID);
    assert_eq!(text, "a1a2a3a4-b1b2-c1c2-d1d2-d3d4d5d6d7d8");
    assert_eq!(parse_giveaway_id(&text), Some(SAMPLE_ID));
    assert_eq!(parse_giveaway_id("not an id"), None);
    assert_eq!(parse_giveaway_id(""), None);
}

#[test]
fn join_payload_exact_form() {
    let p = make_join_payload(42, SAMPLE_ID, None);
    assert_eq!(p, "j:42:a1a2a3a4-b1b2-c1c2-d1d2-d3d4d5d6d7d8");
    let q = make_join_payload(42, SAMPLE_ID, Some(1700000000));
    assert_eq!(q, "j:42:a1a2a3a4-b1b2-c1c2-d1d2-d3d4d5d6d7d8:1700000000");
}

#[test]
fn join_payload_round_trip() {
    for nonce in [None, Some(0), Some(1700000000)] {
        let p = make_join_payload(9876543210, SAMPLE_ID, nonce);
        assert_eq!(parse_join_payload(&p), Some((9876543210, SAMPLE_ID)));
    }
}

#[test]
fn join_payload_rejects_malformed() {
    assert_eq!(parse_join_payload(""), None);
    assert_eq!(parse_join_payload("j:"), None);
    assert_eq!(parse_join_payload("x:42:a1a2a3a4-b1b2-c1c2-d1d2-d3d4d5d6d7d8"), None);
    assert_eq!(parse_join_payload("j:notanumber:a1a2a3a4-b1b2-c1c2-d1d2-d3d4d5d6d7d8"), None);
    assert_eq!(parse_join_payload("j:42:notanid"), None);
    assert_eq!(parse_join_payload("j:42"), None);
}

#[test]
fn deep_link_round_trip() {
    let p = make_deep_link(42, SAMPLE_ID);
    assert_eq!(p, "42_a1a2a3a4-b1b2-c1c2-d1d2-d3d4d5d6d7d8");
    assert_eq!(parse_deep_link(&p), Some((42, SAMPLE_ID)));
    assert_eq!(parse_deep_link("no separator"), None);
    assert_eq!(parse_deep_link("x_y"), None);
}

#[test]
fn publish_request_parsing() {
    let text = format!("@promo {}", uuid_to_string(SAMPLE_ID));
    let (channel, id) = parse_publish_request(&text).unwrap();
    assert_eq!(channel, "@promo");
    assert_eq!(id, SAMPLE_ID);
    assert_eq!(parse_publish_request("nospace"), None);
    assert_eq!(parse_publish_request(" leadingspace"), None);
    assert_eq!(parse_publish_request("@promo notanid"), None);
}

#[test]
fn draw_request_parsing() {
    let text = format!("{} 3", uuid_to_string(SAMPLE_ID));
    assert_eq!(parse_draw_request(&text), Some((SAMPLE_ID, 3)));
    assert_eq!(parse_draw_request("notanid 3"), None);
    let no_count = format!("{} many", uuid_to_string(SAMPLE_ID));
    assert_eq!(parse_draw_request(&no_count), None);
    assert_eq!(parse_draw_request(&uuid_to_string(SAMPLE_ID)), None);
}

#[test]
fn fresh_join_payload_parses_back() {
    let p = giveaway_core::payload::fresh_join_payload(42, SAMPLE_ID);
    assert_eq!(parse_join_payload(&p), Some((42, SAMPLE_ID)));
    assert!(p.starts_with("j:42:a1a2a3a4-b1b2-c1c2-d1d2-d3d4d5d6d7d8:"));
}
