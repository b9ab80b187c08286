use howareyou::address::IpAddress;
use howareyou::identity::{can_resolve, client_info, forwarded_pieces, is_whitespace, kept_entries};
use howareyou::method::Method;
use howareyou::present::root;

fn v4(a: u8, b: u8, c: u8, d: u8) -> IpAddress {
    IpAddress::V4([a, b, c, d])
}

#[test]
fn forwarded_first_entry_wins_and_invalid_dropped() {
    let pieces = forwarded_pieces("203.0.113.5, invalid, 10.0.0.1");
    assert_eq!(pieces, vec!["203.0.113.5", "invalid", "10.0.0.1"]);
    let parsed = vec![Some(v4(203, 0, 113, 5)), None, Some(v4(10, 0, 0, 1))];
    let info = client_info(None, parsed, None, None, None, Some(v4(10, 0, 0, 2)), Method::Get);
    assert_eq!(info.client_ip, v4(203, 0, 113, 5));
    assert_eq!(info.forwarded_for, vec![v4(203, 0, 113, 5), v4(10, 0, 0, 1)]);
}

#[test]
fn record_keeps_request_method() {
    let info = client_info(None, vec![], None, None, None, Some(v4(10, 0, 0, 2)), Method::Head);
    assert_eq!(info.method, Method::Head);
    let info = client_info(None, vec![], None, None, None, Some(v4(10, 0, 0, 2)), Method::Post);
    assert_eq!(info.method, Method::Post);
}

#[test]
fn real_ip_used_without_forwarded_for() {
    let info = client_info(None, vec![], Some(v4(198, 51, 100, 9)), None, None, Some(v4(10, 0, 0, 2)), Method::Get);
    assert_eq!(info.client_ip, v4(198, 51, 100, 9));
    assert!(info.forwarded_for.is_empty());
}

#[test]
fn peer_address_used_without_headers() {
    let info = client_info(None, vec![], None, None, None, Some(v4(10, 0, 0, 2)), Method::Get);
    assert_eq!(info.client_ip, v4(10, 0, 0, 2));
}

#[test]
fn forwarded_for_with_no_readable_entry_falls_back_to_real_ip() {
    let info = client_info(None, vec![None, None], Some(v4(1, 2, 3, 4)), None, None, None, Method::Get);
    assert_eq!(info.client_ip, v4(1, 2, 3, 4));
    assert!(info.forwarded_for.is_empty());
}

#[test]
fn resolution_needs_some_address() {
    assert!(!can_resolve(&vec![], &None, &None));
    assert!(!can_resolve(&vec![None], &None, &None));
    assert!(can_resolve(&vec![None], &None, &Some(v4(10, 0, 0, 2))));
    assert!(can_resolve(&vec![Some(v4(1, 1, 1, 1))], &None, &None));
}

#[test]
fn forwarded_order_and_count_kept() {
    let parsed = vec![None, Some(v4(1, 1, 1, 1)), Some(v4(2, 2, 2, 2)), None, Some(v4(3, 3, 3, 3))];
    let kept = kept_entries(&parsed);
    assert_eq!(kept, vec![v4(1, 1, 1, 1), v4(2, 2, 2, 2), v4(3, 3, 3, 3)]);
}

#[test]
fn pieces_split_on_every_comma_and_trim() {
    assert_eq!(forwarded_pieces("a,,b"), vec!["a", "", "b"]);
    assert_eq!(forwarded_pieces(""), vec![""]);
    assert_eq!(forwarded_pieces(" \t x y \n,\u{3000}z\u{a0}"), vec!["x y", "z"]);
    assert_eq!(forwarded_pieces("  ,  "), vec!["", ""]);
}

#[test]
fn whitespace_matches_std() {
    for c in ['\t', '\n', ' ', '\u{85}', '\u{a0}', '\u{2000}', '\u{200a}', '\u{3000}', 'a', ',', '\u{200b}', '0'] {
        assert_eq!(is_whitespace(c), c.is_whitespace());
    }
}

#[test]
fn text_rendering_has_one_line_per_field() {
    let info = client_info(
        Some("example.com".to_string()),
        vec![Some(v4(203, 0, 113, 5)), Some(v4(10, 0, 0, 1))],
        None,
        Some("http://ref".to_string()),
        Some("curl/8".to_string()),
        None,
        Method::Get,
    );
    assert_eq!(
        root(&info),
        "Host: example.com\nIP: 203.0.113.5\nForwarded-For: 203.0.113.5\n               10.0.0.1\nReferer: http://ref\nUser-Agent: curl/8\n"
    );
}

#[test]
fn text_rendering_of_bare_record() {
    let info = client_info(None, vec![], None, None, None, Some(v4(10, 0, 0, 2)), Method::Get);
    assert_eq!(root(&info), "IP: 10.0.0.2\n");
}
