use file_blockchain::gui::request_type::RemoveHostOptions;
use file_blockchain::http_server::{
    parse_count, parse_timestamp, peer_hosts, try_parse_count, try_parse_timestamp,
    http_response, parse_body, route_of, start_action, try_parse_body, Route, StartAction,
};
use file_blockchain::text::{bytes_equal, chars_of, decimal_string, find_text, to_hex_upper};
use file_blockchain::util::date_calc::{withdrawal_due, CollectionPeriod};
use file_blockchain::util::shared_bool::SharedBool;

#[test]
fn decimal_notation() {
    assert_eq!(decimal_string(0), "0");
    assert_eq!(decimal_string(120034), "120034");
    assert_eq!(decimal_string(u128::MAX), u128::MAX.to_string());
}

#[test]
fn upper_hex_notation() {
    assert_eq!(to_hex_upper(&[0xbe, 0xef, 0x01]), "BEEF01");
    assert_eq!(to_hex_upper(&[]), "");
}

#[test]
fn text_search() {
    let hay = chars_of("ab\u{e9}cab");
    assert!(find_text(&hay, &chars_of("\u{e9}ca")));
    assert!(find_text(&hay, &chars_of("")));
    assert!(!find_text(&hay, &chars_of("abc")));
    assert!(!find_text(&chars_of("a"), &chars_of("ab")));
    assert!(bytes_equal(&[1, 2], &[1, 2]));
    assert!(!bytes_equal(&[1, 2], &[1]));
}

#[test]
fn body_is_read_by_content_length() {
    let request = String::from("POST /x HTTP/1.1\r\nContent-Length: 5\r\n\r\nhello world");
    assert_eq!(parse_body(request), "hello");
    let padded = String::from("POST /x HTTP/1.1\nContent-Length:  +3 \u{3000}\nhost\n\u{e9}ab");
    assert_eq!(parse_body(padded), "\u{e9}a");
}

#[test]
fn unreadable_bodies() {
    assert_eq!(try_parse_body(String::from("POST /x HTTP/1.1\n\nhello")), None);
    assert_eq!(try_parse_body(String::from("Content-Length: x\nhello")), None);
    assert_eq!(try_parse_body(String::from("Content-Length: 9\nhello")), None);
    assert_eq!(try_parse_body(String::from("Content-Length: 1\n\u{e9}")), None);
    assert_eq!(try_parse_body(String::from("Content-Length: 2\n\u{e9}")), Some(String::from("\u{e9}")));
    assert_eq!(
        try_parse_body(String::from("Content-Length: 99999999999999999999999\nhello")),
        None
    );
}

#[test]
fn routes() {
    assert_eq!(route_of(b"POST /store_information HTTP/1.1\r\n"), Route::StoreInformation);
    assert_eq!(route_of(b"POST /get_information_by_url HTTP/1.1\r\n"), Route::GetInformationByUrl);
    assert_eq!(route_of(b"GET /get_blocks HTTP/1.1\r\n"), Route::GetBlocks);
    assert_eq!(route_of(b"POST /get_hash HTTP/1.1"), Route::GetHash);
    assert_eq!(route_of(b"GET / HTTP/1.1"), Route::Unknown);
    assert_eq!(route_of(b""), Route::Unknown);
}

#[test]
fn responses_declare_their_length_in_bytes() {
    assert_eq!(http_response("200 OK", "Successful"), "HTTP/1.1 200 OK\r\nContent-Length: 10\r\n\r\nSuccessful");
    assert_eq!(http_response("400 Bad Request", "\u{e9}"), "HTTP/1.1 400 Bad Request\r\nContent-Length: 2\r\n\r\n\u{e9}");
}

#[test]
fn node_start() {
    assert_eq!(start_action("true", "[\"1.2.3.4\"]"), StartAction::JoinNetwork);
    assert_eq!(start_action("true", "["), StartAction::StartNewChain);
    assert_eq!(start_action("false", "[\"1.2.3.4\"]"), StartAction::Stay);
}

#[test]
fn withdrawals_once_a_minute() {
    assert!(withdrawal_due(120, true));
    assert!(!withdrawal_due(121, true));
    assert!(!withdrawal_due(120, false));
    assert!(withdrawal_due(-60, true));
}

#[test]
fn collection_periods() {
    assert_eq!(CollectionPeriod::Minutes.get_value(), 60);
    assert_eq!(CollectionPeriod::Hours.get_value(), 3600);
    assert_eq!(CollectionPeriod::Days.get_value(), 86400);
    assert_eq!(CollectionPeriod::Weeks.get_value(), 345600);
    assert_eq!(CollectionPeriod::Months.get_value(), 2592000);
    assert_eq!(CollectionPeriod::Years.get_value(), 31536000);
}

#[test]
fn shared_flag() {
    assert!(SharedBool::new(true).get_value());
    assert!(!SharedBool::new(false).get_value());
}

#[test]
fn remove_host_options_keep_their_parts() {
    let o = RemoveHostOptions::new(String::from("1"), String::from("s"), String::from("k"));
    let (t, s, k) = o.parts();
    assert_eq!((t.as_str(), s.as_str(), k.as_str()), ("1", "s", "k"));
}

#[test]
fn counts_and_timestamps_are_read_as_parse_reads_them() {
    for text in ["12", " +7\n", "0", "x", "", "-1", "18446744073709551616", "3 4"] {
        assert_eq!(try_parse_count(text), text.trim().parse::<usize>().ok(), "{:?}", text);
        if let Ok(v) = text.trim().parse::<usize>() {
            assert_eq!(parse_count(text), v);
        }
    }
    for text in [
        "12", " -7\n", "+0", "-", "+", "", "1a",
        "170141183460469231731687303715884105727",
        "170141183460469231731687303715884105728",
        "-170141183460469231731687303715884105728",
        "-170141183460469231731687303715884105729",
    ] {
        assert_eq!(try_parse_timestamp(text), text.trim().parse::<i128>().ok(), "{:?}", text);
        if let Ok(v) = text.trim().parse::<i128>() {
            assert_eq!(parse_timestamp(text), v);
        }
    }
}

#[test]
fn peers_are_read_from_the_reply() {
    assert_eq!(
        peer_hosts("[\"1.2.3.4:8003\", \"host:8003\"]"),
        Some(vec![String::from("1.2.3.4:8003"), String::from("host:8003")])
    );
    assert_eq!(peer_hosts("["), None);
    assert_eq!(peer_hosts("[]"), Some(Vec::new()));
}
