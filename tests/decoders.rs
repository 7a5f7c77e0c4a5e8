use longan_nano_playground::bytes::{bytes_eq, find_in, parse_decimal_range, starts_with, trim_end_at, trim_matches_range};
use longan_nano_playground::response::{parse_http_body, parse_ifconfig, parse_iwconfig, parse_ping};

#[test]
fn ifconfig_payload_fields() {
    let p = b"+CIPSTA:ip:\"192.168.1.9\"\r\n+CIPSTA:gateway:\"192.168.1.1\"\r\n+CIPSTA:netmask:\"255.255.0.0\"";
    assert_eq!(
        parse_ifconfig(p),
        Some((b"192.168.1.9".to_vec(), b"192.168.1.1".to_vec(), b"255.255.0.0".to_vec()))
    );
}

#[test]
fn ifconfig_payload_with_bare_newlines() {
    let p = b"+CIPSTA:ip:\"10.0.0.2\"\n+CIPSTA:gateway:\"10.0.0.1\"\n+CIPSTA:netmask:\"255.0.0.0\"";
    assert_eq!(
        parse_ifconfig(p),
        Some((b"10.0.0.2".to_vec(), b"10.0.0.1".to_vec(), b"255.0.0.0".to_vec()))
    );
}

#[test]
fn ifconfig_short_line_is_none() {
    assert_eq!(parse_ifconfig(b"+CIPSTA:ip:\r\nx\r\ny"), None);
    assert_eq!(parse_ifconfig(b""), None);
}

#[test]
fn iwconfig_payload_fields() {
    let p = b"+CWJAP:\"feather\",\"04:d9:f5:c4:93:98\",11,-68,0,0,0,0";
    assert_eq!(
        parse_iwconfig(p),
        Some((b"feather".to_vec(), b"04:d9:f5:c4:93:98".to_vec(), 11))
    );
}

#[test]
fn iwconfig_three_fields_only() {
    assert_eq!(parse_iwconfig(b"+CWJAP:\"a\",\"b\",6"), Some((b"a".to_vec(), b"b".to_vec(), 6)));
}

#[test]
fn iwconfig_channel_out_of_range_is_255() {
    assert_eq!(parse_iwconfig(b"+CWJAP:a,b,256,0"), Some((b"a".to_vec(), b"b".to_vec(), 255)));
}

#[test]
fn iwconfig_too_few_fields_is_none() {
    assert_eq!(parse_iwconfig(b"+CWJAP:\"a\",\"b\""), None);
    assert_eq!(parse_iwconfig(b"No AP"), None);
}

#[test]
fn ping_payload_value() {
    assert_eq!(parse_ping(b"+PING:27"), Some(27));
    assert_eq!(parse_ping(b"+PING:+5"), Some(5));
    assert_eq!(parse_ping(b"+PING:TIMEOUT"), Some(255));
    assert_eq!(parse_ping(b"+PING:"), Some(255));
    assert_eq!(parse_ping(b"+PING:4294967295"), Some(4294967295));
    assert_eq!(parse_ping(b"+PING"), None);
}

#[test]
fn http_body_after_first_comma() {
    assert_eq!(parse_http_body(b"+HTTPCLIENT:11,a,b,\"c,d\""), b"a,b,\"c,d\"".to_vec());
    assert_eq!(parse_http_body(b"x,"), Vec::<u8>::new());
    assert_eq!(parse_http_body(b"no comma"), Vec::<u8>::new());
}

#[test]
fn byte_helpers() {
    assert!(bytes_eq(b"No AP", b"No AP"));
    assert!(!bytes_eq(b"No AP", b"No APs"));
    assert!(starts_with(b"https://x", b"https"));
    assert!(!starts_with(b"http://x", b"https"));
    assert_eq!(find_in(b"a,b,c", b',', 2, 5), Some(3));
    assert_eq!(find_in(b"a,b,c", b',', 2, 3), None);
    assert_eq!(trim_end_at(b"ab \t\r\n", 6), 2);
    assert_eq!(trim_matches_range(b"\"\"ab\"", 0, 5, b'"'), (2, 4));
    assert_eq!(trim_matches_range(b"\"\"\"", 0, 3, b'"'), (3, 3));
    assert_eq!(parse_decimal_range(b"x255", 1, 4, 255), Some(255));
    assert_eq!(parse_decimal_range(b"x256", 1, 4, 255), None);
    assert_eq!(parse_decimal_range(b"+", 0, 1, 255), None);
    assert_eq!(parse_decimal_range(b"-1", 0, 2, 255), None);
}
