use device_link::{
    classify_connect, device_address, get_battery_level, get_ip, is_running, is_screen_on,
    output_text, parse_address, parse_i32, parse_ipv4, BrokerError, ConnectOutcome, Ipv4Addr,
    ZBBError,
};

fn chars(s: &str) -> Vec<char> {
    s.chars().collect()
}

#[test]
fn route_line_with_nine_words_gives_source_address() {
    let table = "192.168.1.0/24 dev wlan0 proto kernel scope link src 192.168.1.23\n";
    assert_eq!(get_ip(table.as_bytes().to_vec()), Ok("192.168.1.23".to_string()));
    assert_eq!(device_address(&chars(table)), Ok(Ipv4Addr::new(192, 168, 1, 23)));
}

#[test]
fn route_line_with_eleven_words_takes_ninth() {
    let line = "default via 192.168.1.1 dev wlan0 proto static scope global src 192.168.1.23";
    assert_eq!(get_ip(line.as_bytes().to_vec()), Ok("global".to_string()));
    assert_eq!(
        device_address(&chars(line)),
        Err(ZBBError::Other("invalid IPv4 address in route table".to_string()))
    );
}

#[test]
fn first_wide_line_wins() {
    let table = "default via 10.0.0.1 dev eth0\n\
                 10.0.0.0/8 dev eth0 proto kernel scope link src 10.0.0.7\n\
                 192.168.1.0/24 dev wlan0 proto kernel scope link src 192.168.1.23\n";
    assert_eq!(device_address(&chars(table)), Ok(Ipv4Addr::new(10, 0, 0, 7)));
}

#[test]
fn words_split_on_any_white_space() {
    let table = "  a\tb  c\r\n1.0.0.0/8 dev  eth0\tproto kernel scope link src   1.2.3.4  \r\n";
    assert_eq!(get_ip(table.as_bytes().to_vec()), Ok("1.2.3.4".to_string()));
}

#[test]
fn short_route_lines_mean_no_network() {
    let table = "default via 192.168.1.1 dev wlan0\nlocal dev lo\n";
    assert_eq!(device_address(&chars(table)), Err(ZBBError::NotInANetwork));
    assert_eq!(get_ip(Vec::new()), Err(ZBBError::NotInANetwork));
}

#[test]
fn route_output_must_be_utf8() {
    assert_eq!(
        get_ip(vec![0xff, 0xfe]),
        Err(ZBBError::Other("device output is not valid UTF-8".to_string()))
    );
}

#[test]
fn dotted_decimal_parsing() {
    assert_eq!(parse_ipv4(&chars("192.168.1.23")), Some(Ipv4Addr::new(192, 168, 1, 23)));
    assert_eq!(parse_ipv4(&chars("0.0.0.0")), Some(Ipv4Addr::new(0, 0, 0, 0)));
    assert_eq!(parse_ipv4(&chars("255.255.255.255")), Some(Ipv4Addr::new(255, 255, 255, 255)));
    for bad in ["", "1.2.3", "1.2.3.4.5", "256.1.1.1", "01.2.3.4", "1.2.3.", ".1.2.3", "1..2.3", "a.b.c.d", "1.2.3.4 ", "1000.1.1.1"] {
        assert_eq!(parse_ipv4(&chars(bad)), None, "{}", bad);
    }
}

#[test]
fn dotted_text_round_trip() {
    let x = Ipv4Addr::new(10, 0, 200, 7);
    let text: String = x.dotted_chars().into_iter().collect();
    assert_eq!(text, "10.0.200.7");
    assert_eq!(parse_ipv4(&x.dotted_chars()), Some(x));
}

#[test]
fn invalid_address_text_is_reported() {
    assert_eq!(parse_address(&"10.0.0.9".to_string()), Ok(Ipv4Addr::new(10, 0, 0, 9)));
    assert_eq!(
        parse_address(&"999.1.1.1".to_string()),
        Err(ZBBError::Other("Invalid ip address: 999.1.1.1".to_string()))
    );
}

#[test]
fn already_connected_counts_as_connected() {
    let e = BrokerError::Protocol("ADB request failed: already connected to 192.168.1.23:5555".to_string());
    assert!(matches!(classify_connect(Err(e)), ConnectOutcome::AlreadyConnected));
    assert!(matches!(classify_connect(Ok(())), ConnectOutcome::Connected));
    let e = BrokerError::Protocol("already connected to 10.0.0.2:5555".to_string());
    assert!(matches!(classify_connect(Err(e)), ConnectOutcome::AlreadyConnected));
    let e = BrokerError::Io("reset: already connected to 192.168.1.23:5555".to_string());
    assert!(matches!(classify_connect(Err(e)), ConnectOutcome::Failed(_)));
    let e = BrokerError::Protocol("failed to connect to 192.168.1.23:5555".to_string());
    match classify_connect(Err(e)) {
        ConnectOutcome::Failed(x) => {
            assert_eq!(x, ZBBError::ADB("failed to connect to 192.168.1.23:5555".to_string()))
        }
        _ => panic!("expected a failure"),
    }
}

#[test]
fn running_means_some_output() {
    assert!(is_running(&b"1234\n".to_vec()));
    assert!(!is_running(&Vec::new()));
}

#[test]
fn screen_state_is_read_after_equals_sign() {
    assert_eq!(is_screen_on(b"  mScreenOn=true\n".to_vec()), Ok(true));
    assert_eq!(is_screen_on(b"mScreenOn=false\n".to_vec()), Ok(false));
    assert_eq!(is_screen_on(b"mScreenOn true".to_vec()), Ok(false));
    assert_eq!(is_screen_on(Vec::new()), Ok(false));
    assert_eq!(
        is_screen_on(vec![0xc3]),
        Err(ZBBError::Other("device output is not valid UTF-8".to_string()))
    );
}

#[test]
fn battery_level_is_read_after_colon() {
    assert_eq!(get_battery_level(b"  level: 87\n".to_vec()), Ok(87));
    assert_eq!(get_battery_level(b"level:100:extra".to_vec()), Ok(100));
    assert_eq!(
        get_battery_level(b"level: full".to_vec()),
        Err(ZBBError::Other("Unbekannter Batteriestand".to_string()))
    );
    assert_eq!(
        get_battery_level(b"no level here".to_vec()),
        Err(ZBBError::Other("Unbekannter Batteriestand".to_string()))
    );
    assert_eq!(
        get_battery_level(vec![0xff]),
        Err(ZBBError::Other("Konnte Batteriestand nicht holen.".to_string()))
    );
}

#[test]
fn integer_parsing_follows_i32_rules() {
    assert_eq!(parse_i32(&chars("42")), Some(42));
    assert_eq!(parse_i32(&chars("+7")), Some(7));
    assert_eq!(parse_i32(&chars("-15")), Some(-15));
    assert_eq!(parse_i32(&chars("007")), Some(7));
    assert_eq!(parse_i32(&chars("2147483647")), Some(i32::MAX));
    assert_eq!(parse_i32(&chars("-2147483648")), Some(i32::MIN));
    assert_eq!(parse_i32(&chars("2147483648")), None);
    assert_eq!(parse_i32(&chars("99999999999999999999")), None);
    assert_eq!(parse_i32(&chars("")), None);
    assert_eq!(parse_i32(&chars("+")), None);
    assert_eq!(parse_i32(&chars("-")), None);
    assert_eq!(parse_i32(&chars("4 2")), None);
}

#[test]
fn output_keeps_non_ascii_text() {
    assert_eq!(output_text("Events injected: 1 é\n".as_bytes().to_vec()), Ok("Events injected: 1 é\n".to_string()));
    assert_eq!(
        output_text(vec![0x80]),
        Err(ZBBError::Other("device output is not valid UTF-8".to_string()))
    );
}
