use mining_worker::endpoint::{
    channel_endpoint, channel_url, endpoint_from, parse_timestamp, push_decimal, timestamp_url,
    EndpointError,
};

fn decimal(value: u64) -> String {
    let mut text = String::new();
    push_decimal(&mut text, value);
    text
}

#[test]
fn numbers_are_written_in_decimal() {
    assert_eq!(decimal(0), "0");
    assert_eq!(decimal(7), "7");
    assert_eq!(decimal(1_234_567_890), "1234567890");
    assert_eq!(decimal(10), "10");
    assert_eq!(decimal(1_700_000_000), "1700000000");
    assert_eq!(decimal(u64::MAX), "18446744073709551615");
    let mut text = "n=".to_string();
    push_decimal(&mut text, 905);
    assert_eq!(text, "n=905");
}

#[test]
fn clock_address() {
    assert_eq!(timestamp_url("pool.example.com", true), "http://pool.example.com/timestamp");
    assert_eq!(timestamp_url("pool.example.com", false), "https://pool.example.com/timestamp");
    assert_eq!(timestamp_url("localhost:3000", true), "http://localhost:3000/timestamp");
}

#[test]
fn channel_address() {
    assert_eq!(
        channel_url("pool.example.com", true, 1_700_000_000),
        "ws://pool.example.com/?timestamp=1700000000"
    );
    assert_eq!(
        channel_url("pool.example.com", false, 1_700_000_000),
        "wss://pool.example.com/?timestamp=1700000000"
    );
    assert_eq!(channel_url("pool.example.com/", false, 0), "wss://pool.example.com/?timestamp=0");
    assert_eq!(channel_url("host/path", true, 5), "ws://host/path/?timestamp=5");
    assert_eq!(channel_url("", true, 5), "ws://?timestamp=5");
}

#[test]
fn channel_endpoint_names_address_and_host() {
    let endpoint = channel_endpoint("pool.example.com", true, 1_700_000_000).expect("an endpoint");
    assert_eq!(endpoint.address, "ws://pool.example.com/?timestamp=1700000000");
    assert_eq!(endpoint.host, "pool.example.com");
    let endpoint = channel_endpoint("LocalHost:3000", false, 9).expect("an endpoint");
    assert_eq!(endpoint.address, "wss://localhost:3000/?timestamp=9");
    assert_eq!(endpoint.host, "localhost");
}

#[test]
fn an_address_that_does_not_parse_is_refused() {
    assert_eq!(channel_endpoint("", true, 5).unwrap_err(), EndpointError::Unparsable);
    assert_eq!(channel_endpoint("exa mple.com", false, 5).unwrap_err(), EndpointError::Unparsable);
    assert_eq!(channel_endpoint("host:notaport", false, 5).unwrap_err(), EndpointError::Unparsable);
}

#[test]
fn an_address_without_a_host_is_refused() {
    let parsed = ("unix:/run/worker.socket".to_string(), None);
    assert_eq!(endpoint_from(parsed).unwrap_err(), EndpointError::NoHost);
    let endpoint = endpoint_from(("ws://h/".to_string(), Some("h".to_string()))).expect("an endpoint");
    assert_eq!(endpoint.address, "ws://h/");
    assert_eq!(endpoint.host, "h");
}

#[test]
fn timestamp_is_read_from_the_body() {
    assert_eq!(parse_timestamp(b"1700000000"), Some(1_700_000_000));
    assert_eq!(parse_timestamp(b"0"), Some(0));
    assert_eq!(parse_timestamp(b"007"), Some(7));
    assert_eq!(parse_timestamp(b"+5"), Some(5));
    assert_eq!(parse_timestamp(b"18446744073709551615"), Some(u64::MAX));
}

#[test]
fn a_body_that_is_no_number_gives_no_timestamp() {
    assert_eq!(parse_timestamp(b""), None);
    assert_eq!(parse_timestamp(b"+"), None);
    assert_eq!(parse_timestamp(b"-1"), None);
    assert_eq!(parse_timestamp(b"++1"), None);
    assert_eq!(parse_timestamp(b"12a"), None);
    assert_eq!(parse_timestamp(b" 12"), None);
    assert_eq!(parse_timestamp(b"12\n"), None);
    assert_eq!(parse_timestamp(b"1.5"), None);
    assert_eq!(parse_timestamp(b"18446744073709551616"), None);
    assert_eq!(parse_timestamp(b"99999999999999999999999"), None);
}

#[test]
fn timestamp_reading_agrees_with_the_standard_parser() {
    for body in ["1700000000", "+17", "", "+", "-0", "0x10", "18446744073709551615", "18446744073709551616", "１２"] {
        assert_eq!(parse_timestamp(body.as_bytes()), body.parse::<u64>().ok(), "{:?}", body);
    }
}

#[test]
fn what_is_written_reads_back() {
    for value in [0u64, 9, 10, 1_700_000_000, u64::MAX] {
        assert_eq!(parse_timestamp(decimal(value).as_bytes()), Some(value));
    }
}
