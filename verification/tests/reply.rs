use gas_watcher::classify::classify_wei;
use gas_watcher::classify::Tier;
use gas_watcher::display::format_price;
use gas_watcher::rpc::build_request_body;
use gas_watcher::rpc::interpret_fetch;
use gas_watcher::rpc::parse_gas_response;
use gas_watcher::rpc::GasError;

#[test]
fn request_body_is_fixed_envelope() {
    assert_eq!(
        build_request_body(),
        "{\"jsonrpc\":\"2.0\",\"method\":\"eth_gasPrice\",\"params\":[],\"id\":1}"
    );
}

#[test]
fn success_reply_decodes_and_formats() {
    let price = interpret_fetch(Ok("{\"result\":\"0x3b9aca00\"}".to_string())).unwrap();
    assert_eq!(price, 1_000_000_000);
    assert_eq!(format_price(price, true), "1000000000 wei");
    assert_eq!(format_price(price, false), "1.00 gwei");
    assert_eq!(classify_wei(price), Tier::Low);
}

#[test]
fn realistic_reply_with_envelope_fields() {
    let r = parse_gas_response("{\"jsonrpc\":\"2.0\",\"id\":1,\"result\":\"0x3b9aca00\"}");
    assert_eq!(r.unwrap(), 1_000_000_000);
}

#[test]
fn reported_error_is_surfaced_verbatim() {
    let r = interpret_fetch(Ok("{\"error\":{\"message\":\"rate limited\"}}".to_string()));
    match r {
        Err(GasError::RpcReported(m)) => assert_eq!(m, "rate limited"),
        other => panic!("expected a reported error, got {other:?}"),
    }
}

#[test]
fn reported_error_message_contains_text() {
    let r = interpret_fetch(Ok("{\"error\":{\"message\":\"rate limited\"}}".to_string()));
    let m = r.unwrap_err().message();
    assert!(m.contains("rate limited"));
}

#[test]
fn transport_failure_is_distinct_from_reported_error() {
    let r = interpret_fetch(Err("request timed out".to_string()));
    assert!(matches!(&r, Err(GasError::Transport(_))));
    assert!(!matches!(&r, Err(GasError::RpcReported(_))));
    assert_eq!(r.unwrap_err().message(), "request timed out");
}

#[test]
fn error_wins_over_result() {
    let r = parse_gas_response("{\"result\":\"0x1\",\"error\":{\"message\":\"boom\"}}");
    assert!(matches!(r, Err(GasError::RpcReported(m)) if m == "boom"));
}

#[test]
fn null_error_with_result_succeeds() {
    let r = parse_gas_response("{\"error\":null,\"result\":\"0x1\"}");
    assert_eq!(r.unwrap(), 1);
}

#[test]
fn missing_result_is_its_own_failure() {
    assert!(matches!(
        parse_gas_response("{}"),
        Err(GasError::MissingResult(_))
    ));
    assert!(matches!(
        parse_gas_response("{\"result\":null}"),
        Err(GasError::MissingResult(_))
    ));
    assert!(matches!(
        parse_gas_response("{\"jsonrpc\":\"2.0\",\"id\":1}"),
        Err(GasError::MissingResult(_))
    ));
}

#[test]
fn malformed_bodies_are_decode_failures() {
    for body in [
        "",
        "not json",
        "[]",
        "\"0x1\"",
        "{\"result\":\"0x1\"",
        "{} trailing",
        "{\"result\":}",
        "{\"result\":\"0x1\",}",
        "{\"result\":5}",
        "{\"result\":\"0x1\" \"x\":1}",
    ] {
        assert!(
            matches!(parse_gas_response(body), Err(GasError::Decode(_))),
            "body {body:?}"
        );
    }
}

#[test]
fn duplicate_members_are_rejected() {
    assert!(matches!(
        parse_gas_response("{\"result\":\"0x1\",\"result\":\"0x2\"}"),
        Err(GasError::Decode(_))
    ));
    assert!(matches!(
        parse_gas_response("{\"error\":{\"message\":\"a\",\"message\":\"b\"}}"),
        Err(GasError::Decode(_))
    ));
}

#[test]
fn error_object_needs_a_message() {
    assert!(matches!(
        parse_gas_response("{\"error\":{}}"),
        Err(GasError::Decode(_))
    ));
    assert!(matches!(
        parse_gas_response("{\"error\":{\"code\":-32000}}"),
        Err(GasError::Decode(_))
    ));
}

#[test]
fn bad_hexadecimal_is_a_numeric_failure() {
    assert!(matches!(
        parse_gas_response("{\"result\":\"xyz\"}"),
        Err(GasError::NumericParse(_))
    ));
    assert!(matches!(
        parse_gas_response("{\"result\":\"\"}"),
        Err(GasError::NumericParse(_))
    ));
    assert!(matches!(
        parse_gas_response("{\"result\":\"0x100000000000000000000000000000000\"}"),
        Err(GasError::NumericParse(_))
    ));
}

#[test]
fn unknown_members_are_skipped_whatever_their_shape() {
    let body = "{\"a\":[1,-2.5e3,{\"b\":[false,null]},\"s\"],\"result\":\"0xa\",\"c\":true}";
    assert_eq!(parse_gas_response(body).unwrap(), 10);
}

#[test]
fn deeply_nested_unknown_members_are_skipped() {
    let body = format!(
        "{{\"a\":{}1{},\"result\":\"0x2\"}}",
        "[".repeat(40),
        "]".repeat(40)
    );
    assert_eq!(parse_gas_response(&body).unwrap(), 2);
}

#[test]
fn whitespace_is_tolerated() {
    let body = " \t\r\n{ \"result\" :\n\"0x1\" } ";
    assert_eq!(parse_gas_response(body).unwrap(), 1);
}

#[test]
fn string_escapes_are_decoded() {
    let r = parse_gas_response("{\"error\":{\"message\":\"a\\\"b\\\\c\\/\\n\\u0041\"}}");
    match r {
        Err(GasError::RpcReported(m)) => assert_eq!(m, "a\"b\\c/\nA"),
        other => panic!("expected a reported error, got {other:?}"),
    }
}

#[test]
fn surrogate_pairs_are_combined() {
    let r = parse_gas_response("{\"error\":{\"message\":\"\\ud83d\\ude00\"}}");
    match r {
        Err(GasError::RpcReported(m)) => assert_eq!(m, "\u{1F600}"),
        other => panic!("expected a reported error, got {other:?}"),
    }
}

#[test]
fn lone_surrogates_are_rejected() {
    assert!(matches!(
        parse_gas_response("{\"error\":{\"message\":\"\\ud83d\"}}"),
        Err(GasError::Decode(_))
    ));
}

#[test]
fn unescaped_control_characters_are_rejected() {
    assert!(matches!(
        parse_gas_response("{\"result\":\"0x1\n\"}"),
        Err(GasError::Decode(_))
    ));
}
