use redisgate::error::GatewayError;
use redisgate::json::encode_json;
use redisgate::number::{decimal_string, parse_i64, parse_u64};
use redisgate::text::{
    chars_of, join2, join3, leading_chars, same_chars, same_text, slice_chars,
    starts_with_chars, string_of,
};

#[test]
fn text_goes_to_characters_and_back() {
    assert_eq!(chars_of(""), Vec::<char>::new());
    assert_eq!(chars_of("aé日"), vec!['a', 'é', '日']);
    assert_eq!(string_of(&vec!['a', 'é', '日']), "aé日");
    assert_eq!(string_of(&vec![]), "");
}

#[test]
fn texts_are_compared_character_by_character() {
    assert!(same_text("", ""));
    assert!(same_text("abc", "abc"));
    assert!(!same_text("abc", "abd"));
    assert!(!same_text("abc", "ab"));
    assert!(!same_text("ab", "abc"));
    assert!(!same_text("é", "e"));
    assert!(same_chars(&vec!['a'], &vec!['a']));
    assert!(!same_chars(&vec!['a'], &vec![]));
}

#[test]
fn prefixes_and_slices() {
    let s = chars_of("Bearer token");
    assert!(starts_with_chars(&s, &chars_of("Bearer ")));
    assert!(starts_with_chars(&s, &chars_of("")));
    assert!(starts_with_chars(&s, &s));
    assert!(!starts_with_chars(&s, &chars_of("bearer ")));
    assert!(!starts_with_chars(&chars_of("Bear"), &chars_of("Bearer ")));
    assert_eq!(slice_chars(&s, 7, 12), chars_of("token"));
    assert_eq!(slice_chars(&s, 3, 3), chars_of(""));
    assert_eq!(slice_chars(&s, 0, 12), s);
    assert_eq!(leading_chars("abcdef", 3), "abc");
    assert_eq!(leading_chars("ab", 3), "ab");
    assert_eq!(leading_chars("abc", 0), "");
}

#[test]
fn texts_are_joined() {
    assert_eq!(join2("a", "b"), "ab");
    assert_eq!(join2("", ""), "");
    assert_eq!(join3("a", "", "c"), "ac");
}

#[test]
fn integers_are_written_in_decimal() {
    assert_eq!(decimal_string(0), "0");
    assert_eq!(decimal_string(7), "7");
    assert_eq!(decimal_string(10), "10");
    assert_eq!(decimal_string(-10), "-10");
    assert_eq!(decimal_string(1_000_000), "1000000");
    assert_eq!(decimal_string(i64::MAX), "9223372036854775807");
    assert_eq!(decimal_string(i64::MIN), "-9223372036854775808");
    for n in [-101i64, -1, 9, 99, 100, 12345] {
        assert_eq!(decimal_string(n), n.to_string());
    }
}

#[test]
fn unsigned_numbers_are_read_as_the_standard_library_reads_them() {
    for text in [
        "0",
        "00",
        "007",
        "+5",
        "+0",
        "18446744073709551615",
        "18446744073709551616",
        "99999999999999999999999",
        "000000000000000000000000000000001",
        "",
        "+",
        "-",
        "-0",
        "-1",
        "++1",
        "1 ",
        " 1",
        "1a",
        "a",
        "１",
        "1_000",
        "0x10",
        "1.0",
    ] {
        assert_eq!(parse_u64(text), text.parse::<u64>().ok(), "{:?}", text);
    }
    assert_eq!(parse_u64("60"), Some(60));
    assert_eq!(parse_u64("18446744073709551615"), Some(u64::MAX));
    assert_eq!(parse_u64("18446744073709551616"), None);
}

#[test]
fn signed_numbers_are_read_as_the_standard_library_reads_them() {
    for text in [
        "0",
        "-0",
        "+0",
        "-1",
        "+1",
        "-007",
        "9223372036854775807",
        "9223372036854775808",
        "-9223372036854775808",
        "-9223372036854775809",
        "+9223372036854775807",
        "-00000000000000000009223372036854775808",
        "",
        "+",
        "-",
        "--1",
        "+-1",
        "1-",
        "1 ",
        "٣",
        "१",
    ] {
        assert_eq!(parse_i64(text), text.parse::<i64>().ok(), "{:?}", text);
    }
    assert_eq!(parse_i64("-9223372036854775808"), Some(i64::MIN));
    assert_eq!(parse_i64("9223372036854775807"), Some(i64::MAX));
    assert_eq!(parse_i64("-5"), Some(-5));
}

#[test]
fn failures_have_their_status_and_message() {
    let cases = vec![
        (GatewayError::Unauthorized, 401, "Unauthorized", false),
        (GatewayError::MissingApiKey, 401, "Missing API key", false),
        (GatewayError::InvalidApiKey, 401, "Invalid API key", false),
        (GatewayError::InactiveApiKey, 401, "API key is not active", false),
        (GatewayError::InvalidCommand("Empty command".to_string()), 400, "Empty command", false),
        (GatewayError::RedisInstanceNotFound, 404, "Redis instance not found", false),
        (GatewayError::Forbidden, 403, "Forbidden", false),
        (GatewayError::BadRequest("x".to_string()), 400, "Bad request: x", false),
        (GatewayError::InstanceNotFound("i".to_string()), 404, "Instance not found: i", false),
        (GatewayError::PoolExhausted("t".to_string()), 504, "Redis pool error: t", true),
        (GatewayError::Timeout, 504, "Command timed out", true),
        (
            GatewayError::RedisUnavailable("r".to_string()),
            502,
            "Connect to Redis instance error: r",
            true,
        ),
        (
            GatewayError::ServiceDiscoveryFailed("k".to_string()),
            503,
            "Service discovery error: k",
            true,
        ),
        (GatewayError::Redis("WRONGTYPE".to_string()), 500, "Redis operation error: WRONGTYPE", false),
        (GatewayError::Internal, 500, "Internal server error", false),
    ];
    for (error, status, message, evicts) in cases {
        assert_eq!(error.status_code(), status);
        assert_eq!(error.message(), message);
        assert_eq!(error.evicts_pool(), evicts);
    }
}

#[test]
fn failure_envelope_holds_error_and_status() {
    assert_eq!(
        encode_json(&GatewayError::InstanceNotFound("abc".to_string()).envelope()),
        "{\"error\":\"Instance not found: abc\",\"status\":404}"
    );
    assert_eq!(
        encode_json(&GatewayError::Forbidden.envelope()),
        "{\"error\":\"Forbidden\",\"status\":403}"
    );
    assert_eq!(
        encode_json(&GatewayError::BadRequest("a \"b\"".to_string()).envelope()),
        "{\"error\":\"Bad request: a \\\"b\\\"\",\"status\":400}"
    );
    assert_eq!(
        encode_json(&GatewayError::InvalidCommand("Empty command".to_string()).envelope()),
        "{\"error\":\"Empty command\",\"status\":400}"
    );
}
