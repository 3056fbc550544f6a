use malim_chat::error::ApiError;
use malim_chat::json::{Json, JsonNumber};

fn parse(text: &str) -> Json {
    Json::parse(text).unwrap()
}

#[test]
fn values_read_back_as_they_were_printed() {
    for text in [
        "null", "true", "0", "18446744073709551615", "-9223372036854775808", "1.5", "-2.25",
        "\"a \\\"quoted\\\" ž\"", "[]", "[1,[2,null]]", "{}",
        "{\"a\":1,\"b\":{\"c\":[true,\"x\"]}}",
    ] {
        assert_eq!(parse(text).print(), text);
        assert_eq!(parse(&parse(text).print()), parse(text));
    }
}

#[test]
fn keys_are_printed_in_order_and_the_last_of_two_counts() {
    let value = Json::object()
        .with("b", Json::natural(1))
        .with("a", Json::natural(2))
        .with("b", Json::natural(3));
    assert_eq!(value.print(), "{\"a\":2,\"b\":3}");
    let twice = Json::Object(vec![
        ("k".to_string(), Json::natural(1)),
        ("k".to_string(), Json::natural(2)),
    ]);
    assert_eq!(twice.at("k").as_u64(), Some(2));
    assert_eq!(twice.print(), "{\"k\":2}");
}

#[test]
fn what_is_not_json_does_not_parse() {
    for text in ["", "{", "[1,]", "nul", "{\"a\"}", "1 2", "'x'"] {
        assert!(Json::parse(text).is_none(), "{:?}", text);
    }
}

#[test]
fn entries_are_found_by_key() {
    let value = parse("{\"a\":null,\"b\":{\"c\":[1]}}");
    assert!(value.field("a").unwrap().is_null());
    assert!(value.field("z").is_none());
    assert!(value.at("z").is_null());
    assert_eq!(value.at("b").at("c").as_array().unwrap().len(), 1);
    assert!(value.at("b").at("c").at("d").is_null());
    assert!(Json::text("x").field("a").is_none());
}

#[test]
fn numbers_keep_their_kind() {
    assert_eq!(parse("7"), Json::Number(JsonNumber::Natural(7)));
    assert_eq!(parse("-7"), Json::Number(JsonNumber::Negative(-7)));
    assert_eq!(parse("7.0").as_u64(), None);
    assert_eq!(parse("7.0").print(), "7.0");
    assert_eq!(Json::integer(-3).print(), "-3");
    assert_eq!(Json::integer(3).as_u64(), Some(3));
    let signed = Json::Number(JsonNumber::Negative(5));
    assert_eq!(signed.as_u64(), Some(5));
    assert_eq!(Json::from_value(signed.to_value()), Json::natural(5));
    assert_eq!(Json::natural_or_null(None), Json::Null);
    assert_eq!(Json::natural_or_null(Some(4)), Json::natural(4));
}

#[test]
fn values_of_serde_json_convert_both_ways() {
    let text = "{\"a\":[1,-1,0.1,null,false,\"s\"],\"b\":{}}";
    let value: serde_json::Value = serde_json::from_str(text).unwrap();
    let json = Json::from_value(value.clone());
    assert_eq!(json, parse(text));
    assert_eq!(json.to_value(), value);
    assert_eq!(json.clone().to_value(), value);
}

#[test]
fn errors_answer_with_their_code_and_message() {
    let cases: Vec<(ApiError, u16, &str)> = vec![
        (ApiError::bad("m"), 400, "invalid_request"),
        (ApiError::unauthorized(), 401, "unauthorized"),
        (ApiError::forbidden("m"), 403, "forbidden"),
        (ApiError::not_found(), 404, "not_found"),
        (ApiError::conflict("m"), 409, "active_run"),
        (ApiError::internal("m"), 500, "internal_error"),
        (ApiError::provider_access_denied(), 502, "provider_access_denied"),
        (ApiError::provider_rate_limited(), 503, "provider_rate_limited"),
        (ApiError::provider_rejected(), 502, "provider_rejected_request"),
        (ApiError::provider_tool_unsupported(), 502, "provider_tool_unsupported"),
        (ApiError::provider_chain_stale(), 502, "provider_chain_stale"),
        (ApiError::provider_unavailable(), 502, "provider_unavailable"),
    ];
    for (error, status, code) in cases {
        let (sent, body) = error.into_response();
        assert_eq!(sent, status);
        assert_eq!(body.at("error").at("code").as_str(), Some(code));
        assert_eq!(
            body.at("error").at("message").as_str(),
            Some(error.message.as_str())
        );
    }
    assert_eq!(
        ApiError::database_failure().message,
        "The server could not complete this request."
    );
}
