use exchange_api::binance::parsers::{WsError, WsErrorPayload};
use exchange_api::bybit::parsers as bybit_parsers;

fn payload_from_json(json: &str) -> (i64, String) {
    let v: serde_json::Value = serde_json::from_str(json).unwrap();
    (v["code"].as_i64().unwrap(), v["msg"].as_str().unwrap().to_string())
}

// Binance

#[test]
fn error_code_0_unknown_property() {
    let payload = WsErrorPayload { code: 0, msg: "Unknown property" };
    assert_eq!(payload.classify(), WsError::UnknownProperty);
}

#[test]
fn error_code_1_invalid_value_type() {
    let payload = WsErrorPayload { code: 1, msg: "Invalid value type: expected Boolean" };
    assert_eq!(payload.classify(), WsError::InvalidValueType);
}

#[test]
fn error_code_3_invalid_json() {
    let payload = WsErrorPayload { code: 3, msg: "Invalid JSON: expected value at line 1 column 28" };
    assert_eq!(payload.classify(), WsError::InvalidJson);
}

#[test]
fn error_code_2_invalid_property_name() {
    let json = r#"{"code":2,"msg":"Invalid request: property name must be a string","id":1}"#;
    let (code, msg) = payload_from_json(json);
    let payload = WsErrorPayload { code, msg: &msg };
    assert_eq!(payload.classify(), WsError::InvalidPropertyName);
}

#[test]
fn error_code_2_invalid_request_id() {
    let json = r#"{"code":2,"msg":"Invalid request: request ID must be an unsigned integer","id":1}"#;
    let (code, msg) = payload_from_json(json);
    let payload = WsErrorPayload { code, msg: &msg };
    assert_eq!(payload.classify(), WsError::InvalidRequestId);
}

#[test]
fn error_code_2_unknown_method() {
    let json = r#"{"code":2,"msg":"Invalid request: unknown variant `FOOBAR`, expected one of `SUBSCRIBE`, `UNSUBSCRIBE`, `LIST_SUBSCRIPTIONS`, `SET_PROPERTY`, `GET_PROPERTY` at line 1 column 28","id":1}"#;
    let (code, msg) = payload_from_json(json);
    let payload = WsErrorPayload { code, msg: &msg };
    assert_eq!(payload.classify(), WsError::UnknownMethod);
}

#[test]
fn error_code_2_too_many_parameters() {
    let json = r#"{"code":2,"msg":"Invalid request: too many parameters","id":1}"#;
    let (code, msg) = payload_from_json(json);
    let payload = WsErrorPayload { code, msg: &msg };
    assert_eq!(payload.classify(), WsError::TooManyParameters);
}

#[test]
fn error_code_2_missing_field() {
    let json = r#"{"code":2,"msg":"Invalid request: missing field `method` at line 1 column 73","id":1}"#;
    let (code, msg) = payload_from_json(json);
    let payload = WsErrorPayload { code, msg: &msg };
    assert_eq!(payload.classify(), WsError::MissingField("method".into()));
}

#[test]
fn error_code_2_missing_field_unknown_name() {
    let json = r#"{"code":2,"msg":"missing field `foobar`","id":1}"#;
    let (code, msg) = payload_from_json(json);
    let payload = WsErrorPayload { code, msg: &msg };
    assert_eq!(payload.classify(), WsError::MissingField("foobar".into()));
}

#[test]
fn error_code_2_unrecognized_msg_returns_unknown() {
    let payload = WsErrorPayload { code: 2, msg: "some weird error" };
    let err = payload.classify();
    assert_eq!(err, WsError::Unknown { code: 2, msg: "some weird error".into() });
}

#[test]
fn error_unknown_code() {
    let payload = WsErrorPayload { code: 99, msg: "custom error" };
    let err = payload.classify();
    assert_eq!(err, WsError::Unknown { code: 99, msg: "custom error".into() });
}

#[test]
fn error_negative_code() {
    let payload = WsErrorPayload { code: -1, msg: "negative" };
    let err = payload.classify();
    assert_eq!(err, WsError::Unknown { code: -1, msg: "negative".into() });
}

#[test]
fn error_deserialized_from_inline_json() {
    let raw = r#"{"code":0,"msg":"Unknown property","id":null}"#;
    let (code, msg) = payload_from_json(raw);
    let payload = WsErrorPayload { code, msg: &msg };
    assert_eq!(payload.code, 0);
    assert_eq!(payload.msg, "Unknown property");
}

#[test]
fn error_classify_after_deserialize_from_str() {
    let raw = r#"{"code":2,"msg":"too many parameters","id":1}"#;
    let (code, msg) = payload_from_json(raw);
    let payload = WsErrorPayload { code, msg: &msg };
    assert_eq!(payload.classify(), WsError::TooManyParameters);
}

#[test]
fn display_unknown_property() {
    assert_eq!(WsError::UnknownProperty.to_string(), "unknown property in SET_PROPERTY / GET_PROPERTY");
}

#[test]
fn display_invalid_value_type() {
    assert_eq!(WsError::InvalidValueType.to_string(), "invalid value type: expected boolean");
}

#[test]
fn display_missing_field() {
    let err = WsError::MissingField("symbol".into());
    assert_eq!(err.to_string(), "missing field `symbol`");
}

#[test]
fn display_unknown_code() {
    let err = WsError::Unknown { code: 42, msg: "something broke".into() };
    assert_eq!(err.to_string(), "[42] something broke");
}

// Bybit

#[test]
fn parsers_error_code_0_unknown_property() {
    let payload = bybit_parsers::WsErrorPayload { code: 0, msg: "Unknown property" };
    assert_eq!(payload.classify(), bybit_parsers::WsError::UnknownProperty);
}

#[test]
fn parsers_error_code_1_invalid_value_type() {
    let payload = bybit_parsers::WsErrorPayload { code: 1, msg: "Invalid value type: expected Boolean" };
    assert_eq!(payload.classify(), bybit_parsers::WsError::InvalidValueType);
}

#[test]
fn parsers_error_code_3_invalid_json() {
    let payload = bybit_parsers::WsErrorPayload { code: 3, msg: "Invalid JSON: expected value at line 1 column 28" };
    assert_eq!(payload.classify(), bybit_parsers::WsError::InvalidJson);
}

#[test]
fn parsers_error_code_2_invalid_property_name() {
    let json = r#"{"code":2,"msg":"Invalid request: property name must be a string","id":1}"#;
    let (code, msg) = payload_from_json(json);
    let payload = bybit_parsers::WsErrorPayload { code, msg: &msg };
    assert_eq!(payload.classify(), bybit_parsers::WsError::InvalidPropertyName);
}

#[test]
fn parsers_error_code_2_invalid_request_id() {
    let json = r#"{"code":2,"msg":"Invalid request: request ID must be an unsigned integer","id":1}"#;
    let (code, msg) = payload_from_json(json);
    let payload = bybit_parsers::WsErrorPayload { code, msg: &msg };
    assert_eq!(payload.classify(), bybit_parsers::WsError::InvalidRequestId);
}

#[test]
fn parsers_error_code_2_unknown_method() {
    let json = r#"{"code":2,"msg":"Invalid request: unknown variant `FOOBAR`, expected one of `SUBSCRIBE`, `UNSUBSCRIBE`, `LIST_SUBSCRIPTIONS`, `SET_PROPERTY`, `GET_PROPERTY` at line 1 column 28","id":1}"#;
    let (code, msg) = payload_from_json(json);
    let payload = bybit_parsers::WsErrorPayload { code, msg: &msg };
    assert_eq!(payload.classify(), bybit_parsers::WsError::UnknownMethod);
}

#[test]
fn parsers_error_code_2_too_many_parameters() {
    let json = r#"{"code":2,"msg":"Invalid request: too many parameters","id":1}"#;
    let (code, msg) = payload_from_json(json);
    let payload = bybit_parsers::WsErrorPayload { code, msg: &msg };
    assert_eq!(payload.classify(), bybit_parsers::WsError::TooManyParameters);
}

#[test]
fn parsers_error_code_2_missing_field() {
    let json = r#"{"code":2,"msg":"Invalid request: missing field `method` at line 1 column 73","id":1}"#;
    let (code, msg) = payload_from_json(json);
    let payload = bybit_parsers::WsErrorPayload { code, msg: &msg };
    assert_eq!(payload.classify(), bybit_parsers::WsError::MissingField("method".into()));
}

#[test]
fn parsers_error_code_2_missing_field_unknown_name() {
    let json = r#"{"code":2,"msg":"missing field `foobar`","id":1}"#;
    let (code, msg) = payload_from_json(json);
    let payload = bybit_parsers::WsErrorPayload { code, msg: &msg };
    assert_eq!(payload.classify(), bybit_parsers::WsError::MissingField("foobar".into()));
}

#[test]
fn parsers_error_code_2_unrecognized_msg_returns_unknown() {
    let payload = bybit_parsers::WsErrorPayload { code: 2, msg: "some weird error" };
    let err = payload.classify();
    assert_eq!(err, bybit_parsers::WsError::Unknown { code: 2, msg: "some weird error".into() });
}

#[test]
fn parsers_error_unknown_code() {
    let payload = bybit_parsers::WsErrorPayload { code: 99, msg: "custom error" };
    let err = payload.classify();
    assert_eq!(err, bybit_parsers::WsError::Unknown { code: 99, msg: "custom error".into() });
}

#[test]
fn parsers_error_negative_code() {
    let payload = bybit_parsers::WsErrorPayload { code: -1, msg: "negative" };
    let err = payload.classify();
    assert_eq!(err, bybit_parsers::WsError::Unknown { code: -1, msg: "negative".into() });
}

#[test]
fn parsers_error_deserialized_from_inline_json() {
    let raw = r#"{"code":0,"msg":"Unknown property","id":null}"#;
    let (code, msg) = payload_from_json(raw);
    let payload = bybit_parsers::WsErrorPayload { code, msg: &msg };
    assert_eq!(payload.code, 0);
    assert_eq!(payload.msg, "Unknown property");
}

#[test]
fn parsers_error_classify_after_deserialize_from_str() {
    let raw = r#"{"code":2,"msg":"too many parameters","id":1}"#;
    let (code, msg) = payload_from_json(raw);
    let payload = bybit_parsers::WsErrorPayload { code, msg: &msg };
    assert_eq!(payload.classify(), bybit_parsers::WsError::TooManyParameters);
}

#[test]
fn parsers_display_unknown_property() {
    assert_eq!(bybit_parsers::WsError::UnknownProperty.to_string(), "unknown property in SET_PROPERTY / GET_PROPERTY");
}

#[test]
fn parsers_display_invalid_value_type() {
    assert_eq!(bybit_parsers::WsError::InvalidValueType.to_string(), "invalid value type: expected boolean");
}

#[test]
fn parsers_display_missing_field() {
    let err = bybit_parsers::WsError::MissingField("symbol".into());
    assert_eq!(err.to_string(), "missing field `symbol`");
}

#[test]
fn parsers_display_unknown_code() {
    let err = bybit_parsers::WsError::Unknown { code: 42, msg: "something broke".into() };
    assert_eq!(err.to_string(), "[42] something broke");
}

// Further cases

#[test]
fn missing_field_without_backticks_is_question_mark() {
    let payload = WsErrorPayload { code: 2, msg: "missing field" };
    assert_eq!(payload.classify(), WsError::MissingField("?".into()));
}

#[test]
fn missing_field_with_one_backtick_takes_the_rest() {
    let payload = WsErrorPayload { code: 2, msg: "missing field `tail" };
    assert_eq!(payload.classify(), WsError::MissingField("tail".into()));
}

#[test]
fn code_2_phrases_are_tried_in_order() {
    let payload = WsErrorPayload { code: 2, msg: "too many parameters; missing field `x`" };
    assert_eq!(payload.classify(), WsError::TooManyParameters);
}

#[test]
fn fixed_codes_ignore_their_message() {
    for msg in ["", "missing field `x`", "anything"] {
        assert_eq!(WsErrorPayload { code: 0, msg }.classify(), WsError::UnknownProperty);
        assert_eq!(WsErrorPayload { code: 1, msg }.classify(), WsError::InvalidValueType);
        assert_eq!(WsErrorPayload { code: 3, msg }.classify(), WsError::InvalidJson);
    }
}

#[test]
fn display_every_variant() {
    assert_eq!(WsError::InvalidPropertyName.to_string(), "property name must be a string");
    assert_eq!(WsError::InvalidRequestId.to_string(), "request ID must be an unsigned integer");
    assert_eq!(
        WsError::UnknownMethod.to_string(),
        "unknown method — expected SUBSCRIBE, UNSUBSCRIBE, LIST_SUBSCRIPTIONS, SET_PROPERTY, or GET_PROPERTY"
    );
    assert_eq!(WsError::TooManyParameters.to_string(), "too many parameters");
    assert_eq!(WsError::InvalidJson.to_string(), "invalid JSON");
    assert_eq!(WsError::Unknown { code: -7, msg: "x".into() }.to_string(), "[-7] x");
}
