//! Tests for the error taxonomy and GraphQL response handling.

use winccua_graphql_client::error::{split_graphql_response, WinCCError};
use winccua_graphql_client::json::JsonValue;
use winccua_graphql_client::types::{AlarmIdentifierInput, Session, User};

fn err_obj(message: &str) -> JsonValue {
    JsonValue::Obj(vec![("message".to_string(), JsonValue::Str(message.to_string()))])
}

#[test]
fn test_error_handling() {
    let error = WinCCError::LoginError("Test error".to_string());
    assert!(error.describe().contains("Test error"));
}

#[test]
fn describe_names_the_failure() {
    assert_eq!(
        WinCCError::GraphQLError("boom".to_string()).describe(),
        "GraphQL error: boom",
    );
    assert_eq!(
        WinCCError::OperationFailed("WebSocket not connected".to_string()).describe(),
        "Operation failed: WebSocket not connected",
    );
}

#[test]
fn graphql_errors_join_their_messages() {
    let errors = vec![err_obj("a"), err_obj("b"), JsonValue::Obj(vec![])];
    assert_eq!(
        WinCCError::from_graphql_errors(&errors),
        WinCCError::GraphQLError("a, b, Unknown error".to_string()),
    );
    let nothing: Vec<JsonValue> = Vec::new();
    assert_eq!(
        WinCCError::from_graphql_errors(&nothing),
        WinCCError::GraphQLError(String::new()),
    );
    // A message that is not a string falls back too.
    let odd = vec![JsonValue::Obj(vec![("message".to_string(), JsonValue::Num(
        "1".to_string(),
    ))])];
    assert_eq!(
        WinCCError::from_graphql_errors(&odd),
        WinCCError::GraphQLError("Unknown error".to_string()),
    );
}

#[test]
fn response_with_errors_fails() {
    let response = JsonValue::Obj(vec![
        ("errors".to_string(), JsonValue::Arr(vec![err_obj("x")])),
        ("data".to_string(), JsonValue::Null),
    ]);
    assert_eq!(
        split_graphql_response(response),
        Err(WinCCError::GraphQLError("x".to_string())),
    );
}

#[test]
fn response_without_errors_hands_back_data() {
    let response = JsonValue::Obj(vec![
        ("data".to_string(), JsonValue::Obj(vec![("k".to_string(), JsonValue::Bool(true))])),
    ]);
    assert_eq!(
        split_graphql_response(response),
        Ok(JsonValue::Obj(vec![("k".to_string(), JsonValue::Bool(true))])),
    );

    // An empty error list does not fail, and missing data reads as an
    // empty object.
    let response = JsonValue::Obj(vec![("errors".to_string(), JsonValue::Arr(vec![]))]);
    assert_eq!(split_graphql_response(response), Ok(JsonValue::Obj(vec![])));
    assert_eq!(split_graphql_response(JsonValue::Null), Ok(JsonValue::Obj(vec![])));
}

#[test]
fn data_records_carry_their_fields() {
    let session = Session {
        user: Some(User {
            id: Some("user123".to_string()),
            name: Some("testuser".to_string()),
            groups: None,
            full_name: Some("Test User".to_string()),
            language: Some("en-US".to_string()),
            auto_logoff_sec: Some(3600),
        }),
        token: Some("abc123".to_string()),
        expires: Some("2023-12-31T23:59:59.999Z".to_string()),
        error: None,
    };
    assert_eq!(session.user.as_ref().unwrap().name.as_ref().unwrap(), "testuser");
    assert_eq!(session.token.as_ref().unwrap(), "abc123");

    let input = AlarmIdentifierInput { name: "System::Alarm1".to_string(), instance_id: Some(1) };
    assert_eq!(input.name, "System::Alarm1");
    assert_eq!(input.instance_id, Some(1));
}
