use lsp_runtime::json::{to_json_bytes, JsonValue};
use lsp_runtime::message::{
    Classified, ErrorObject, Message, MsgId, Notification, Outcome, Request, Response, classify,
    classify_one, envelope_value, id_eq,
};

fn obj(fields: Vec<(&str, JsonValue)>) -> JsonValue {
    JsonValue::Obj(fields.into_iter().map(|(k, v)| (k.to_string(), v)).collect())
}

fn s(x: &str) -> JsonValue {
    JsonValue::Str(x.to_string())
}

#[test]
fn id_and_method_make_a_request() {
    let v = obj(vec![
        ("jsonrpc", s("2.0")),
        ("id", JsonValue::Num(1)),
        ("method", s("initialize")),
        ("params", obj(vec![])),
    ]);
    match classify_one(v) {
        Ok(Message::Req(req)) => {
            assert_eq!(req.id, MsgId::Num(1));
            assert_eq!(req.method, "initialize");
            assert_eq!(req.params, Some(obj(vec![])));
        }
        other => panic!("expected a request, got {:?}", other),
    }
}

#[test]
fn string_ids_are_kept() {
    let v = obj(vec![("id", s("abc")), ("method", s("m"))]);
    match classify_one(v) {
        Ok(Message::Req(req)) => assert_eq!(req.id, MsgId::Str("abc".to_string())),
        other => panic!("expected a request, got {:?}", other),
    }
}

#[test]
fn method_without_id_makes_a_notification() {
    let v = obj(vec![("method", s("initialized"))]);
    match classify_one(v) {
        Ok(Message::Note(n)) => {
            assert_eq!(n.method, "initialized");
            assert_eq!(n.params, None);
        }
        other => panic!("expected a notification, got {:?}", other),
    }
}

#[test]
fn id_with_result_makes_a_success_response() {
    let v = obj(vec![("id", JsonValue::Num(7)), ("result", JsonValue::Null)]);
    match classify_one(v) {
        Ok(Message::Resp(resp)) => {
            assert_eq!(resp.id, MsgId::Num(7));
            assert_eq!(resp.outcome, Outcome::Success(JsonValue::Null));
        }
        other => panic!("expected a response, got {:?}", other),
    }
}

#[test]
fn id_with_error_makes_a_failure_response() {
    let err = obj(vec![("code", JsonValue::Num(-32601)), ("message", s("method not found"))]);
    let v = obj(vec![("id", JsonValue::Num(7)), ("error", err)]);
    match classify_one(v) {
        Ok(Message::Resp(resp)) => match resp.outcome {
            Outcome::Failure(e) => {
                assert_eq!(e.code, -32601);
                assert_eq!(e.message, "method not found");
                assert_eq!(e.data, None);
            }
            other => panic!("expected a failure, got {:?}", other),
        },
        other => panic!("expected a response, got {:?}", other),
    }
}

#[test]
fn malformed_error_member_salvages_the_id() {
    let v = obj(vec![("id", JsonValue::Num(3)), ("error", JsonValue::Num(5))]);
    assert_eq!(classify_one(v), Err(Some(MsgId::Num(3))));
}

#[test]
fn id_alone_is_invalid_with_salvaged_id() {
    let v = obj(vec![("id", JsonValue::Num(4))]);
    assert_eq!(classify_one(v), Err(Some(MsgId::Num(4))));
}

#[test]
fn result_and_error_together_are_invalid() {
    let v = obj(vec![
        ("id", JsonValue::Num(4)),
        ("result", JsonValue::Null),
        ("error", obj(vec![("code", JsonValue::Num(1)), ("message", s("x"))])),
    ]);
    assert_eq!(classify_one(v), Err(Some(MsgId::Num(4))));
}

#[test]
fn non_object_is_invalid_without_id() {
    assert_eq!(classify_one(JsonValue::Num(5)), Err(None));
    assert_eq!(classify_one(JsonValue::Null), Err(None));
}

#[test]
fn boolean_id_cannot_be_salvaged() {
    let v = obj(vec![("id", JsonValue::Bool(true)), ("method", s("m"))]);
    assert_eq!(classify_one(v), Err(None));
}

#[test]
fn first_occurrence_of_a_field_wins() {
    let v = obj(vec![("method", s("first")), ("method", s("second"))]);
    match classify_one(v) {
        Ok(Message::Note(n)) => assert_eq!(n.method, "first"),
        other => panic!("expected a notification, got {:?}", other),
    }
}

#[test]
fn a_batch_classifies_each_element() {
    let req = obj(vec![("id", JsonValue::Num(1)), ("method", s("a"))]);
    let note = obj(vec![("method", s("b"))]);
    let bad = JsonValue::Num(9);
    let v = JsonValue::Arr(vec![req, note, bad]);
    match classify(v) {
        Classified::Batch(items) => {
            assert_eq!(items.len(), 3);
            assert!(matches!(items[0], Ok(Message::Req(_))));
            assert!(matches!(items[1], Ok(Message::Note(_))));
            assert_eq!(items[2], Err(None));
        }
        other => panic!("expected a batch, got {:?}", other),
    }
}

#[test]
fn a_single_object_is_not_a_batch() {
    let v = obj(vec![("method", s("m"))]);
    assert!(matches!(classify(v), Classified::Single(Ok(Message::Note(_)))));
}

#[test]
fn ids_compare_by_value() {
    assert!(id_eq(&MsgId::Num(3), &MsgId::Num(3)));
    assert!(!id_eq(&MsgId::Num(3), &MsgId::Num(4)));
    assert!(id_eq(&MsgId::Str("a".to_string()), &MsgId::Str("a".to_string())));
    assert!(!id_eq(&MsgId::Str("a".to_string()), &MsgId::Num(3)));
}

#[test]
fn json_text_of_scalars() {
    assert_eq!(to_json_bytes(&JsonValue::Null), b"null");
    assert_eq!(to_json_bytes(&JsonValue::Bool(true)), b"true");
    assert_eq!(to_json_bytes(&JsonValue::Bool(false)), b"false");
    assert_eq!(to_json_bytes(&JsonValue::Num(0)), b"0");
    assert_eq!(to_json_bytes(&JsonValue::Num(1048576)), b"1048576");
    assert_eq!(to_json_bytes(&JsonValue::Num(-42)), b"-42");
    assert_eq!(
        to_json_bytes(&JsonValue::Num(i64::MIN)),
        b"-9223372036854775808"
    );
}

#[test]
fn json_text_of_strings_escapes() {
    assert_eq!(to_json_bytes(&s("hello")), b"\"hello\"");
    assert_eq!(to_json_bytes(&s("a\"b\\c")), b"\"a\\\"b\\\\c\"");
    assert_eq!(to_json_bytes(&s("line\nbreak\tand\rmore")), b"\"line\\nbreak\\tand\\rmore\"");
    assert_eq!(to_json_bytes(&s("\u{1}")), b"\"\\u0001\"");
    assert_eq!(to_json_bytes(&s("\u{e9}")), "\"\u{e9}\"".as_bytes());
}

#[test]
fn json_text_of_containers() {
    let v = JsonValue::Arr(vec![JsonValue::Num(1), JsonValue::Null, s("x")]);
    assert_eq!(to_json_bytes(&v), b"[1,null,\"x\"]");
    let v = obj(vec![("a", JsonValue::Num(1)), ("b", JsonValue::Arr(vec![]))]);
    assert_eq!(to_json_bytes(&v), b"{\"a\":1,\"b\":[]}");
    let v = obj(vec![]);
    assert_eq!(to_json_bytes(&v), b"{}");
}

#[test]
fn envelope_of_a_response() {
    let m = Message::Resp(Response {
        id: MsgId::Num(1),
        outcome: Outcome::Success(JsonValue::Null),
    });
    assert_eq!(
        to_json_bytes(&envelope_value(m)),
        b"{\"jsonrpc\":\"2.0\",\"id\":1,\"result\":null}"
    );
}

#[test]
fn envelope_of_an_error_response() {
    let m = Message::Resp(Response {
        id: MsgId::Str("k".to_string()),
        outcome: Outcome::Failure(ErrorObject {
            code: -32601,
            message: "method not found".to_string(),
            data: None,
        }),
    });
    assert_eq!(
        to_json_bytes(&envelope_value(m)),
        b"{\"jsonrpc\":\"2.0\",\"id\":\"k\",\"error\":{\"code\":-32601,\"message\":\"method not found\"}}"
    );
}

#[test]
fn envelope_of_a_request_and_notification() {
    let m = Message::Req(Request {
        id: MsgId::Num(7),
        method: "workspace/applyEdit".to_string(),
        params: Some(obj(vec![("edit", obj(vec![]))])),
    });
    assert_eq!(
        to_json_bytes(&envelope_value(m)),
        b"{\"jsonrpc\":\"2.0\",\"id\":7,\"method\":\"workspace/applyEdit\",\"params\":{\"edit\":{}}}"
    );
    let m = Message::Note(Notification { method: "initialized".to_string(), params: None });
    assert_eq!(
        to_json_bytes(&envelope_value(m)),
        b"{\"jsonrpc\":\"2.0\",\"method\":\"initialized\"}"
    );
}
