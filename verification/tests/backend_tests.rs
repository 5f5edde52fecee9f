use lsp_runtime::backend::{
    ClientCall, LOG_ERROR, LOG_INFO, completion, did_change, did_change_configuration,
    did_change_watched_files, did_change_workspace_folders, did_close, did_open, did_save,
    execute_command, execute_command_applied, initialize, initialized, shutdown,
};
use lsp_runtime::json::JsonValue;
use lsp_runtime::message::{ErrorObject, Outcome};
use lsp_runtime::server::RoundTripResult;

fn field<'a>(v: &'a JsonValue, name: &str) -> &'a JsonValue {
    match v {
        JsonValue::Obj(fields) => {
            for (k, val) in fields {
                if k == name {
                    return val;
                }
            }
            panic!("no field {:?} in {:?}", name, v);
        }
        other => panic!("not an object: {:?}", other),
    }
}

#[test]
fn initialize_reports_the_advertised_capabilities() {
    let h = initialize(None);
    assert!(h.calls.is_empty());
    let v = match h.reply {
        Some(Outcome::Success(v)) => v,
        other => panic!("expected a success reply, got {:?}", other),
    };
    let caps = field(&v, "capabilities");
    assert_eq!(field(caps, "textDocumentSync"), &JsonValue::Num(2));
    let comp = field(caps, "completionProvider");
    assert_eq!(field(comp, "resolveProvider"), &JsonValue::Bool(false));
    assert_eq!(
        field(comp, "triggerCharacters"),
        &JsonValue::Arr(vec![JsonValue::Str(".".to_string())])
    );
    let exec = field(caps, "executeCommandProvider");
    assert_eq!(
        field(exec, "commands"),
        &JsonValue::Arr(vec![JsonValue::Str("dummy.do_something".to_string())])
    );
    let ws = field(field(caps, "workspace"), "workspaceFolders");
    assert_eq!(field(ws, "supported"), &JsonValue::Bool(true));
    assert_eq!(field(ws, "changeNotifications"), &JsonValue::Bool(true));
}

#[test]
fn shutdown_replies_null() {
    let h = shutdown();
    assert!(h.calls.is_empty());
    assert_eq!(h.reply, Some(Outcome::Success(JsonValue::Null)));
}

#[test]
fn document_events_only_log() {
    for (h, text) in [
        (initialized(None), "initialized!"),
        (did_change_workspace_folders(None), "workspace folders changed!"),
        (did_change_configuration(None), "configuration changed!"),
        (did_change_watched_files(None), "watched files have changed!"),
        (did_open(None), "file opened!"),
        (did_change(None), "file changed!"),
        (did_save(None), "file saved!"),
        (did_close(None), "file closed!"),
    ] {
        assert!(h.reply.is_none());
        assert_eq!(
            h.calls,
            vec![ClientCall::LogMessage { level: LOG_INFO, text: text.to_string() }]
        );
    }
}

#[test]
fn execute_command_asks_for_an_edit_and_replies_null() {
    let h = execute_command(None);
    assert_eq!(h.reply, Some(Outcome::Success(JsonValue::Null)));
    assert_eq!(
        h.calls,
        vec![
            ClientCall::LogMessage { level: LOG_INFO, text: "command executed!".to_string() },
            ClientCall::ApplyEdit,
        ]
    );
}

#[test]
fn applied_edit_is_logged_as_applied() {
    let v = JsonValue::Obj(vec![("applied".to_string(), JsonValue::Bool(true))]);
    let c = execute_command_applied(&RoundTripResult::Value(v));
    assert_eq!(c, ClientCall::LogMessage { level: LOG_INFO, text: "applied".to_string() });
}

#[test]
fn rejected_edit_is_logged_as_rejected() {
    let v = JsonValue::Obj(vec![("applied".to_string(), JsonValue::Bool(false))]);
    let c = execute_command_applied(&RoundTripResult::Value(v));
    assert_eq!(c, ClientCall::LogMessage { level: LOG_INFO, text: "rejected".to_string() });
}

#[test]
fn failed_edit_logs_the_error() {
    let e = ErrorObject { code: -1, message: "no editor".to_string(), data: None };
    let c = execute_command_applied(&RoundTripResult::Error(e));
    assert_eq!(c, ClientCall::LogMessage { level: LOG_ERROR, text: "no editor".to_string() });
}

#[test]
fn closed_connection_during_edit_logs_an_error() {
    let c = execute_command_applied(&RoundTripResult::ConnectionClosed);
    assert_eq!(
        c,
        ClientCall::LogMessage { level: LOG_ERROR, text: "connection closed".to_string() }
    );
}

#[test]
fn completion_offers_the_two_items() {
    let h = completion(None);
    assert!(h.calls.is_empty());
    let v = match h.reply {
        Some(Outcome::Success(v)) => v,
        other => panic!("expected a success reply, got {:?}", other),
    };
    match v {
        JsonValue::Arr(items) => {
            assert_eq!(items.len(), 2);
            assert_eq!(field(&items[0], "label"), &JsonValue::Str("Hello".to_string()));
            assert_eq!(field(&items[0], "detail"), &JsonValue::Str("Some detail".to_string()));
            assert_eq!(field(&items[1], "label"), &JsonValue::Str("Bye".to_string()));
            assert_eq!(field(&items[1], "detail"), &JsonValue::Str("More detail".to_string()));
        }
        other => panic!("expected an array, got {:?}", other),
    }
}
