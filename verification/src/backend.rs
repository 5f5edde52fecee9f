//! A minimal example backend for the runtime: fixed capabilities, two
//! canned completions, one command, and logging for every document
//! event.
//!
//! Each handler is a pure decision: it takes the request's arguments
//! and returns what to reply and which client calls to make.  The
//! surrounding process performs the calls — writing log notifications,
//! running the `workspace/applyEdit` round trip — and, for the one
//! handler that awaits a round trip, hands the result back to
//! [`execute_command_applied`] for the follow-up decision.

use vstd::prelude::*;
use crate::json::{JsonValue, lookup_spec, obj_get};
use crate::message::Outcome;
use crate::server::RoundTripResult;

verus! {

/// The log level of an informational message.
pub const LOG_INFO: i64 = 3;
/// The log level of an error message.
pub const LOG_ERROR: i64 = 1;

/// One call a handler asks the client to receive.
#[derive(Debug, PartialEq)]
pub enum ClientCall {
    /// A `window/logMessage` notification.
    LogMessage { level: i64, text: String },
    /// A `workspace/applyEdit` round trip carrying an empty edit.
    ApplyEdit,
}

/// What a handler decided: a reply for requests, none for
/// notifications, and the client calls to make.
#[derive(Debug, PartialEq)]
pub struct Handled {
    pub reply: Option<Outcome>,
    pub calls: Vec<ClientCall>,
}

/// Whether `h` only logs `text` at the informational level.
pub open spec fn only_logs(h: Handled, text: Seq<char>) -> bool {
    &&& h.reply is None
    &&& h.calls@.len() == 1
    &&& h.calls@[0] matches ClientCall::LogMessage { level, text: t } && level == LOG_INFO as int
        && t@ == text
}

fn log_info(text: &str) -> (c: ClientCall)
    ensures
        c matches ClientCall::LogMessage { level, text: t } && level == LOG_INFO as int && t@
            == text@,
{
    ClientCall::LogMessage { level: LOG_INFO, text: String::from_str(text) }
}

fn logging_handler(text: &str) -> (h: Handled)
    ensures
        only_logs(h, text@),
{
    let mut calls: Vec<ClientCall> = Vec::new();
    calls.push(log_info(text));
    Handled { reply: None, calls }
}

/// The completion options the server advertises: no resolve step, one
/// trigger character, a dot.
fn completion_options() -> (r: JsonValue)
    ensures
        r matches JsonValue::Obj(fs) && fs@.len() == 2 && fs@[0].0@ == "resolveProvider"@
            && fs@[0].1 == JsonValue::Bool(false) && fs@[1].0@ == "triggerCharacters"@ && (
        fs@[1].1 matches JsonValue::Arr(tc) && tc@.len() == 1 && (tc@[0] matches JsonValue::Str(d)
            && d@ == "."@)),
{
    let mut tc: Vec<JsonValue> = Vec::new();
    tc.push(JsonValue::Str(String::from_str(".")));
    let mut fs: Vec<(String, JsonValue)> = Vec::new();
    fs.push((String::from_str("resolveProvider"), JsonValue::Bool(false)));
    fs.push((String::from_str("triggerCharacters"), JsonValue::Arr(tc)));
    JsonValue::Obj(fs)
}

/// The command the server offers to execute.
fn execute_command_options() -> (r: JsonValue)
    ensures
        r matches JsonValue::Obj(fs) && fs@.len() == 1 && fs@[0].0@ == "commands"@ && (
        fs@[0].1 matches JsonValue::Arr(cs) && cs@.len() == 1 && (cs@[0] matches JsonValue::Str(c)
            && c@ == "dummy.do_something"@)),
{
    let mut cs: Vec<JsonValue> = Vec::new();
    cs.push(JsonValue::Str(String::from_str("dummy.do_something")));
    let mut fs: Vec<(String, JsonValue)> = Vec::new();
    fs.push((String::from_str("commands"), JsonValue::Arr(cs)));
    JsonValue::Obj(fs)
}

/// The workspace-folder support the server advertises.
fn workspace_options() -> (r: JsonValue)
    ensures
        r matches JsonValue::Obj(fs) && fs@.len() == 1 && fs@[0].0@ == "workspaceFolders"@ && (
        fs@[0].1 matches JsonValue::Obj(wf) && wf@.len() == 2 && wf@[0].0@ == "supported"@
            && wf@[0].1 == JsonValue::Bool(true) && wf@[1].0@ == "changeNotifications"@
            && wf@[1].1 == JsonValue::Bool(true)),
{
    let mut wf: Vec<(String, JsonValue)> = Vec::new();
    wf.push((String::from_str("supported"), JsonValue::Bool(true)));
    wf.push((String::from_str("changeNotifications"), JsonValue::Bool(true)));
    let mut fs: Vec<(String, JsonValue)> = Vec::new();
    fs.push((String::from_str("workspaceFolders"), JsonValue::Obj(wf)));
    JsonValue::Obj(fs)
}

/// The capabilities the server advertises: incremental document sync,
/// completion, one command, and workspace-folder change notification.
pub fn capabilities() -> (r: JsonValue)
    ensures
        r matches JsonValue::Obj(fs) && fs@.len() == 4 && fs@[0].0@ == "textDocumentSync"@
            && fs@[0].1 == JsonValue::Num(2) && fs@[1].0@ == "completionProvider"@ && fs@[2].0@
            == "executeCommandProvider"@ && fs@[3].0@ == "workspace"@,
{
    let mut fs: Vec<(String, JsonValue)> = Vec::new();
    fs.push((String::from_str("textDocumentSync"), JsonValue::Num(2)));
    fs.push((String::from_str("completionProvider"), completion_options()));
    fs.push((String::from_str("executeCommandProvider"), execute_command_options()));
    fs.push((String::from_str("workspace"), workspace_options()));
    JsonValue::Obj(fs)
}

/// Answer `initialize`: a result whose one field carries the
/// capabilities.
pub fn initialize(params: Option<JsonValue>) -> (h: Handled)
    ensures
        h.calls@.len() == 0,
        h.reply matches Some(o) && (o matches Outcome::Success(v) && (v matches JsonValue::Obj(fs)
            && fs@.len() == 1 && fs@[0].0@ == "capabilities"@)),
{
    let mut fs: Vec<(String, JsonValue)> = Vec::new();
    fs.push((String::from_str("capabilities"), capabilities()));
    Handled { reply: Some(Outcome::Success(JsonValue::Obj(fs))), calls: Vec::new() }
}

/// Greet the completed handshake with a log line.
pub fn initialized(params: Option<JsonValue>) -> (h: Handled)
    ensures
        only_logs(h, "initialized!"@),
{
    logging_handler("initialized!")
}

/// Answer `shutdown` with a null result.
pub fn shutdown() -> (h: Handled)
    ensures
        h.calls@.len() == 0,
        h.reply == Some(Outcome::Success(JsonValue::Null)),
{
    Handled { reply: Some(Outcome::Success(JsonValue::Null)), calls: Vec::new() }
}

/// Note a workspace-folder change.
pub fn did_change_workspace_folders(params: Option<JsonValue>) -> (h: Handled)
    ensures
        only_logs(h, "workspace folders changed!"@),
{
    logging_handler("workspace folders changed!")
}

/// Note a configuration change.
pub fn did_change_configuration(params: Option<JsonValue>) -> (h: Handled)
    ensures
        only_logs(h, "configuration changed!"@),
{
    logging_handler("configuration changed!")
}

/// Note a watched-file change.
pub fn did_change_watched_files(params: Option<JsonValue>) -> (h: Handled)
    ensures
        only_logs(h, "watched files have changed!"@),
{
    logging_handler("watched files have changed!")
}

/// Note an opened document.
pub fn did_open(params: Option<JsonValue>) -> (h: Handled)
    ensures
        only_logs(h, "file opened!"@),
{
    logging_handler("file opened!")
}

/// Note a changed document.
pub fn did_change(params: Option<JsonValue>) -> (h: Handled)
    ensures
        only_logs(h, "file changed!"@),
{
    logging_handler("file changed!")
}

/// Note a saved document.
pub fn did_save(params: Option<JsonValue>) -> (h: Handled)
    ensures
        only_logs(h, "file saved!"@),
{
    logging_handler("file saved!")
}

/// Note a closed document.
pub fn did_close(params: Option<JsonValue>) -> (h: Handled)
    ensures
        only_logs(h, "file closed!"@),
{
    logging_handler("file closed!")
}

/// Run the one command: log it, ask the client to apply an empty
/// edit, and answer null.  The round trip's result comes back through
/// [`execute_command_applied`].
pub fn execute_command(params: Option<JsonValue>) -> (h: Handled)
    ensures
        h.reply == Some(Outcome::Success(JsonValue::Null)),
        h.calls@.len() == 2,
        h.calls@[0] matches ClientCall::LogMessage { level, text } && level == LOG_INFO as int
            && text@ == "command executed!"@,
        h.calls@[1] == ClientCall::ApplyEdit,
{
    let mut calls: Vec<ClientCall> = Vec::new();
    calls.push(log_info("command executed!"));
    calls.push(ClientCall::ApplyEdit);
    Handled { reply: Some(Outcome::Success(JsonValue::Null)), calls }
}

/// Whether the client reported the edit as applied.
pub open spec fn edit_applied(v: JsonValue) -> bool {
    v matches JsonValue::Obj(fs) && lookup_spec(fs@, "applied"@) == Some(JsonValue::Bool(true))
}

/// The follow-up to the `workspace/applyEdit` round trip: log
/// "applied" or "rejected" for an answer, and the error itself for a
/// failure.
pub fn execute_command_applied(outcome: &RoundTripResult) -> (c: ClientCall)
    ensures
        match outcome {
            RoundTripResult::Value(v) => c matches ClientCall::LogMessage { level, text } && level
                == LOG_INFO as int && (edit_applied(*v) ==> text@ == "applied"@) && (!edit_applied(
                *v,
            ) ==> text@ == "rejected"@),
            RoundTripResult::Error(e) => c matches ClientCall::LogMessage { level, text } && level
                == LOG_ERROR as int && text@ == e.message@,
            RoundTripResult::ConnectionClosed => c matches ClientCall::LogMessage { level, text }
                && level == LOG_ERROR as int && text@ == "connection closed"@,
        },
{
    match outcome {
        RoundTripResult::Value(v) => {
            let applied = match v {
                JsonValue::Obj(fs) => match obj_get(fs, "applied") {
                    Some(JsonValue::Bool(b)) => *b,
                    _ => false,
                },
                _ => false,
            };
            if applied {
                log_info("applied")
            } else {
                log_info("rejected")
            }
        },
        RoundTripResult::Error(e) => ClientCall::LogMessage {
            level: LOG_ERROR,
            text: e.message.clone(),
        },
        RoundTripResult::ConnectionClosed => ClientCall::LogMessage {
            level: LOG_ERROR,
            text: String::from_str("connection closed"),
        },
    }
}

/// Answer `textDocument/completion` with two fixed items.
pub fn completion(params: Option<JsonValue>) -> (h: Handled)
    ensures
        h.calls@.len() == 0,
        h.reply matches Some(o) && (o matches Outcome::Success(v) && (v matches JsonValue::Arr(
            items,
        ) && items@.len() == 2 && (items@[0] matches JsonValue::Obj(a) && a@.len() == 2
            && a@[0].0@ == "label"@ && (a@[0].1 matches JsonValue::Str(l) && l@ == "Hello"@)
            && a@[1].0@ == "detail"@ && (a@[1].1 matches JsonValue::Str(d) && d@
            == "Some detail"@)) && (items@[1] matches JsonValue::Obj(b) && b@.len() == 2
            && b@[0].0@ == "label"@ && (b@[0].1 matches JsonValue::Str(l2) && l2@ == "Bye"@)
            && b@[1].0@ == "detail"@ && (b@[1].1 matches JsonValue::Str(d2) && d2@
            == "More detail"@)))),
{
    let a = completion_item("Hello", "Some detail");
    let b = completion_item("Bye", "More detail");
    let mut items: Vec<JsonValue> = Vec::new();
    items.push(a);
    items.push(b);
    Handled { reply: Some(Outcome::Success(JsonValue::Arr(items))), calls: Vec::new() }
}

/// A completion item with a label and a detail line.
fn completion_item(label: &str, detail: &str) -> (r: JsonValue)
    ensures
        r matches JsonValue::Obj(fs) && fs@.len() == 2 && fs@[0].0@ == "label"@ && (
        fs@[0].1 matches JsonValue::Str(l) && l@ == label@) && fs@[1].0@ == "detail"@ && (
        fs@[1].1 matches JsonValue::Str(d) && d@ == detail@),
{
    let mut fs: Vec<(String, JsonValue)> = Vec::new();
    fs.push((String::from_str("label"), JsonValue::Str(String::from_str(label))));
    fs.push((String::from_str("detail"), JsonValue::Str(String::from_str(detail))));
    JsonValue::Obj(fs)
}

} // verus!
