//! The JSON-RPC envelope: requests, notifications, responses, batches,
//! and the classification of a decoded document into one of them.
//!
//! Classification follows the envelope shape alone: an `id` together
//! with a `method` makes a request, a `method` without an `id` a
//! notification, an `id` without a `method` (with `result` or `error`)
//! a response.  Anything else is invalid; where an id can still be
//! read from the document it is salvaged, so the caller can answer
//! with an error response instead of staying silent.

use vstd::prelude::*;
use crate::json::{JsonValue, lookup_spec, lemma_lookup_snoc};

verus! {

/// The standard "parse error" code.
pub const PARSE_ERROR: i64 = -32700;
/// The standard "invalid request" code.
pub const INVALID_REQUEST: i64 = -32600;
/// The standard "method not found" code.
pub const METHOD_NOT_FOUND: i64 = -32601;
/// The standard "invalid params" code.
pub const INVALID_PARAMS: i64 = -32602;
/// The standard "internal error" code.
pub const INTERNAL_ERROR: i64 = -32603;
/// The protocol code for a request arriving before `initialize`.
pub const SERVER_NOT_INITIALIZED: i64 = -32002;
/// The protocol code for a cancelled request.
pub const REQUEST_CANCELLED: i64 = -32800;

/// A message id: an integer or a string.
#[derive(Debug, PartialEq)]
pub enum MsgId {
    Num(i64),
    Str(String),
}

/// The mathematical value of an id.
pub enum IdModel {
    Num(int),
    Str(Seq<char>),
}

impl View for MsgId {
    type V = IdModel;

    open spec fn view(&self) -> IdModel {
        match self {
            MsgId::Num(n) => IdModel::Num(*n as int),
            MsgId::Str(s) => IdModel::Str(s@),
        }
    }
}

/// Whether two ids name the same request.
pub fn id_eq(a: &MsgId, b: &MsgId) -> (r: bool)
    ensures
        r == (a@ == b@),
{
    match (a, b) {
        (MsgId::Num(x), MsgId::Num(y)) => *x == *y,
        (MsgId::Str(x), MsgId::Str(y)) => *x == *y,
        _ => false,
    }
}

/// The error member of a response: a code, a message, optional data.
#[derive(Debug, PartialEq)]
pub struct ErrorObject {
    pub code: i64,
    pub message: String,
    pub data: Option<JsonValue>,
}

/// What a response carries: a result or an error, never both.
#[derive(Debug, PartialEq)]
pub enum Outcome {
    Success(JsonValue),
    Failure(ErrorObject),
}

/// An id-bearing invocation expecting exactly one response.
#[derive(Debug, PartialEq)]
pub struct Request {
    pub id: MsgId,
    pub method: String,
    pub params: Option<JsonValue>,
}

/// An id-less invocation expecting no reply.
#[derive(Debug, PartialEq)]
pub struct Notification {
    pub method: String,
    pub params: Option<JsonValue>,
}

/// A reply to a request, correlated by id.
#[derive(Debug, PartialEq)]
pub struct Response {
    pub id: MsgId,
    pub outcome: Outcome,
}

/// One classified envelope, in either direction.
#[derive(Debug, PartialEq)]
pub enum Message {
    Req(Request),
    Note(Notification),
    Resp(Response),
}

/// A document classified: one message, or an ordered batch of them.
/// Each entry is either a message or, for an invalid shape, the id
/// salvaged from it, if any.
#[derive(Debug, PartialEq)]
pub enum Classified {
    Single(Result<Message, Option<MsgId>>),
    Batch(Vec<Result<Message, Option<MsgId>>>),
}

/// The document value an id is written as.
pub open spec fn id_json(id: MsgId) -> JsonValue {
    match id {
        MsgId::Num(n) => JsonValue::Num(n),
        MsgId::Str(s) => JsonValue::Str(s),
    }
}

/// The wire form of an outgoing message: the envelope object around
/// the payload, with the protocol version first.
pub fn envelope_value(m: Message) -> (r: JsonValue)
    ensures
        r matches JsonValue::Obj(fields) && fields@.len() >= 2 && fields@[0].0@ == "jsonrpc"@ && (
        fields@[0].1 matches JsonValue::Str(ver) && ver@ == "2.0"@) && match m {
            Message::Req(rq) => {
                &&& fields@[1].0@ == "id"@ && fields@[1].1 == id_json(rq.id)
                &&& fields@[2].0@ == "method"@ && (fields@[2].1 matches JsonValue::Str(mm) && mm
                    == rq.method)
                &&& (rq.params matches Some(p) ==> fields@.len() == 4 && fields@[3].0@ == "params"@
                    && fields@[3].1 == p)
                &&& (rq.params is None ==> fields@.len() == 3)
            },
            Message::Note(n) => {
                &&& fields@[1].0@ == "method"@ && (fields@[1].1 matches JsonValue::Str(mm) && mm
                    == n.method)
                &&& (n.params matches Some(p) ==> fields@.len() == 3 && fields@[2].0@ == "params"@
                    && fields@[2].1 == p)
                &&& (n.params is None ==> fields@.len() == 2)
            },
            Message::Resp(resp) => {
                &&& fields@.len() == 3
                &&& fields@[1].0@ == "id"@ && fields@[1].1 == id_json(resp.id)
                &&& match resp.outcome {
                    Outcome::Success(v) => fields@[2].0@ == "result"@ && fields@[2].1 == v,
                    Outcome::Failure(e) => fields@[2].0@ == "error"@ && (
                    fields@[2].1 matches JsonValue::Obj(efs) && efs@[0].0@ == "code"@ && efs@[0].1
                        == JsonValue::Num(e.code) && efs@[1].0@ == "message"@ && (
                    efs@[1].1 matches JsonValue::Str(msg) && msg == e.message) && (
                    e.data matches Some(d) ==> efs@.len() == 3 && efs@[2].0@ == "data"@ && efs@[2].1
                        == d) && (e.data is None ==> efs@.len() == 2)),
                }
            },
        },
{
    let mut fields: Vec<(String, JsonValue)> = Vec::new();
    fields.push((String::from_str("jsonrpc"), JsonValue::Str(String::from_str("2.0"))));
    match m {
        Message::Req(rq) => {
            let idv = match rq.id {
                MsgId::Num(n) => JsonValue::Num(n),
                MsgId::Str(s) => JsonValue::Str(s),
            };
            fields.push((String::from_str("id"), idv));
            fields.push((String::from_str("method"), JsonValue::Str(rq.method)));
            match rq.params {
                Some(p) => fields.push((String::from_str("params"), p)),
                None => {},
            }
        },
        Message::Note(n) => {
            fields.push((String::from_str("method"), JsonValue::Str(n.method)));
            match n.params {
                Some(p) => fields.push((String::from_str("params"), p)),
                None => {},
            }
        },
        Message::Resp(resp) => {
            let idv = match resp.id {
                MsgId::Num(n) => JsonValue::Num(n),
                MsgId::Str(s) => JsonValue::Str(s),
            };
            fields.push((String::from_str("id"), idv));
            match resp.outcome {
                Outcome::Success(v) => fields.push((String::from_str("result"), v)),
                Outcome::Failure(e) => {
                    let mut efs: Vec<(String, JsonValue)> = Vec::new();
                    efs.push((String::from_str("code"), JsonValue::Num(e.code)));
                    efs.push((String::from_str("message"), JsonValue::Str(e.message)));
                    match e.data {
                        Some(d) => efs.push((String::from_str("data"), d)),
                        None => {},
                    }
                    fields.push((String::from_str("error"), JsonValue::Obj(efs)));
                },
            }
        },
    }
    JsonValue::Obj(fields)
}

/// The id a document value denotes, if it has the right shape.
pub open spec fn id_of_value_spec(v: JsonValue) -> Option<MsgId> {
    match v {
        JsonValue::Num(n) => Some(MsgId::Num(n)),
        JsonValue::Str(s) => Some(MsgId::Str(s)),
        _ => None,
    }
}

/// The error object a document value denotes, if it has the right
/// shape: an object with an integer `code` and a string `message`.
pub open spec fn error_object_spec(v: JsonValue) -> Option<ErrorObject> {
    match v {
        JsonValue::Obj(efs) => {
            let code = lookup_spec(efs@, "code"@);
            let message = lookup_spec(efs@, "message"@);
            let data = lookup_spec(efs@, "data"@);
            match (code, message) {
                (Some(JsonValue::Num(c)), Some(JsonValue::Str(m))) => Some(
                    ErrorObject { code: c, message: m, data },
                ),
                _ => None,
            }
        },
        _ => None,
    }
}

/// Classification of an object's fields into one message.
pub open spec fn classify_fields_spec(fields: Seq<(String, JsonValue)>) -> Result<
    Message,
    Option<MsgId>,
> {
    let id = lookup_spec(fields, "id"@);
    let method = lookup_spec(fields, "method"@);
    let params = lookup_spec(fields, "params"@);
    let result = lookup_spec(fields, "result"@);
    let error = lookup_spec(fields, "error"@);
    let salvage = match id {
        Some(idv) => id_of_value_spec(idv),
        None => None,
    };
    match method {
        Some(JsonValue::Str(m)) => match id {
            None => Ok(Message::Note(Notification { method: m, params })),
            Some(idv) => match id_of_value_spec(idv) {
                Some(mid) => Ok(Message::Req(Request { id: mid, method: m, params })),
                None => Err(None),
            },
        },
        Some(_) => Err(salvage),
        None => match salvage {
            None => Err(None),
            Some(mid) => match (result, error) {
                (Some(rv), None) => Ok(
                    Message::Resp(Response { id: mid, outcome: Outcome::Success(rv) }),
                ),
                (None, Some(ev)) => match error_object_spec(ev) {
                    Some(eo) => Ok(
                        Message::Resp(Response { id: mid, outcome: Outcome::Failure(eo) }),
                    ),
                    None => Err(Some(mid)),
                },
                _ => Err(Some(mid)),
            },
        },
    }
}

/// Classification of one document value that is not a batch.
pub open spec fn classify_one_spec(v: JsonValue) -> Result<Message, Option<MsgId>> {
    match v {
        JsonValue::Obj(fields) => classify_fields_spec(fields@),
        _ => Err(None),
    }
}

/// The envelope fields of one object, each the first occurrence of its
/// name in document order.
struct EnvelopeFields {
    id: Option<JsonValue>,
    method: Option<JsonValue>,
    params: Option<JsonValue>,
    result: Option<JsonValue>,
    error: Option<JsonValue>,
}

/// Collect the five envelope fields in one pass over the object.
fn split_envelope(fields: Vec<(String, JsonValue)>) -> (r: EnvelopeFields)
    ensures
        r.id == lookup_spec(fields@, "id"@),
        r.method == lookup_spec(fields@, "method"@),
        r.params == lookup_spec(fields@, "params"@),
        r.result == lookup_spec(fields@, "result"@),
        r.error == lookup_spec(fields@, "error"@),
{
    proof {
        reveal_strlit("id");
        reveal_strlit("method");
        reveal_strlit("params");
        reveal_strlit("result");
        reveal_strlit("error");
    }
    let ghost orig = fields@;
    let mut rest = fields;
    let ghost mut done: Seq<(String, JsonValue)> = Seq::empty();
    let mut r = EnvelopeFields { id: None, method: None, params: None, result: None, error: None };
    while rest.len() > 0
        invariant
            orig =~= done + rest@,
            r.id == lookup_spec(done, "id"@),
            r.method == lookup_spec(done, "method"@),
            r.params == lookup_spec(done, "params"@),
            r.result == lookup_spec(done, "result"@),
            r.error == lookup_spec(done, "error"@),
        decreases rest.len(),
    {
        let f = rest.remove(0);
        proof {
            reveal_strlit("id");
            reveal_strlit("method");
            reveal_strlit("params");
            reveal_strlit("result");
            reveal_strlit("error");
            assert("id"@.len() == 2);
            assert("method"@.len() == 6);
            assert("params"@.len() == 6);
            assert("result"@.len() == 6);
            assert("error"@.len() == 5);
            assert("method"@[0] == 'm' && "params"@[0] == 'p' && "result"@[0] == 'r');
            assert("method"@ != "params"@ && "method"@ != "result"@ && "params"@ != "result"@);
            lemma_lookup_snoc(done, f, "id"@);
            lemma_lookup_snoc(done, f, "method"@);
            lemma_lookup_snoc(done, f, "params"@);
            lemma_lookup_snoc(done, f, "result"@);
            lemma_lookup_snoc(done, f, "error"@);
        }
        let (name, value) = f;
        if r.id.is_none() && crate::json::str_eq(&name, "id") {
            r.id = Some(value);
        } else if r.method.is_none() && crate::json::str_eq(&name, "method") {
            r.method = Some(value);
        } else if r.params.is_none() && crate::json::str_eq(&name, "params") {
            r.params = Some(value);
        } else if r.result.is_none() && crate::json::str_eq(&name, "result") {
            r.result = Some(value);
        } else if r.error.is_none() && crate::json::str_eq(&name, "error") {
            r.error = Some(value);
        }
        proof {
            done = done.push((name, value));
            assert(orig =~= done + rest@);
        }
    }
    proof {
        assert(done =~= orig);
    }
    r
}

/// The id a document value denotes, if any.
fn id_of_value(v: JsonValue) -> (r: Option<MsgId>)
    ensures
        r == id_of_value_spec(v),
{
    match v {
        JsonValue::Num(n) => Some(MsgId::Num(n)),
        JsonValue::Str(s) => Some(MsgId::Str(s)),
        _ => None,
    }
}

/// Read a response's `error` member.
fn parse_error_object(v: JsonValue) -> (r: Option<ErrorObject>)
    ensures
        r == error_object_spec(v),
{
    match v {
        JsonValue::Obj(efs) => {
            proof {
                reveal_strlit("code");
                reveal_strlit("message");
                reveal_strlit("data");
            }
            let ghost orig = efs@;
            let mut rest = efs;
            let ghost mut done: Seq<(String, JsonValue)> = Seq::empty();
            let mut code: Option<JsonValue> = None;
            let mut message: Option<JsonValue> = None;
            let mut data: Option<JsonValue> = None;
            while rest.len() > 0
                invariant
                    orig =~= done + rest@,
                    code == lookup_spec(done, "code"@),
                    message == lookup_spec(done, "message"@),
                    data == lookup_spec(done, "data"@),
                decreases rest.len(),
            {
                let f = rest.remove(0);
                proof {
                    reveal_strlit("code");
                    reveal_strlit("message");
                    reveal_strlit("data");
                    assert("code"@.len() == 4);
                    assert("message"@.len() == 7);
                    assert("data"@.len() == 4);
                    assert("code"@[0] == 'c' && "data"@[0] == 'd');
                    assert("code"@ != "data"@);
                    lemma_lookup_snoc(done, f, "code"@);
                    lemma_lookup_snoc(done, f, "message"@);
                    lemma_lookup_snoc(done, f, "data"@);
                }
                let (name, value) = f;
                if code.is_none() && crate::json::str_eq(&name, "code") {
                    code = Some(value);
                } else if message.is_none() && crate::json::str_eq(&name, "message") {
                    message = Some(value);
                } else if data.is_none() && crate::json::str_eq(&name, "data") {
                    data = Some(value);
                }
                proof {
                    done = done.push((name, value));
                    assert(orig =~= done + rest@);
                }
            }
            proof {
                assert(done =~= orig);
            }
            match (code, message) {
                (Some(JsonValue::Num(c)), Some(JsonValue::Str(m))) => Some(
                    ErrorObject { code: c, message: m, data },
                ),
                _ => None,
            }
        },
        _ => None,
    }
}

/// Classify one document value that is not a batch.
pub fn classify_one(v: JsonValue) -> (r: Result<Message, Option<MsgId>>)
    ensures
        r == classify_one_spec(v),
{
    match v {
        JsonValue::Obj(fields) => {
            let e = split_envelope(fields);
            let EnvelopeFields { id, method, params, result, error } = e;
            match method {
                Some(JsonValue::Str(m)) => match id {
                    None => Ok(Message::Note(Notification { method: m, params })),
                    Some(idv) => match id_of_value(idv) {
                        Some(mid) => Ok(Message::Req(Request { id: mid, method: m, params })),
                        None => Err(None),
                    },
                },
                Some(_) => match id {
                    Some(idv) => Err(id_of_value(idv)),
                    None => Err(None),
                },
                None => {
                    let salvage = match id {
                        Some(idv) => id_of_value(idv),
                        None => None,
                    };
                    match salvage {
                        None => Err(None),
                        Some(mid) => match (result, error) {
                            (Some(rv), None) => Ok(
                                Message::Resp(Response { id: mid, outcome: Outcome::Success(rv) }),
                            ),
                            (None, Some(ev)) => match parse_error_object(ev) {
                                Some(eo) => Ok(
                                    Message::Resp(
                                        Response { id: mid, outcome: Outcome::Failure(eo) },
                                    ),
                                ),
                                None => Err(Some(mid)),
                            },
                            _ => Err(Some(mid)),
                        },
                    }
                },
            }
        },
        _ => Err(None),
    }
}

/// Classify a decoded document: a batch becomes its elements, each
/// classified on its own; anything else is classified as one message.
pub fn classify(v: JsonValue) -> (r: Classified)
    ensures
        match v {
            JsonValue::Arr(xs) => (r matches Classified::Batch(items) && items@.len() == xs@.len()
                && forall|i: int|
                0 <= i < xs@.len() ==> items@[i] == classify_one_spec(xs@[i])),
            _ => r matches Classified::Single(item) && item == classify_one_spec(v),
        },
{
    match v {
        JsonValue::Arr(xs) => {
            let ghost orig = xs@;
            let mut rest = xs;
            let mut items: Vec<Result<Message, Option<MsgId>>> = Vec::new();
            while rest.len() > 0
                invariant
                    orig.len() == items@.len() + rest@.len(),
                    orig.skip(items@.len() as int) =~= rest@,
                    forall|i: int|
                        0 <= i < items@.len() ==> items@[i] == classify_one_spec(orig[i]),
                decreases rest.len(),
            {
                let x = rest.remove(0);
                proof {
                    assert(x == orig[items@.len() as int]);
                    assert(orig.skip(items@.len() as int).skip(1) =~= orig.skip(
                        items@.len() as int + 1,
                    ));
                }
                let c = classify_one(x);
                items.push(c);
            }
            Classified::Batch(items)
        },
        _ => Classified::Single(classify_one(v)),
    }
}

} // verus!
