use lsp_runtime::channel::OutboundQueue;
use lsp_runtime::dispatch::DispatchTable;
use lsp_runtime::json::JsonValue;
use lsp_runtime::lifecycle::LifecycleState;
use lsp_runtime::message::{
    Message, MsgId, Notification, Outcome, Request, INVALID_REQUEST, METHOD_NOT_FOUND,
    SERVER_NOT_INITIALIZED,
};
use lsp_runtime::pending::PendingTracker;
use lsp_runtime::server::{RoundTripResult, ServerAction, ServerCore};

fn req(id: i64, method: &str) -> Result<Message, Option<MsgId>> {
    Ok(Message::Req(Request { id: MsgId::Num(id), method: method.to_string(), params: None }))
}

fn note(method: &str) -> Result<Message, Option<MsgId>> {
    Ok(Message::Note(Notification { method: method.to_string(), params: None }))
}

fn resp(id: i64, outcome: Outcome) -> Result<Message, Option<MsgId>> {
    Ok(Message::Resp(lsp_runtime::message::Response { id: MsgId::Num(id), outcome }))
}

fn error_code_of(a: &ServerAction) -> Option<(MsgId, i64)> {
    if let ServerAction::Emit(Message::Resp(r)) = a {
        if let Outcome::Failure(e) = &r.outcome {
            return Some((id_copy(&r.id), e.code));
        }
    }
    None
}

fn id_copy(id: &MsgId) -> MsgId {
    match id {
        MsgId::Num(n) => MsgId::Num(*n),
        MsgId::Str(s) => MsgId::Str(s.clone()),
    }
}

fn standard_core() -> ServerCore {
    let mut table = DispatchTable::new();
    assert!(table.register("initialize".to_string(), 0));
    assert!(table.register("textDocument/completion".to_string(), 1));
    assert!(table.register("a".to_string(), 2));
    assert!(table.register("b".to_string(), 3));
    assert!(table.register("c".to_string(), 4));
    ServerCore::new(table)
}

fn initialized_core() -> ServerCore {
    let mut core = standard_core();
    let acts = core.on_incoming(req(100, "initialize"));
    assert_eq!(acts.len(), 1);
    let acts = core.on_handler_reply(MsgId::Num(100), Outcome::Success(JsonValue::Null));
    assert_eq!(acts.len(), 1);
    let acts = core.on_incoming(note("initialized"));
    assert_eq!(acts.len(), 0);
    assert_eq!(core.phase_now(), LifecycleState::Initialized);
    core
}

#[test]
fn full_session_scenario() {
    let mut core = standard_core();
    assert_eq!(core.phase_now(), LifecycleState::Uninitialized);

    // initialize is dispatched to its handler ...
    let acts = core.on_incoming(req(1, "initialize"));
    assert_eq!(acts.len(), 1);
    assert!(matches!(
        &acts[0],
        ServerAction::Start { handler: 0, request: Some(MsgId::Num(1)), .. }
    ));
    assert_eq!(core.phase_now(), LifecycleState::Initializing);

    // ... and its completion is the response carrying id 1.
    let h = lsp_runtime::backend::initialize(None);
    let acts = core.on_handler_reply(MsgId::Num(1), h.reply.unwrap());
    assert_eq!(acts.len(), 1);
    match &acts[0] {
        ServerAction::Emit(Message::Resp(r)) => {
            assert_eq!(r.id, MsgId::Num(1));
            assert!(matches!(r.outcome, Outcome::Success(JsonValue::Obj(_))));
        }
        other => panic!("expected a response, got {:?}", other),
    }

    // the initialized notification gets no response.
    let acts = core.on_incoming(note("initialized"));
    assert_eq!(acts.len(), 0);
    assert_eq!(core.phase_now(), LifecycleState::Initialized);

    // an unknown method gets exactly one method-not-found error.
    let acts = core.on_incoming(req(2, "unknown/thing"));
    assert_eq!(acts.len(), 1);
    assert_eq!(error_code_of(&acts[0]), Some((MsgId::Num(2), METHOD_NOT_FOUND)));

    // shutdown, unregistered, is answered with a null result.
    let acts = core.on_incoming(req(3, "shutdown"));
    assert_eq!(acts.len(), 1);
    match &acts[0] {
        ServerAction::Emit(Message::Resp(r)) => {
            assert_eq!(r.id, MsgId::Num(3));
            assert_eq!(r.outcome, Outcome::Success(JsonValue::Null));
        }
        other => panic!("expected a response, got {:?}", other),
    }
    assert_eq!(core.phase_now(), LifecycleState::ShuttingDown);

    // exit closes the connection with no further output ...
    let acts = core.on_incoming(note("exit"));
    assert_eq!(acts, vec![ServerAction::Close]);
    assert_eq!(core.phase_now(), LifecycleState::Exited);

    // ... and nothing is processed after that.
    let acts = core.on_incoming(req(4, "a"));
    assert_eq!(acts.len(), 0);
    let acts = core.on_incoming(note("initialized"));
    assert_eq!(acts.len(), 0);
}

#[test]
fn request_before_initialize_is_refused() {
    let mut core = standard_core();
    let acts = core.on_incoming(req(9, "textDocument/completion"));
    assert_eq!(acts.len(), 1);
    assert_eq!(error_code_of(&acts[0]), Some((MsgId::Num(9), SERVER_NOT_INITIALIZED)));
    assert_eq!(core.phase_now(), LifecycleState::Uninitialized);
}

#[test]
fn unknown_notification_produces_no_message() {
    let mut core = initialized_core();
    let acts = core.on_incoming(note("workspace/didWhatever"));
    assert_eq!(acts.len(), 1);
    assert!(matches!(acts[0], ServerAction::Log(_)));
}

#[test]
fn distinct_ids_each_answered_once_in_any_order() {
    let mut core = initialized_core();
    for (id, m) in [(1, "a"), (2, "b"), (3, "c")] {
        let acts = core.on_incoming(req(id, m));
        assert_eq!(acts.len(), 1);
        assert!(matches!(acts[0], ServerAction::Start { .. }));
    }
    assert_eq!(core.open_requests(), 3);

    // completions come back out of order; each id appears in exactly
    // one response.
    let mut answered = Vec::new();
    for id in [2, 3, 1] {
        let acts = core.on_handler_reply(MsgId::Num(id), Outcome::Success(JsonValue::Null));
        assert_eq!(acts.len(), 1);
        match &acts[0] {
            ServerAction::Emit(Message::Resp(r)) => answered.push(id_copy(&r.id)),
            other => panic!("expected a response, got {:?}", other),
        }
    }
    answered.sort_by_key(|id| match id {
        MsgId::Num(n) => *n,
        MsgId::Str(_) => unreachable!(),
    });
    assert_eq!(answered, vec![MsgId::Num(1), MsgId::Num(2), MsgId::Num(3)]);

    // a second completion for an already answered id emits nothing.
    let acts = core.on_handler_reply(MsgId::Num(2), Outcome::Success(JsonValue::Null));
    assert_eq!(acts.len(), 1);
    assert!(matches!(acts[0], ServerAction::Log(_)));
}

#[test]
fn duplicate_live_id_is_refused() {
    let mut core = initialized_core();
    let acts = core.on_incoming(req(1, "a"));
    assert!(matches!(acts[0], ServerAction::Start { .. }));
    let acts = core.on_incoming(req(1, "b"));
    assert_eq!(acts.len(), 1);
    assert_eq!(error_code_of(&acts[0]), Some((MsgId::Num(1), INVALID_REQUEST)));
}

#[test]
fn pending_round_trips_resolve_on_close() {
    let mut core = initialized_core();
    let m1 = core.begin_round_trip("workspace/applyEdit".to_string(), None, 7).unwrap();
    let m2 = core.begin_round_trip("window/showMessageRequest".to_string(), None, 8).unwrap();
    assert!(matches!(m1, Message::Req(_)));
    assert!(matches!(m2, Message::Req(_)));
    assert_eq!(core.live_round_trips(), 2);

    let acts = core.on_stream_closed();
    assert_eq!(
        acts,
        vec![
            ServerAction::Resolve { slot: 7, outcome: RoundTripResult::ConnectionClosed },
            ServerAction::Resolve { slot: 8, outcome: RoundTripResult::ConnectionClosed },
            ServerAction::Close,
        ]
    );
    assert_eq!(core.live_round_trips(), 0);
    assert_eq!(core.phase_now(), LifecycleState::Exited);
}

#[test]
fn round_trip_resolves_on_matching_response() {
    let mut core = initialized_core();
    let m = core.begin_round_trip("workspace/applyEdit".to_string(), None, 5).unwrap();
    let id = match m {
        Message::Req(rq) => match rq.id {
            MsgId::Num(n) => n,
            other => panic!("expected a numeric id, got {:?}", other),
        },
        other => panic!("expected a request, got {:?}", other),
    };
    let acts = core.on_incoming(resp(id, Outcome::Success(JsonValue::Bool(true))));
    assert_eq!(
        acts,
        vec![ServerAction::Resolve {
            slot: 5,
            outcome: RoundTripResult::Value(JsonValue::Bool(true)),
        }]
    );
    assert_eq!(core.live_round_trips(), 0);
}

#[test]
fn unmatched_response_is_only_logged() {
    let mut core = initialized_core();
    let acts = core.on_incoming(resp(99, Outcome::Success(JsonValue::Null)));
    assert_eq!(acts.len(), 1);
    assert!(matches!(acts[0], ServerAction::Log(_)));
}

#[test]
fn invalid_shape_with_salvaged_id_gets_an_error_response() {
    let mut core = initialized_core();
    let acts = core.on_incoming(Err(Some(MsgId::Num(4))));
    assert_eq!(acts.len(), 1);
    assert_eq!(error_code_of(&acts[0]), Some((MsgId::Num(4), INVALID_REQUEST)));
}

#[test]
fn invalid_shape_without_id_is_only_logged() {
    let mut core = initialized_core();
    let acts = core.on_incoming(Err(None));
    assert_eq!(acts.len(), 1);
    assert!(matches!(acts[0], ServerAction::Log(_)));
}

#[test]
fn exit_before_shutdown_still_exits() {
    let mut core = standard_core();
    let acts = core.on_incoming(note("exit"));
    assert_eq!(acts.len(), 2);
    assert!(matches!(acts[0], ServerAction::Log(_)));
    assert_eq!(acts[1], ServerAction::Close);
    assert_eq!(core.phase_now(), LifecycleState::Exited);
}

#[test]
fn registration_refuses_a_second_handler_for_a_method() {
    let mut table = DispatchTable::new();
    assert!(table.register("m".to_string(), 0));
    assert!(!table.register("m".to_string(), 1));
    assert_eq!(table.len(), 1);
    assert_eq!(table.lookup(&"m".to_string()), Some(0));
    assert_eq!(table.lookup(&"absent".to_string()), None);
}

#[test]
fn tracker_holds_each_id_once() {
    let mut t = PendingTracker::new();
    assert!(t.insert(MsgId::Num(1), 10));
    assert!(!t.insert(MsgId::Num(1), 11));
    assert!(t.insert(MsgId::Str("x".to_string()), 12));
    assert_eq!(t.len(), 2);
    assert!(t.contains(&MsgId::Num(1)));
    assert_eq!(t.resolve(&MsgId::Num(1)), Some(10));
    assert_eq!(t.resolve(&MsgId::Num(1)), None);
    let slots = t.close_all();
    assert_eq!(slots, vec![12]);
    assert_eq!(t.len(), 0);
}

#[test]
fn outbound_queue_is_first_in_first_out() {
    let mut q = OutboundQueue::new();
    q.enqueue(Message::Note(Notification { method: "a".to_string(), params: None }));
    q.enqueue(Message::Note(Notification { method: "b".to_string(), params: None }));
    match q.dequeue() {
        Some(Message::Note(n)) => assert_eq!(n.method, "a"),
        other => panic!("expected the first notification, got {:?}", other),
    }
    match q.dequeue() {
        Some(Message::Note(n)) => assert_eq!(n.method, "b"),
        other => panic!("expected the second notification, got {:?}", other),
    }
    assert!(q.dequeue().is_none());
    assert_eq!(q.len(), 0);
}

#[test]
fn round_trip_ids_are_fresh() {
    let mut core = initialized_core();
    let m1 = core.begin_round_trip("x".to_string(), None, 1).unwrap();
    let m2 = core.begin_round_trip("y".to_string(), None, 2).unwrap();
    let (id1, id2) = match (m1, m2) {
        (Message::Req(a), Message::Req(b)) => (a.id, b.id),
        _ => panic!("expected two requests"),
    };
    assert_ne!(id1, id2);
}

#[test]
fn notifications_before_initialize_are_ignored() {
    let mut core = standard_core();
    let acts = core.on_incoming(note("textDocument/didOpen"));
    assert_eq!(acts.len(), 1);
    assert!(matches!(acts[0], ServerAction::Log(_)));
    assert_eq!(core.phase_now(), LifecycleState::Uninitialized);
}

#[test]
fn initialize_twice_is_an_invalid_request() {
    let mut core = initialized_core();
    let acts = core.on_incoming(req(50, "initialize"));
    assert_eq!(acts.len(), 1);
    assert_eq!(error_code_of(&acts[0]), Some((MsgId::Num(50), INVALID_REQUEST)));
    assert_eq!(core.phase_now(), LifecycleState::Initialized);
}

#[test]
fn requests_still_run_while_shutting_down() {
    let mut core = initialized_core();
    let acts = core.on_incoming(req(60, "shutdown"));
    assert_eq!(acts.len(), 1);
    assert_eq!(core.phase_now(), LifecycleState::ShuttingDown);
    let acts = core.on_incoming(req(61, "a"));
    assert_eq!(acts.len(), 1);
    assert!(matches!(acts[0], ServerAction::Start { .. }));
}

#[test]
fn string_ids_round_trip_through_dispatch() {
    let mut core = initialized_core();
    let id = MsgId::Str("alpha".to_string());
    let acts = core.on_incoming(Ok(Message::Req(Request {
        id: id_copy(&id),
        method: "a".to_string(),
        params: None,
    })));
    assert!(matches!(acts[0], ServerAction::Start { .. }));
    let acts = core.on_handler_reply(id_copy(&id), Outcome::Success(JsonValue::Null));
    match &acts[0] {
        ServerAction::Emit(Message::Resp(r)) => assert_eq!(r.id, id),
        other => panic!("expected a response, got {:?}", other),
    }
}

#[test]
fn late_initialized_notification_is_ignored() {
    let mut core = initialized_core();
    let acts = core.on_incoming(note("initialized"));
    assert_eq!(acts.len(), 1);
    assert!(matches!(acts[0], ServerAction::Log(_)));
    assert_eq!(core.phase_now(), LifecycleState::Initialized);
}
