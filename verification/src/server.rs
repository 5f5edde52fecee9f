//! The server loop's decision core.
//!
//! The core is a state machine over plain values: the surrounding
//! process reads frames, turns their bytes into documents, classifies
//! them, and feeds each classified item here; the core answers with
//! the actions to perform — messages to write, handlers to start,
//! round trips to resolve, the connection to close — and the process
//! carries them out.  Handlers run concurrently outside the library;
//! their completions come back through [`ServerCore::on_handler_reply`],
//! in any order.  All decisions, and the bookkeeping that guarantees
//! one response per request id, live here and are verified.

use vstd::prelude::*;
use crate::dispatch::{DispatchTable, table_has};
use crate::json::JsonValue;
use crate::lifecycle::{
    LifecycleState, NotificationGate, RequestGate, gate_notification, gate_request,
    notification_gate_spec, request_gate_spec,
};
use crate::message::{
    ErrorObject, IdModel, Message, MsgId, Notification, Outcome, Request, Response, id_eq,
    INVALID_REQUEST, METHOD_NOT_FOUND, SERVER_NOT_INITIALIZED,
};
use crate::pending::{PendingTracker, tracker_has};

verus! {

/// How a server-initiated round trip ended.
#[derive(Debug, PartialEq)]
pub enum RoundTripResult {
    /// The client answered with a result.
    Value(JsonValue),
    /// The client answered with an error.
    Error(ErrorObject),
    /// The connection died first.
    ConnectionClosed,
}

/// A log-level note about a message that produced no reply.
#[derive(Clone, Copy, PartialEq, Eq, Structural, Debug)]
pub enum Diagnostic {
    /// A message whose shape fit nothing, with no id to salvage.
    UnreadableMessage,
    /// A notification for a method nobody registered.
    UnknownNotification,
    /// A notification ignored in the current phase.
    IgnoredNotification,
    /// A response whose id matches no live round trip.
    UnmatchedResponse,
    /// A handler completion for a request already answered or never
    /// dispatched.
    LateReply,
    /// An `exit` notification before `shutdown`.
    AbnormalExit,
}

/// One thing the surrounding process must do.
#[derive(Debug, PartialEq)]
pub enum ServerAction {
    /// Write this message to the output stream.
    Emit(Message),
    /// Run the handler with this index; a request hands its id along,
    /// a notification hands none.
    Start { handler: usize, request: Option<MsgId>, method: String, params: Option<JsonValue> },
    /// Complete the round trip waiting on this slot.
    Resolve { slot: usize, outcome: RoundTripResult },
    /// Note this in the log; nothing goes on the wire.
    Log(Diagnostic),
    /// Close both directions of the transport and stop.
    Close,
}

/// Whether `s` contains the id `id`.
pub open spec fn ids_has(s: Seq<IdModel>, id: IdModel) -> bool {
    exists|i: int| 0 <= i < s.len() && #[trigger] s[i] == id
}

/// Whether no id occurs twice in `s`.
pub open spec fn ids_distinct(s: Seq<IdModel>) -> bool {
    forall|i: int, j: int| 0 <= i < j < s.len() ==> #[trigger] s[i] != #[trigger] s[j]
}

/// Whether `a` writes an error response for `id` with code `code`.
pub open spec fn is_error_response(a: ServerAction, id: IdModel, code: int) -> bool {
    &&& a matches ServerAction::Emit(m)
    &&& m matches Message::Resp(resp)
    &&& resp.id@ == id
    &&& resp.outcome matches Outcome::Failure(e) && e.code == code && e.data is None
}

/// Whether `a` writes the null success response for `id`.
pub open spec fn is_null_response(a: ServerAction, id: IdModel) -> bool {
    &&& a matches ServerAction::Emit(m)
    &&& m matches Message::Resp(resp)
    &&& resp.id@ == id
    &&& resp.outcome == Outcome::Success(JsonValue::Null)
}

/// Whether `a` writes any message at all.
pub open spec fn is_emit(a: ServerAction) -> bool {
    a is Emit
}

/// A round trip's result, as a response's outcome reports it.
pub open spec fn round_trip_of(o: Outcome) -> RoundTripResult {
    match o {
        Outcome::Success(v) => RoundTripResult::Value(v),
        Outcome::Failure(e) => RoundTripResult::Error(e),
    }
}

/// The resolutions of all round trips in `p`, in order, as actions.
pub open spec fn closed_resolutions(p: Seq<(IdModel, usize)>) -> Seq<ServerAction> {
    p.map_values(
        |e: (IdModel, usize)| ServerAction::Resolve {
            slot: e.1,
            outcome: RoundTripResult::ConnectionClosed,
        },
    )
}

/// An error response as a message.
fn error_response(id: MsgId, code: i64, text: &str) -> (m: Message)
    ensures
        m matches Message::Resp(resp) && resp.id == id && (resp.outcome matches Outcome::Failure(e)
            && e.code == code && e.message@ == text@ && e.data is None),
{
    Message::Resp(
        Response {
            id,
            outcome: Outcome::Failure(
                ErrorObject { code, message: String::from_str(text), data: None },
            ),
        },
    )
}

/// A copy of an id.
fn id_clone(a: &MsgId) -> (r: MsgId)
    ensures
        r == *a,
{
    match a {
        MsgId::Num(n) => MsgId::Num(*n),
        MsgId::Str(s) => MsgId::Str(s.clone()),
    }
}

/// A notification message, for a handler or the loop to send to the
/// client.
pub fn client_notification(method: String, params: Option<JsonValue>) -> (m: Message)
    ensures
        m == Message::Note(Notification { method, params }),
{
    Message::Note(Notification { method, params })
}

/// The decision core of one server session.
pub struct ServerCore {
    state: LifecycleState,
    table: DispatchTable,
    pending: PendingTracker,
    inflight: Vec<MsgId>,
    next_id: i64,
}

impl ServerCore {
    /// The session's phase.
    pub closed spec fn phase(&self) -> LifecycleState {
        self.state
    }

    /// The registered methods.
    pub closed spec fn table_view(&self) -> Seq<(Seq<char>, usize)> {
        self.table@
    }

    /// The live server-initiated round trips.
    pub closed spec fn pending_view(&self) -> Seq<(IdModel, usize)> {
        self.pending@
    }

    /// The inbound request ids dispatched and not yet answered.
    pub closed spec fn inflight_ids(&self) -> Seq<IdModel> {
        self.inflight@.map_values(|m: MsgId| m@)
    }

    /// The id the next server-initiated request will carry.
    pub closed spec fn next_request_id(&self) -> int {
        self.next_id as int
    }

    /// The core's invariant: no duplicate registrations, no duplicate
    /// live ids in either direction, and every live outbound id below
    /// the next one to be handed out.
    pub closed spec fn wf(&self) -> bool {
        &&& self.table.wf()
        &&& self.pending.wf()
        &&& ids_distinct(self.inflight_ids())
        &&& 0 <= self.next_id
        &&& forall|i: int|
            0 <= i < self.pending@.len() ==> ((#[trigger] self.pending@[i]).0 matches
            IdModel::Num(k) && 0 <= k < self.next_id as int)
    }

    /// A fresh core in `Uninitialized`, with its handlers fixed.
    pub fn new(table: DispatchTable) -> (r: ServerCore)
        requires
            table.wf(),
        ensures
            r.wf(),
            r.phase() == LifecycleState::Uninitialized,
            r.table_view() == table@,
            r.pending_view() == Seq::<(IdModel, usize)>::empty(),
            r.inflight_ids() == Seq::<IdModel>::empty(),
            r.next_request_id() == 0,
    {
        let r = ServerCore {
            state: LifecycleState::Uninitialized,
            table,
            pending: PendingTracker::new(),
            inflight: Vec::new(),
            next_id: 0,
        };
        proof {
            assert(r.inflight_ids() =~= Seq::<IdModel>::empty());
        }
        r
    }

    /// The session's phase, for the surrounding process.
    pub fn phase_now(&self) -> (s: LifecycleState)
        ensures
            s == self.phase(),
    {
        self.state
    }

    /// How many round trips are live.
    pub fn live_round_trips(&self) -> (n: usize)
        ensures
            n == self.pending_view().len(),
    {
        self.pending.len()
    }

    /// How many requests are dispatched and unanswered.
    pub fn open_requests(&self) -> (n: usize)
        ensures
            n == self.inflight_ids().len(),
    {
        self.inflight.len()
    }

    /// The index of `id` among the unanswered request ids, if present.
    fn inflight_find(&self, id: &MsgId) -> (r: Option<usize>)
        ensures
            match r {
                Some(i) => 0 <= i < self.inflight_ids().len() && self.inflight_ids()[i as int]
                    == id@,
                None => !ids_has(self.inflight_ids(), id@),
            },
    {
        let mut i: usize = 0;
        while i < self.inflight.len()
            invariant
                i <= self.inflight@.len(),
                self.inflight_ids().len() == self.inflight@.len(),
                forall|k: int| 0 <= k < i ==> #[trigger] self.inflight_ids()[k] != id@,
            decreases self.inflight@.len() - i,
        {
            if id_eq(&self.inflight[i], id) {
                proof {
                    assert(self.inflight_ids()[i as int] == self.inflight@[i as int]@);
                }
                return Some(i);
            }
            proof {
                assert(self.inflight_ids()[i as int] == self.inflight@[i as int]@);
            }
            i = i + 1;
        }
        None
    }

    /// Resolve every live round trip as closed, appending the actions.
    fn resolve_all_closed(&mut self, out: &mut Vec<ServerAction>)
        requires
            old(self).wf(),
        ensures
            final(self).wf(),
            final(self).phase() == old(self).phase(),
            final(self).table_view() == old(self).table_view(),
            final(self).inflight_ids() == old(self).inflight_ids(),
            final(self).next_request_id() == old(self).next_request_id(),
            final(self).pending_view().len() == 0,
            final(out)@ == old(out)@ + closed_resolutions(old(self).pending_view()),
    {
        let ghost pending0 = self.pending@;
        let ghost out0 = out@;
        let slots = self.pending.close_all();
        let mut i: usize = 0;
        while i < slots.len()
            invariant
                i <= slots@.len(),
                slots@.len() == pending0.len(),
                forall|k: int| 0 <= k < slots@.len() ==> slots@[k] == (#[trigger] pending0[k]).1,
                out@ =~= out0 + closed_resolutions(pending0).take(i as int),
            decreases slots@.len() - i,
        {
            out.push(
                ServerAction::Resolve {
                    slot: slots[i],
                    outcome: RoundTripResult::ConnectionClosed,
                },
            );
            proof {
                assert(closed_resolutions(pending0)[i as int] == ServerAction::Resolve {
                    slot: pending0[i as int].1,
                    outcome: RoundTripResult::ConnectionClosed,
                });
                assert(out@ =~= out0 + closed_resolutions(pending0).take(i + 1));
            }
            i = i + 1;
        }
        proof {
            assert(closed_resolutions(pending0).take(pending0.len() as int) =~= closed_resolutions(
                pending0,
            ));
            assert(out@ =~= out0 + closed_resolutions(pending0));
        }
    }

    /// The inbound stream has closed, or a write has failed: both are
    /// fatal.  Every live round trip resolves as closed, nothing
    /// hangs, and the session is over.
    pub fn on_stream_closed(&mut self) -> (r: Vec<ServerAction>)
        requires
            old(self).wf(),
        ensures
            final(self).wf(),
            final(self).phase() == LifecycleState::Exited,
            final(self).table_view() == old(self).table_view(),
            final(self).inflight_ids() == old(self).inflight_ids(),
            final(self).pending_view().len() == 0,
            r@ == closed_resolutions(old(self).pending_view()).push(ServerAction::Close),
    {
        let mut r: Vec<ServerAction> = Vec::new();
        self.resolve_all_closed(&mut r);
        r.push(ServerAction::Close);
        self.state = LifecycleState::Exited;
        proof {
            assert(r@ =~= closed_resolutions(old(self).pending_view()).push(ServerAction::Close));
        }
        r
    }

    /// A handler for the request `id` has finished with `outcome`.
    /// The first completion for a live id emits exactly the one
    /// response carrying that id; a completion for an id no longer
    /// live emits nothing, so no request is ever answered twice.
    pub fn on_handler_reply(&mut self, id: MsgId, outcome: Outcome) -> (r: Vec<ServerAction>)
        requires
            old(self).wf(),
        ensures
            final(self).wf(),
            final(self).phase() == old(self).phase(),
            final(self).table_view() == old(self).table_view(),
            final(self).pending_view() == old(self).pending_view(),
            final(self).next_request_id() == old(self).next_request_id(),
            old(self).phase() == LifecycleState::Exited ==> r@.len() == 0
                && final(self).inflight_ids() == old(self).inflight_ids(),
            old(self).phase() != LifecycleState::Exited && ids_has(
                old(self).inflight_ids(),
                id@,
            ) ==> {
                &&& r@.len() == 1
                &&& r@[0] == ServerAction::Emit(Message::Resp(Response { id, outcome }))
                &&& exists|i: int|
                    0 <= i < old(self).inflight_ids().len() && old(self).inflight_ids()[i] == id@
                        && final(self).inflight_ids() == old(self).inflight_ids().remove(i)
                &&& !ids_has(final(self).inflight_ids(), id@)
            },
            old(self).phase() != LifecycleState::Exited && !ids_has(
                old(self).inflight_ids(),
                id@,
            ) ==> r@.len() == 1 && r@[0] == ServerAction::Log(Diagnostic::LateReply)
                && final(self).inflight_ids() == old(self).inflight_ids(),
    {
        let mut r: Vec<ServerAction> = Vec::new();
        if matches!(self.state, LifecycleState::Exited) {
            return r;
        }
        match self.inflight_find(&id) {
            Some(i) => {
                let ghost ids0 = self.inflight_ids();
                self.inflight.remove(i);
                proof {
                    assert forall|j: int|
                        0 <= j < self.inflight_ids().len() implies #[trigger] self.inflight_ids()[j]
                        == ids0.remove(i as int)[j] by {
                        assert(self.inflight@[j] == old(self).inflight@.remove(i as int)[j]);
                        if j < i {
                            assert(self.inflight@[j] == old(self).inflight@[j]);
                        } else {
                            assert(self.inflight@[j] == old(self).inflight@[j + 1]);
                        }
                    }
                    assert(self.inflight_ids() =~= ids0.remove(i as int));
                    assert(ids_has(ids0, id@));
                    assert forall|j: int|
                        0 <= j < self.inflight_ids().len() implies #[trigger] self.inflight_ids()[j]
                        != id@ by {
                        if j < i {
                            assert(ids0[j] != ids0[i as int]);
                        } else {
                            assert(ids0[j + 1] != ids0[i as int]);
                        }
                    }
                }
                r.push(ServerAction::Emit(Message::Resp(Response { id, outcome })));
                r
            },
            None => {
                r.push(ServerAction::Log(Diagnostic::LateReply));
                r
            },
        }
    }

    /// Open a server-initiated round trip: the returned request, with
    /// a fresh id, is for the caller to put on the wire; the entry
    /// waits in the tracker until the client's response or the end of
    /// the connection resolves `slot`.
    pub fn begin_round_trip(&mut self, method: String, params: Option<JsonValue>, slot: usize) -> (r:
        Option<Message>)
        requires
            old(self).wf(),
        ensures
            final(self).wf(),
            final(self).phase() == old(self).phase(),
            final(self).table_view() == old(self).table_view(),
            final(self).inflight_ids() == old(self).inflight_ids(),
            match r {
                Some(m) => {
                    &&& old(self).phase() != LifecycleState::Exited
                    &&& old(self).next_request_id() < i64::MAX as int
                    &&& m matches Message::Req(rq) && rq.id@ == IdModel::Num(
                        old(self).next_request_id(),
                    ) && rq.method == method && rq.params == params
                    &&& final(self).pending_view() == old(self).pending_view().push(
                        (IdModel::Num(old(self).next_request_id()), slot),
                    )
                    &&& final(self).next_request_id() == old(self).next_request_id() + 1
                },
                None => {
                    &&& old(self).phase() == LifecycleState::Exited || old(self).next_request_id()
                        == i64::MAX as int
                    &&& final(self).pending_view() == old(self).pending_view()
                    &&& final(self).next_request_id() == old(self).next_request_id()
                },
            },
    {
        if matches!(self.state, LifecycleState::Exited) {
            return None;
        }
        if self.next_id == i64::MAX {
            return None;
        }
        let id = self.next_id;
        self.next_id = self.next_id + 1;
        proof {
            assert(!tracker_has(self.pending@, IdModel::Num(id as int)));
        }
        let entered = self.pending.insert(MsgId::Num(id), slot);
        proof {
            assert(entered);
        }
        Some(Message::Req(Request { id: MsgId::Num(id), method, params }))
    }

    /// One classified inbound item.  A request is dispatched,
    /// answered, or refused, as the phase admits; notifications drive the
    /// lifecycle, are dispatched, or are ignored with a diagnostic;
    /// responses resolve the matching round trip; an invalid shape is
    /// answered with an error where an id was salvaged and logged
    /// where none was.  After `Exited` nothing is processed.
    #[verifier::rlimit(60)]
    pub fn on_incoming(&mut self, item: Result<Message, Option<MsgId>>) -> (r: Vec<ServerAction>)
        requires
            old(self).wf(),
        ensures
            final(self).wf(),
            final(self).table_view() == old(self).table_view(),
            final(self).next_request_id() == old(self).next_request_id(),
            old(self).phase() == LifecycleState::Exited ==> r@.len() == 0 && final(self).phase()
                == old(self).phase() && final(self).inflight_ids() == old(self).inflight_ids()
                && final(self).pending_view() == old(self).pending_view(),
            old(self).phase() != LifecycleState::Exited ==> match item {
                Err(salvage) => {
                    &&& final(self).phase() == old(self).phase()
                    &&& final(self).inflight_ids() == old(self).inflight_ids()
                    &&& final(self).pending_view() == old(self).pending_view()
                    &&& r@.len() == 1
                    &&& match salvage {
                        Some(id) => is_error_response(r@[0], id@, INVALID_REQUEST as int),
                        None => r@[0] == ServerAction::Log(Diagnostic::UnreadableMessage),
                    }
                },
                Ok(m) => match m {
                    Message::Resp(resp) => {
                        &&& final(self).phase() == old(self).phase()
                        &&& final(self).inflight_ids() == old(self).inflight_ids()
                        &&& r@.len() == 1
                        &&& if tracker_has(old(self).pending_view(), resp.id@) {
                            &&& exists|i: int|
                                0 <= i < old(self).pending_view().len() && (#[trigger] old(
                                    self,
                                ).pending_view()[i]).0 == resp.id@ && r@[0]
                                    == ServerAction::Resolve {
                                    slot: old(self).pending_view()[i].1,
                                    outcome: round_trip_of(resp.outcome),
                                } && final(self).pending_view() == old(self).pending_view().remove(
                                    i,
                                )
                            &&& !tracker_has(final(self).pending_view(), resp.id@)
                        } else {
                            &&& r@[0] == ServerAction::Log(Diagnostic::UnmatchedResponse)
                            &&& final(self).pending_view() == old(self).pending_view()
                        }
                    },
                    Message::Req(req) => {
                        let gate = request_gate_spec(old(self).phase(), req.method@).0;
                        let next = request_gate_spec(old(self).phase(), req.method@).1;
                        &&& final(self).pending_view() == old(self).pending_view()
                        &&& (gate == RequestGate::RejectNotInitialized ==> final(self).phase()
                            == old(self).phase() && final(self).inflight_ids() == old(
                            self,
                        ).inflight_ids() && r@.len() == 1 && is_error_response(
                            r@[0],
                            req.id@,
                            SERVER_NOT_INITIALIZED as int,
                        ))
                        &&& (gate == RequestGate::RejectInvalid ==> final(self).phase() == old(
                            self,
                        ).phase() && final(self).inflight_ids() == old(self).inflight_ids()
                            && r@.len() == 1 && is_error_response(
                            r@[0],
                            req.id@,
                            INVALID_REQUEST as int,
                        ))
                        &&& ((gate == RequestGate::Dispatch || gate == RequestGate::BeginShutdown
                            || gate == RequestGate::StartInitialize) ==> if ids_has(
                            old(self).inflight_ids(),
                            req.id@,
                        ) {
                            &&& final(self).phase() == old(self).phase()
                            &&& final(self).inflight_ids() == old(self).inflight_ids()
                            &&& r@.len() == 1
                            &&& is_error_response(r@[0], req.id@, INVALID_REQUEST as int)
                        } else if table_has(old(self).table_view(), req.method@) {
                            &&& final(self).phase() == next
                            &&& final(self).inflight_ids() == old(self).inflight_ids().push(
                                req.id@,
                            )
                            &&& r@.len() == 1
                            &&& (r@[0] matches ServerAction::Start {
                                handler,
                                request,
                                method,
                                params,
                            } && (request matches Some(rid) && rid@ == req.id@) && method@
                                == req.method@ && params == req.params && exists|i: int|
                                0 <= i < old(self).table_view().len() && #[trigger] old(
                                    self,
                                ).table_view()[i] == (req.method@, handler))
                        } else if gate == RequestGate::BeginShutdown {
                            &&& final(self).phase() == next
                            &&& final(self).inflight_ids() == old(self).inflight_ids()
                            &&& r@.len() == 1
                            &&& is_null_response(r@[0], req.id@)
                        } else {
                            &&& final(self).phase() == old(self).phase()
                            &&& final(self).inflight_ids() == old(self).inflight_ids()
                            &&& r@.len() == 1
                            &&& is_error_response(r@[0], req.id@, METHOD_NOT_FOUND as int)
                        })
                    },
                    Message::Note(n) => {
                        let gate = notification_gate_spec(old(self).phase(), n.method@).0;
                        let next = notification_gate_spec(old(self).phase(), n.method@).1;
                        &&& final(self).inflight_ids() == old(self).inflight_ids()
                        &&& (gate == NotificationGate::Ignore ==> final(self).phase() == next
                            && final(self).pending_view() == old(self).pending_view() && r@.len()
                            == 1 && r@[0] == ServerAction::Log(Diagnostic::IgnoredNotification))
                        &&& ((gate == NotificationGate::Dispatch || gate
                            == NotificationGate::FinishInitialize) ==> final(self).phase() == next
                            && final(self).pending_view() == old(self).pending_view() && if
                        table_has(old(self).table_view(), n.method@) {
                            &&& r@.len() == 1
                            &&& (r@[0] matches ServerAction::Start {
                                handler,
                                request,
                                method,
                                params,
                            } && request is None && method@ == n.method@ && params == n.params
                                && exists|i: int|
                                0 <= i < old(self).table_view().len() && #[trigger] old(
                                    self,
                                ).table_view()[i] == (n.method@, handler))
                        } else if gate == NotificationGate::Dispatch {
                            r@.len() == 1 && r@[0] == ServerAction::Log(
                                Diagnostic::UnknownNotification,
                            )
                        } else {
                            r@.len() == 0
                        })
                        &&& (gate == NotificationGate::Exit ==> final(self).phase()
                            == LifecycleState::Exited && final(self).pending_view().len() == 0
                            && r@ == closed_resolutions(old(self).pending_view()).push(
                            ServerAction::Close,
                        ))
                        &&& (gate == NotificationGate::AbnormalExit ==> final(self).phase()
                            == LifecycleState::Exited && final(self).pending_view().len() == 0
                            && r@ == seq![ServerAction::Log(Diagnostic::AbnormalExit)]
                            + closed_resolutions(old(self).pending_view()).push(
                            ServerAction::Close,
                        ))
                    },
                },
            },
    {
        let mut r: Vec<ServerAction> = Vec::new();
        if matches!(self.state, LifecycleState::Exited) {
            return r;
        }
        match item {
            Err(Some(id)) => {
                r.push(ServerAction::Emit(error_response(id, INVALID_REQUEST, "invalid request")));
                r
            },
            Err(None) => {
                r.push(ServerAction::Log(Diagnostic::UnreadableMessage));
                r
            },
            Ok(Message::Resp(resp)) => {
                let Response { id, outcome } = resp;
                match self.pending.resolve(&id) {
                    Some(slot) => {
                        let rt = match outcome {
                            Outcome::Success(v) => RoundTripResult::Value(v),
                            Outcome::Failure(e) => RoundTripResult::Error(e),
                        };
                        r.push(ServerAction::Resolve { slot, outcome: rt });
                        r
                    },
                    None => {
                        r.push(ServerAction::Log(Diagnostic::UnmatchedResponse));
                        r
                    },
                }
            },
            Ok(Message::Req(req)) => {
                let Request { id, method, params } = req;
                let (gate, next) = gate_request(self.state, &method);
                match gate {
                    RequestGate::Drop => r,
                    RequestGate::RejectNotInitialized => {
                        r.push(
                            ServerAction::Emit(
                                error_response(
                                    id,
                                    SERVER_NOT_INITIALIZED,
                                    "server not initialized",
                                ),
                            ),
                        );
                        r
                    },
                    RequestGate::RejectInvalid => {
                        r.push(
                            ServerAction::Emit(error_response(id, INVALID_REQUEST, "invalid request")),
                        );
                        r
                    },
                    RequestGate::Dispatch | RequestGate::BeginShutdown
                        | RequestGate::StartInitialize => {
                        match self.inflight_find(&id) {
                            Some(_) => {
                                r.push(
                                    ServerAction::Emit(
                                        error_response(id, INVALID_REQUEST, "duplicate request id"),
                                    ),
                                );
                                r
                            },
                            None => {
                                match self.table.lookup(&method) {
                                    Some(h) => {
                                        let ghost ids0 = self.inflight_ids();
                                        self.inflight.push(id_clone(&id));
                                        proof {
                                            assert forall|k: int|
                                                0 <= k < self.inflight_ids().len() implies
                                                #[trigger] self.inflight_ids()[k] == ids0.push(
                                                id@,
                                            )[k] by {
                                                if k < ids0.len() {
                                                    assert(self.inflight@[k] == old(
                                                        self,
                                                    ).inflight@[k]);
                                                } else {
                                                    assert(self.inflight@[k]@ == id@);
                                                }
                                            }
                                            assert(self.inflight_ids() =~= ids0.push(id@));
                                            assert forall|a: int, b: int|
                                                0 <= a < b < self.inflight_ids().len() implies
                                                #[trigger] self.inflight_ids()[a] != #[trigger] self.inflight_ids()[b] by {
                                                if b == ids0.len() {
                                                    assert(!ids_has(ids0, id@));
                                                    assert(ids0[a] != id@);
                                                }
                                            }
                                        }
                                        self.state = next;
                                        r.push(
                                            ServerAction::Start {
                                                handler: h,
                                                request: Some(id),
                                                method,
                                                params,
                                            },
                                        );
                                        r
                                    },
                                    None => {
                                        if matches!(gate, RequestGate::BeginShutdown) {
                                            self.state = next;
                                            r.push(
                                                ServerAction::Emit(
                                                    Message::Resp(
                                                        Response {
                                                            id,
                                                            outcome: Outcome::Success(
                                                                JsonValue::Null,
                                                            ),
                                                        },
                                                    ),
                                                ),
                                            );
                                            r
                                        } else {
                                            r.push(
                                                ServerAction::Emit(
                                                    error_response(
                                                        id,
                                                        METHOD_NOT_FOUND,
                                                        "method not found",
                                                    ),
                                                ),
                                            );
                                            r
                                        }
                                    },
                                }
                            },
                        }
                    },
                }
            },
            Ok(Message::Note(n)) => {
                let Notification { method, params } = n;
                let (gate, next) = gate_notification(self.state, &method);
                match gate {
                    NotificationGate::Drop => r,
                    NotificationGate::Ignore => {
                        r.push(ServerAction::Log(Diagnostic::IgnoredNotification));
                        r
                    },
                    NotificationGate::Exit => {
                        self.resolve_all_closed(&mut r);
                        r.push(ServerAction::Close);
                        self.state = next;
                        proof {
                            assert(r@ =~= closed_resolutions(old(self).pending_view()).push(
                                ServerAction::Close,
                            ));
                        }
                        r
                    },
                    NotificationGate::AbnormalExit => {
                        r.push(ServerAction::Log(Diagnostic::AbnormalExit));
                        self.resolve_all_closed(&mut r);
                        r.push(ServerAction::Close);
                        self.state = next;
                        proof {
                            assert(r@ =~= seq![ServerAction::Log(Diagnostic::AbnormalExit)]
                                + closed_resolutions(old(self).pending_view()).push(
                                ServerAction::Close,
                            ));
                        }
                        r
                    },
                    NotificationGate::FinishInitialize | NotificationGate::Dispatch => {
                        self.state = next;
                        match self.table.lookup(&method) {
                            Some(h) => {
                                r.push(
                                    ServerAction::Start {
                                        handler: h,
                                        request: None,
                                        method,
                                        params,
                                    },
                                );
                                r
                            },
                            None => {
                                if matches!(gate, NotificationGate::Dispatch) {
                                    r.push(ServerAction::Log(Diagnostic::UnknownNotification));
                                }
                                r
                            },
                        }
                    },
                }
            },
        }
    }
}

} // verus!
