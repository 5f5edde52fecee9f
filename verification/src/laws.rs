//! Laws of the runtime, stated over the same spec functions the
//! contracts use.  Each is a fact a client of the library can rely on
//! without reading any body.

use vstd::prelude::*;
use crate::lifecycle::{
    LifecycleState, NotificationGate, RequestGate, notification_gate_spec, request_gate_spec,
};
use crate::message::{IdModel, Message};
use crate::server::{
    RoundTripResult, ServerAction, closed_resolutions, ids_distinct, ids_has, is_emit,
    is_error_response,
};
use crate::message::METHOD_NOT_FOUND;

verus! {

/// How many of the actions write a message on the wire.
pub open spec fn emit_count(s: Seq<ServerAction>) -> int
    decreases s.len(),
{
    if s.len() == 0 {
        0
    } else {
        emit_count(s.drop_last()) + if is_emit(s.last()) {
            1int
        } else {
            0int
        }
    }
}

/// Law: a request dispatched to a handler leaves its id live, so the
/// handler's completion — whenever it comes — is answered by exactly
/// one response carrying that id.
pub proof fn lemma_dispatched_id_live(ids: Seq<IdModel>, id: IdModel)
    ensures
        ids_has(ids.push(id), id),
{
    assert(ids.push(id)[ids.len() as int] == id);
}

/// The live ids after a completion for `x`: under distinct ids the
/// matching entry is unique, so this is exactly the inflight set the
/// server keeps after answering `x`.
pub open spec fn without_id(s: Seq<IdModel>, x: IdModel) -> Seq<IdModel> {
    if ids_has(s, x) {
        s.remove(choose|i: int| 0 <= i < s.len() && s[i] == x)
    } else {
        s
    }
}

/// Under distinct ids, a completion removes its own id and nothing
/// else, and leaves the rest distinct.
pub proof fn lemma_without_id(s: Seq<IdModel>, x: IdModel)
    requires
        ids_distinct(s),
    ensures
        ids_distinct(without_id(s, x)),
        forall|y: IdModel| ids_has(without_id(s, x), y) <==> (ids_has(s, y) && y != x),
{
    if ids_has(s, x) {
        let i = choose|i: int| 0 <= i < s.len() && s[i] == x;
        let r = s.remove(i);
        assert forall|a: int, b: int| 0 <= a < b < r.len() implies #[trigger] r[a] != #[trigger] r[b] by {
            if b < i {
                assert(r[a] == s[a] && r[b] == s[b]);
            } else if a < i {
                assert(r[a] == s[a] && r[b] == s[b + 1]);
            } else {
                assert(r[a] == s[a + 1] && r[b] == s[b + 1]);
            }
        }
        assert forall|y: IdModel| ids_has(r, y) implies ids_has(s, y) && y != x by {
            let j = choose|j: int| 0 <= j < r.len() && r[j] == y;
            if j < i {
                assert(s[j] == y);
                assert(s[j] != s[i]);
            } else {
                assert(s[j + 1] == y);
                assert(s[j + 1] != s[i]);
            }
        }
        assert forall|y: IdModel| ids_has(s, y) && y != x implies ids_has(r, y) by {
            let j = choose|j: int| 0 <= j < s.len() && s[j] == y;
            if j < i {
                assert(r[j] == y);
            } else {
                assert(j != i);
                assert(r[j - 1] == y);
            }
        }
    } else {
        assert forall|y: IdModel| ids_has(s, y) implies y != x by {}
    }
}

/// The live ids after the first `k` completions, taken in the order
/// `order` — a permutation of the positions of `ids`.
pub open spec fn after_completions(ids: Seq<IdModel>, order: Seq<int>, k: int) -> Seq<IdModel>
    decreases k,
{
    if k <= 0 {
        ids
    } else {
        without_id(after_completions(ids, order, k - 1), ids[order[k - 1]])
    }
}

/// Law: dispatch any number of requests with distinct ids and let
/// their handlers complete in an arbitrary order: when each completion
/// arrives its id is still live — so it is answered by exactly one
/// response — and afterwards that id is dead, so no later completion
/// can answer it again.  No order of completion loses or repeats an
/// answer.
pub proof fn lemma_any_completion_order(ids: Seq<IdModel>, order: Seq<int>, k: int)
    requires
        ids_distinct(ids),
        order.len() == ids.len(),
        forall|m: int| 0 <= m < order.len() ==> 0 <= #[trigger] order[m] < ids.len(),
        forall|m1: int, m2: int| 0 <= m1 < m2 < order.len() ==> order[m1] != order[m2],
        0 <= k < order.len(),
    ensures
        ids_has(after_completions(ids, order, k), ids[order[k]]),
        !ids_has(after_completions(ids, order, k + 1), ids[order[k]]),
    decreases k,
{
    lemma_after_completions_membership(ids, order, k);
    assert(ids_has(after_completions(ids, order, k), ids[order[k]]));
    lemma_without_id(after_completions(ids, order, k), ids[order[k]]);
    assert(after_completions(ids, order, k + 1) == without_id(
        after_completions(ids, order, k),
        ids[order[k]],
    ));
}

/// After `k` completions, exactly the ids whose position is not among
/// the first `k` of `order` are live, and they are still distinct.
proof fn lemma_after_completions_membership(ids: Seq<IdModel>, order: Seq<int>, k: int)
    requires
        ids_distinct(ids),
        order.len() == ids.len(),
        forall|m: int| 0 <= m < order.len() ==> 0 <= #[trigger] order[m] < ids.len(),
        forall|m1: int, m2: int| 0 <= m1 < m2 < order.len() ==> order[m1] != order[m2],
        0 <= k <= order.len(),
    ensures
        ids_distinct(after_completions(ids, order, k)),
        forall|j: int|
            0 <= j < ids.len() ==> (ids_has(after_completions(ids, order, k), #[trigger] ids[j])
                <==> !(exists|m: int| 0 <= m < k && order[m] == j)),
    decreases k,
{
    if k == 0 {
        assert forall|j: int| 0 <= j < ids.len() implies ids_has(
            after_completions(ids, order, 0),
            #[trigger] ids[j],
        ) by {
            assert(ids[j] == ids[j]);
        }
    } else {
        lemma_after_completions_membership(ids, order, k - 1);
        let prev = after_completions(ids, order, k - 1);
        let x = ids[order[k - 1]];
        lemma_without_id(prev, x);
        assert forall|j: int| 0 <= j < ids.len() implies (ids_has(
            after_completions(ids, order, k),
            #[trigger] ids[j],
        ) <==> !(exists|m: int| 0 <= m < k && order[m] == j)) by {
            if ids[j] == x {
                // distinct ids name positions uniquely
                assert(j == order[k - 1]);
                assert(order[k - 1] == order[k - 1] && 0 <= k - 1 < k);
            } else {
                assert(ids_has(without_id(prev, x), ids[j]) <==> ids_has(prev, ids[j]));
                if exists|m: int| 0 <= m < k && order[m] == j {
                    let m = choose|m: int| 0 <= m < k && order[m] == j;
                    assert(m != k - 1);
                    assert(0 <= m < k - 1);
                }
            }
        }
    }
}

/// Law: a request for an unregistered method is answered by exactly
/// one outgoing message, the error response carrying the request's id
/// and the "method not found" code.
pub proof fn lemma_method_not_found_exact(r: Seq<ServerAction>, id: IdModel)
    requires
        r.len() == 1,
        is_error_response(r[0], id, METHOD_NOT_FOUND as int),
    ensures
        emit_count(r) == 1,
{
    assert(r.drop_last() =~= Seq::<ServerAction>::empty());
    assert(emit_count(Seq::<ServerAction>::empty()) == 0);
    assert(r.last() == r[0]);
}

/// Law: a notification — here, one for an unregistered method, which
/// is only logged — produces no outgoing message at all.
pub proof fn lemma_logged_action_silent(r: Seq<ServerAction>)
    requires
        r.len() == 1,
        r[0] matches ServerAction::Log(_),
    ensures
        emit_count(r) == 0,
{
    assert(r.drop_last() =~= Seq::<ServerAction>::empty());
    assert(emit_count(Seq::<ServerAction>::empty()) == 0);
    assert(r.last() == r[0]);
}

/// Law: closing the connection with round trips pending resolves each
/// of them, in order, as "connection closed" — none is left hanging.
pub proof fn lemma_all_round_trips_resolve(p: Seq<(IdModel, usize)>)
    ensures
        closed_resolutions(p).len() == p.len(),
        forall|i: int|
            0 <= i < p.len() ==> closed_resolutions(p)[i] == (ServerAction::Resolve {
                slot: (#[trigger] p[i]).1,
                outcome: RoundTripResult::ConnectionClosed,
            }),
{
}

/// Law: the outbound queue keeps order: an enqueue changes no waiting
/// message's place, and a dequeue moves every waiting message one
/// place forward, so what one producer enqueues leaves in that order.
pub proof fn lemma_outbound_order(q: Seq<Message>, m: Message, i: int)
    requires
        0 <= i < q.len(),
    ensures
        q.push(m)[i] == q[i],
        q.push(m)[q.len() as int] == m,
        i > 0 ==> q.skip(1)[i - 1] == q[i],
{
}

/// Law: the canonical session walks the phases in order — a request
/// before `initialize` is refused as "server not initialized",
/// `initialize` opens the handshake, `initialized` completes it,
/// `shutdown` begins the close, `exit` ends the session — and once
/// `Exited`, nothing further is processed.
pub proof fn lemma_lifecycle_order(m: Seq<char>)
    ensures
        request_gate_spec(LifecycleState::Uninitialized, "initialize"@) == (
            RequestGate::StartInitialize,
            LifecycleState::Initializing,
        ),
        m != "initialize"@ ==> request_gate_spec(LifecycleState::Uninitialized, m) == (
            RequestGate::RejectNotInitialized,
            LifecycleState::Uninitialized,
        ),
        notification_gate_spec(LifecycleState::Initializing, "initialized"@) == (
            NotificationGate::FinishInitialize,
            LifecycleState::Initialized,
        ),
        request_gate_spec(LifecycleState::Initialized, "shutdown"@) == (
            RequestGate::BeginShutdown,
            LifecycleState::ShuttingDown,
        ),
        notification_gate_spec(LifecycleState::ShuttingDown, "exit"@) == (
            NotificationGate::Exit,
            LifecycleState::Exited,
        ),
        request_gate_spec(LifecycleState::Exited, m).0 == RequestGate::Drop,
        notification_gate_spec(LifecycleState::Exited, m).0 == NotificationGate::Drop,
{
    reveal_strlit("initialize");
    reveal_strlit("initialized");
    reveal_strlit("shutdown");
    reveal_strlit("exit");
    assert("initialize"@.len() == 10);
    assert("initialized"@.len() == 11);
    assert("shutdown"@.len() == 8);
    assert("exit"@.len() == 4);
}

} // verus!
