//! Laws of the application protocol, stated over the protocol machines and
//! a model of the remote proxy state.
//!
//! The remote is modelled as two maps keyed by service name — the upstream
//! address lists and the location payloads — and each successful upsert
//! replaces the entries under its service name, each successful delete
//! removes them.

use vstd::prelude::*;
use crate::protocol::{
    apply_outcome_ok, apply_step, delete_outcome_ok, delete_step, run_apply, run_delete,
    ApplyPhase, DeletePhase, ProtocolEvent, RemoteOutcome,
};

verus! {

/// The location entry the remote holds for a service.
#[verifier::ext_equal]
pub ghost struct RemoteLocation {
    pub upstream: Seq<char>,
    pub host: Seq<char>,
    pub path: Seq<char>,
}

/// The remote proxy state: upstream address lists and location entries,
/// each keyed by service name.
#[verifier::ext_equal]
pub ghost struct RemoteState {
    pub upstreams: Map<Seq<char>, Seq<Seq<char>>>,
    pub locations: Map<Seq<char>, RemoteLocation>,
}

/// What a completed apply does to a stable remote: upsert the upstream
/// addresses, then the location, under the service name.
pub open spec fn apply_effect(
    st: RemoteState,
    name: Seq<char>,
    addrs: Seq<Seq<char>>,
    loc: RemoteLocation,
) -> RemoteState {
    RemoteState {
        upstreams: st.upstreams.insert(name, addrs),
        locations: st.locations.insert(name, loc),
    }
}

/// What a completed delete does to the remote: remove both entries under
/// the service name.
pub open spec fn delete_effect(st: RemoteState, name: Seq<char>) -> RemoteState {
    RemoteState { upstreams: st.upstreams.remove(name), locations: st.locations.remove(name) }
}

/// Applying the same configuration twice against a stable remote leaves
/// the same final remote state as applying it once.
pub proof fn lemma_apply_idempotent(
    st: RemoteState,
    name: Seq<char>,
    addrs: Seq<Seq<char>>,
    loc: RemoteLocation,
)
    ensures
        apply_effect(apply_effect(st, name, addrs, loc), name, addrs, loc) == apply_effect(
            st,
            name,
            addrs,
            loc,
        ),
{
    assert(st.upstreams.insert(name, addrs).insert(name, addrs) =~= st.upstreams.insert(
        name,
        addrs,
    ));
    assert(st.locations.insert(name, loc).insert(name, loc) =~= st.locations.insert(name, loc));
    assert(apply_effect(apply_effect(st, name, addrs, loc), name, addrs, loc) =~= apply_effect(
        st,
        name,
        addrs,
        loc,
    ));
}

/// Deleting the same service twice leaves the same final remote state as
/// deleting it once; deleting an absent service leaves the remote as it
/// was.
pub proof fn lemma_delete_idempotent(st: RemoteState, name: Seq<char>)
    ensures
        delete_effect(delete_effect(st, name), name) == delete_effect(st, name),
        !st.upstreams.contains_key(name) && !st.locations.contains_key(name) ==> delete_effect(
            st,
            name,
        ) == st,
{
    assert(st.upstreams.remove(name).remove(name) =~= st.upstreams.remove(name));
    assert(st.locations.remove(name).remove(name) =~= st.locations.remove(name));
    assert(delete_effect(delete_effect(st, name), name) =~= delete_effect(st, name));
    if !st.upstreams.contains_key(name) && !st.locations.contains_key(name) {
        assert(st.upstreams.remove(name) =~= st.upstreams);
        assert(st.locations.remove(name) =~= st.locations);
        assert(delete_effect(st, name) =~= st);
    }
}

/// A delete whose two steps both come back acceptable — a success or a
/// not-found at either step — is reported as overall success.  In
/// particular a remote that reports not-found on both steps.
pub proof fn lemma_delete_tolerates_not_found(o1: RemoteOutcome, o2: RemoteOutcome)
    requires
        delete_outcome_ok(o1),
        delete_outcome_ok(o2),
    ensures
        run_delete(
            DeletePhase::SendDeleteLocation,
            seq![ProtocolEvent::Response(o1), ProtocolEvent::Response(o2)],
        ) == DeletePhase::Succeeded,
{
    let events = seq![ProtocolEvent::Response(o1), ProtocolEvent::Response(o2)];
    let e2 = seq![ProtocolEvent::Response(o2)];
    assert(events[0] == ProtocolEvent::Response(o1));
    assert(delete_step(DeletePhase::SendDeleteLocation, events[0])
        == DeletePhase::SendDeleteUpstream);
    assert(events.drop_first() =~= e2);
    assert(run_delete(DeletePhase::SendDeleteLocation, events) == run_delete(
        DeletePhase::SendDeleteUpstream,
        e2,
    ));
    assert(delete_step(DeletePhase::SendDeleteUpstream, e2[0]) == DeletePhase::Succeeded);
    assert(e2.drop_first() =~= Seq::<ProtocolEvent>::empty());
    assert(run_delete(DeletePhase::SendDeleteUpstream, e2) == run_delete(
        DeletePhase::Succeeded,
        Seq::<ProtocolEvent>::empty(),
    ));
}

/// An event that does not let the apply machine finish: a failed response,
/// or a granted retry slot.
pub open spec fn apply_failure_or_granted_slot(e: ProtocolEvent) -> bool {
    match e {
        ProtocolEvent::Response(o) => !apply_outcome_ok(o),
        ProtocolEvent::RetrySlot(more) => more,
    }
}

/// An event that does not let the delete machine finish.
pub open spec fn delete_failure_or_granted_slot(e: ProtocolEvent) -> bool {
    match e {
        ProtocolEvent::Response(o) => !delete_outcome_ok(o),
        ProtocolEvent::RetrySlot(more) => more,
    }
}

proof fn lemma_apply_error_loop(phase: ApplyPhase, events: Seq<ProtocolEvent>)
    requires
        phase == ApplyPhase::SendUpstream || phase == ApplyPhase::AwaitRetry,
        forall|i: int| 0 <= i < events.len() ==> apply_failure_or_granted_slot(#[trigger] events[i]),
    ensures
        run_apply(phase, events) == ApplyPhase::SendUpstream || run_apply(phase, events)
            == ApplyPhase::AwaitRetry,
    decreases events.len(),
{
    if events.len() > 0 {
        lemma_apply_error_loop(apply_step(phase, events[0]), events.drop_first());
    }
}

/// While the remote only fails and the backoff schedule still grants
/// slots, the apply protocol keeps retrying: it reaches no verdict, and in
/// particular does not fail before the budget is exhausted.
pub proof fn lemma_apply_retries_within_budget(events: Seq<ProtocolEvent>)
    requires
        forall|i: int| 0 <= i < events.len() ==> apply_failure_or_granted_slot(#[trigger] events[i]),
    ensures
        run_apply(ApplyPhase::SendUpstream, events) != ApplyPhase::Failed,
        run_apply(ApplyPhase::SendUpstream, events) != ApplyPhase::Succeeded,
{
    lemma_apply_error_loop(ApplyPhase::SendUpstream, events);
}

proof fn lemma_run_apply_append(phase: ApplyPhase, a: Seq<ProtocolEvent>, b: Seq<ProtocolEvent>)
    ensures
        run_apply(phase, a + b) == run_apply(run_apply(phase, a), b),
    decreases a.len(),
{
    if a.len() == 0 {
        assert(a + b =~= b);
    } else {
        assert((a + b)[0] == a[0]);
        assert((a + b).drop_first() =~= a.drop_first() + b);
        lemma_run_apply_append(apply_step(phase, a[0]), a.drop_first(), b);
    }
}

/// When the backoff schedule is exhausted after nothing but failures, the
/// apply protocol reaches its final failure: the failure comes only then.
pub proof fn lemma_apply_fails_on_exhaustion(events: Seq<ProtocolEvent>, last: RemoteOutcome)
    requires
        forall|i: int| 0 <= i < events.len() ==> apply_failure_or_granted_slot(#[trigger] events[i]),
        !apply_outcome_ok(last),
    ensures
        run_apply(
            ApplyPhase::SendUpstream,
            events + seq![ProtocolEvent::Response(last), ProtocolEvent::RetrySlot(false)],
        ) == ApplyPhase::Failed,
{
    let tail = seq![ProtocolEvent::Response(last), ProtocolEvent::RetrySlot(false)];
    let slot = seq![ProtocolEvent::RetrySlot(false)];
    lemma_run_apply_append(ApplyPhase::SendUpstream, events, tail);
    lemma_apply_error_loop(ApplyPhase::SendUpstream, events);
    let p = run_apply(ApplyPhase::SendUpstream, events);
    assert(tail[0] == ProtocolEvent::Response(last));
    assert(apply_step(p, tail[0]) == ApplyPhase::AwaitRetry);
    assert(tail.drop_first() =~= slot);
    assert(run_apply(p, tail) == run_apply(ApplyPhase::AwaitRetry, slot));
    assert(apply_step(ApplyPhase::AwaitRetry, slot[0]) == ApplyPhase::Failed);
    assert(slot.drop_first() =~= Seq::<ProtocolEvent>::empty());
    assert(run_apply(ApplyPhase::AwaitRetry, slot) == run_apply(
        ApplyPhase::Failed,
        Seq::<ProtocolEvent>::empty(),
    ));
}

proof fn lemma_delete_error_loop(phase: DeletePhase, events: Seq<ProtocolEvent>)
    requires
        phase == DeletePhase::SendDeleteLocation || phase == DeletePhase::AwaitRetry,
        forall|i: int|
            0 <= i < events.len() ==> delete_failure_or_granted_slot(#[trigger] events[i]),
    ensures
        run_delete(phase, events) == DeletePhase::SendDeleteLocation || run_delete(phase, events)
            == DeletePhase::AwaitRetry,
    decreases events.len(),
{
    if events.len() > 0 {
        lemma_delete_error_loop(delete_step(phase, events[0]), events.drop_first());
    }
}

/// While the remote only fails with retriable errors and the schedule
/// still grants slots, the delete protocol keeps retrying and reaches no
/// verdict.
pub proof fn lemma_delete_retries_within_budget(events: Seq<ProtocolEvent>)
    requires
        forall|i: int|
            0 <= i < events.len() ==> delete_failure_or_granted_slot(#[trigger] events[i]),
    ensures
        run_delete(DeletePhase::SendDeleteLocation, events) != DeletePhase::Failed,
        run_delete(DeletePhase::SendDeleteLocation, events) != DeletePhase::Succeeded,
{
    lemma_delete_error_loop(DeletePhase::SendDeleteLocation, events);
}

proof fn lemma_run_delete_append(phase: DeletePhase, a: Seq<ProtocolEvent>, b: Seq<ProtocolEvent>)
    ensures
        run_delete(phase, a + b) == run_delete(run_delete(phase, a), b),
    decreases a.len(),
{
    if a.len() == 0 {
        assert(a + b =~= b);
    } else {
        assert((a + b)[0] == a[0]);
        assert((a + b).drop_first() =~= a.drop_first() + b);
        lemma_run_delete_append(delete_step(phase, a[0]), a.drop_first(), b);
    }
}

/// When the backoff schedule is exhausted after nothing but retriable
/// failures, the delete protocol reaches its final failure only then.
pub proof fn lemma_delete_fails_on_exhaustion(events: Seq<ProtocolEvent>, last: RemoteOutcome)
    requires
        forall|i: int|
            0 <= i < events.len() ==> delete_failure_or_granted_slot(#[trigger] events[i]),
        !delete_outcome_ok(last),
    ensures
        run_delete(
            DeletePhase::SendDeleteLocation,
            events + seq![ProtocolEvent::Response(last), ProtocolEvent::RetrySlot(false)],
        ) == DeletePhase::Failed,
{
    let tail = seq![ProtocolEvent::Response(last), ProtocolEvent::RetrySlot(false)];
    let slot = seq![ProtocolEvent::RetrySlot(false)];
    lemma_run_delete_append(DeletePhase::SendDeleteLocation, events, tail);
    lemma_delete_error_loop(DeletePhase::SendDeleteLocation, events);
    let p = run_delete(DeletePhase::SendDeleteLocation, events);
    assert(tail[0] == ProtocolEvent::Response(last));
    assert(delete_step(p, tail[0]) == DeletePhase::AwaitRetry);
    assert(tail.drop_first() =~= slot);
    assert(run_delete(p, tail) == run_delete(DeletePhase::AwaitRetry, slot));
    assert(delete_step(DeletePhase::AwaitRetry, slot[0]) == DeletePhase::Failed);
    assert(slot.drop_first() =~= Seq::<ProtocolEvent>::empty());
    assert(run_delete(DeletePhase::AwaitRetry, slot) == run_delete(
        DeletePhase::Failed,
        Seq::<ProtocolEvent>::empty(),
    ));
}

} // verus!
