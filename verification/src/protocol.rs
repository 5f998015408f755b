//! The pure core of the configuration application protocol: the payloads
//! of the two idempotent remote operations, the endpoints they go to, the
//! best-effort host/path extraction from the rule text, and the retry
//! state machines for apply and delete.
//!
//! The machines make every decision the protocol needs; a driver outside
//! the library performs each remote call or backoff wait and feeds the
//! outcome back as an event.  Apply sends the upstream then the location
//! and restarts the whole two-step unit on any failure; delete removes the
//! location then the upstream and accepts not-found as success.  Both give
//! up only when the backoff schedule is exhausted.

use vstd::prelude::*;
use vstd::string::StringExecFns;
use crate::models::PingapServiceConfig;
use crate::text::{strip_trailing, starts_with};

verus! {

/// The body of an upstream upsert: the address list.
#[derive(Debug, Clone)]
pub struct UpstreamPayload {
    pub addrs: Vec<String>,
}

/// The body of a location upsert: the upstream reference and the
/// best-effort host and path extracted from the rule text.
#[derive(Debug, Clone)]
pub struct LocationPayload {
    pub upstream: String,
    pub host: String,
    pub path: String,
}

/// Whether the whole rule is one canonical predicate term under the given
/// opening, such as `Host(` or `PathPrefix(`: it begins with the opening,
/// its closing parenthesis is its last character, and the text in between
/// holds no closing parenthesis.  A rule built from other combinators is
/// no single term.
pub open spec fn single_term(rule: Seq<char>, opening: Seq<char>) -> bool {
    starts_with(rule, opening) && rule.len() >= opening.len() + 1 && rule.last() == ')'
        && forall|i: int| opening.len() <= i < rule.len() - 1 ==> rule[i] != ')'
}

/// The text between a single term's opening and its closing parenthesis,
/// backticks kept.
pub open spec fn term_inner(rule: Seq<char>, opening: Seq<char>) -> Seq<char> {
    rule.subrange(opening.len() as int, rule.len() - 1)
}

/// The host field the rule text yields: only a rule that is a single
/// canonical host predicate populates it; any other rule shape leaves it
/// empty.
pub open spec fn rule_host(rule: Seq<char>) -> Seq<char> {
    if single_term(rule, "Host("@) {
        term_inner(rule, "Host("@)
    } else {
        Seq::empty()
    }
}

/// The path field the rule text yields: only a rule that is a single
/// canonical path-prefix predicate populates it; any other rule shape
/// leaves it empty.
pub open spec fn rule_path(rule: Seq<char>) -> Seq<char> {
    if !single_term(rule, "Host("@) && single_term(rule, "PathPrefix("@) {
        term_inner(rule, "PathPrefix("@)
    } else {
        Seq::empty()
    }
}

/// Extracts the inner text when the whole rule is one canonical term under
/// the opening, and reports any other shape as no match.
fn extract_single_term(rule: &str, opening: &str) -> (r: Option<String>)
    ensures
        match r {
            Option::Some(v) => single_term(rule@, opening@) && v@ == term_inner(rule@, opening@),
            Option::None => !single_term(rule@, opening@),
        },
{
    let n = rule.unicode_len();
    let m = opening.unicode_len();
    if !crate::text::starts_with_exec(rule, opening) {
        return None;
    }
    if n <= m {
        return None;
    }
    if rule.get_char(n - 1) != ')' {
        return None;
    }
    let mut i: usize = m;
    while i < n - 1
        invariant
            n == rule@.len(),
            m == opening@.len(),
            m <= i <= n - 1,
            forall|k: int| m <= k < i ==> rule@[k] != ')',
        decreases n - i,
    {
        if rule.get_char(i) == ')' {
            return None;
        }
        i += 1;
    }
    Some(String::from_str(rule.substring_char(m, n - 1)))
}

/// Copies the owned strings of a list.
fn clone_strings(v: &Vec<String>) -> (r: Vec<String>)
    ensures
        r@.map_values(|s: String| s@) == v@.map_values(|s: String| s@),
{
    let mut out: Vec<String> = Vec::new();
    let mut i: usize = 0;
    proof {
        let f = |s: String| s@;
        assert(out@.map_values(f) =~= v@.take(0).map_values(f));
    }
    while i < v.len()
        invariant
            i <= v@.len(),
            out@.map_values(|s: String| s@) == v@.take(i as int).map_values(|s: String| s@),
        decreases v@.len() - i,
    {
        let s = v[i].clone();
        proof {
            let f = |x: String| x@;
            assert(out@.push(s).map_values(f) =~= out@.map_values(f).push(s@));
            assert(v@.take(i + 1).map_values(f) =~= v@.take(i as int).map_values(f).push(
                v@[i as int]@,
            ));
        }
        out.push(s);
        i += 1;
    }
    proof {
        assert(v@.take(v@.len() as int) =~= v@);
    }
    out
}

/// The body of the upstream upsert for a configuration.
pub fn upstream_payload(config: &PingapServiceConfig) -> (r: UpstreamPayload)
    ensures
        r.addrs@.map_values(|s: String| s@) == config.upstreams@.map_values(|s: String| s@),
{
    UpstreamPayload { addrs: clone_strings(&config.upstreams) }
}

/// The body of the location upsert for a configuration, with host and path
/// populated best-effort from the two canonical predicate forms.
pub fn location_payload(config: &PingapServiceConfig) -> (r: LocationPayload)
    ensures
        r.upstream@ == config.name@,
        r.host@ == rule_host(config.location.rule@),
        r.path@ == rule_path(config.location.rule@),
{
    let rule = config.location.rule.as_str();
    let mut host = String::new();
    let mut path = String::new();
    match extract_single_term(rule, "Host(") {
        Some(h) => {
            host = h;
        },
        None => {
            if let Some(p) = extract_single_term(rule, "PathPrefix(") {
                path = p;
            }
        },
    }
    LocationPayload { upstream: config.name.clone(), host, path }
}

/// The admin base URL with every trailing slash removed.
pub fn normalize_base_url(url: &str) -> (r: String)
    ensures
        r@ == strip_trailing(url@, '/'),
{
    crate::text::strip_trailing_char(url, '/')
}

/// The endpoint of the upstream upsert and delete for a service.
pub fn upstream_endpoint(base: &str, name: &str) -> (r: String)
    ensures
        r@ == base@ + "/upstreams/"@ + name@,
{
    let mut out = String::from_str(base);
    out.append("/upstreams/");
    out.append(name);
    proof {
        assert(out@ =~= base@ + "/upstreams/"@ + name@);
    }
    out
}

/// The endpoint of the location upsert and delete for a service.
pub fn location_endpoint(base: &str, name: &str) -> (r: String)
    ensures
        r@ == base@ + "/locations/"@ + name@,
{
    let mut out = String::from_str(base);
    out.append("/locations/");
    out.append(name);
    proof {
        assert(out@ =~= base@ + "/locations/"@ + name@);
    }
    out
}

/// What one remote call came back with: a status code, or no response at
/// all.
#[derive(Debug, Clone, Copy, PartialEq, Eq, Structural)]
pub enum RemoteOutcome {
    Status(u16),
    Unreachable,
}

/// An event the driver feeds a protocol machine: the outcome of the remote
/// call it was asked to make, or whether the backoff schedule still has a
/// retry slot.
#[derive(Debug, Clone, Copy, PartialEq, Eq, Structural)]
pub enum ProtocolEvent {
    Response(RemoteOutcome),
    RetrySlot(bool),
}

/// A success status, as a 2xx response.
pub open spec fn spec_success(status: u16) -> bool {
    200 <= status < 300
}

pub fn is_success_status(status: u16) -> (r: bool)
    ensures
        r == spec_success(status),
{
    200 <= status && status < 300
}

/// An apply step succeeded only on a 2xx response.
pub open spec fn apply_outcome_ok(o: RemoteOutcome) -> bool {
    match o {
        RemoteOutcome::Status(s) => spec_success(s),
        RemoteOutcome::Unreachable => false,
    }
}

/// A delete step succeeded on a 2xx response or on not-found:
/// already-absent is an acceptable terminal state for a delete.
pub open spec fn delete_outcome_ok(o: RemoteOutcome) -> bool {
    match o {
        RemoteOutcome::Status(s) => spec_success(s) || s == 404,
        RemoteOutcome::Unreachable => false,
    }
}

/// Where the apply protocol stands: which call to make next, whether it
/// waits for a retry slot, or a terminal verdict.
#[derive(Debug, Clone, Copy, PartialEq, Eq, Structural)]
pub enum ApplyPhase {
    SendUpstream,
    SendLocation,
    AwaitRetry,
    Succeeded,
    Failed,
}

/// One transition of the apply machine.  A failed step of the two-step
/// unit awaits a retry slot; a granted slot restarts the unit from the
/// upstream step; a denied slot is final failure.
pub open spec fn apply_step(phase: ApplyPhase, event: ProtocolEvent) -> ApplyPhase {
    match (phase, event) {
        (ApplyPhase::SendUpstream, ProtocolEvent::Response(o)) => if apply_outcome_ok(o) {
            ApplyPhase::SendLocation
        } else {
            ApplyPhase::AwaitRetry
        },
        (ApplyPhase::SendLocation, ProtocolEvent::Response(o)) => if apply_outcome_ok(o) {
            ApplyPhase::Succeeded
        } else {
            ApplyPhase::AwaitRetry
        },
        (ApplyPhase::AwaitRetry, ProtocolEvent::RetrySlot(more)) => if more {
            ApplyPhase::SendUpstream
        } else {
            ApplyPhase::Failed
        },
        (p, _) => p,
    }
}

/// Advances the apply machine by one observed event.
pub fn apply_transition(phase: ApplyPhase, event: ProtocolEvent) -> (r: ApplyPhase)
    ensures
        r == apply_step(phase, event),
{
    match (phase, event) {
        (ApplyPhase::SendUpstream, ProtocolEvent::Response(o)) => {
            if apply_outcome_ok_exec(o) {
                ApplyPhase::SendLocation
            } else {
                ApplyPhase::AwaitRetry
            }
        },
        (ApplyPhase::SendLocation, ProtocolEvent::Response(o)) => {
            if apply_outcome_ok_exec(o) {
                ApplyPhase::Succeeded
            } else {
                ApplyPhase::AwaitRetry
            }
        },
        (ApplyPhase::AwaitRetry, ProtocolEvent::RetrySlot(more)) => {
            if more {
                ApplyPhase::SendUpstream
            } else {
                ApplyPhase::Failed
            }
        },
        (p, _) => p,
    }
}

/// Whether an apply step's outcome counts as success.
pub fn apply_outcome_ok_exec(o: RemoteOutcome) -> (r: bool)
    ensures
        r == apply_outcome_ok(o),
{
    match o {
        RemoteOutcome::Status(s) => is_success_status(s),
        RemoteOutcome::Unreachable => false,
    }
}

/// Whether a delete step's outcome counts as success (2xx or not-found).
pub fn delete_outcome_ok_exec(o: RemoteOutcome) -> (r: bool)
    ensures
        r == delete_outcome_ok(o),
{
    match o {
        RemoteOutcome::Status(s) => is_success_status(s) || s == 404,
        RemoteOutcome::Unreachable => false,
    }
}

/// Where the delete protocol stands.
#[derive(Debug, Clone, Copy, PartialEq, Eq, Structural)]
pub enum DeletePhase {
    SendDeleteLocation,
    SendDeleteUpstream,
    AwaitRetry,
    Succeeded,
    Failed,
}

/// One transition of the delete machine: location deletion then upstream
/// deletion, not-found accepted at either step, the two-step unit restarted
/// on any other failure while the schedule grants slots.
pub open spec fn delete_step(phase: DeletePhase, event: ProtocolEvent) -> DeletePhase {
    match (phase, event) {
        (DeletePhase::SendDeleteLocation, ProtocolEvent::Response(o)) => if delete_outcome_ok(o) {
            DeletePhase::SendDeleteUpstream
        } else {
            DeletePhase::AwaitRetry
        },
        (DeletePhase::SendDeleteUpstream, ProtocolEvent::Response(o)) => if delete_outcome_ok(o) {
            DeletePhase::Succeeded
        } else {
            DeletePhase::AwaitRetry
        },
        (DeletePhase::AwaitRetry, ProtocolEvent::RetrySlot(more)) => if more {
            DeletePhase::SendDeleteLocation
        } else {
            DeletePhase::Failed
        },
        (p, _) => p,
    }
}

/// Advances the delete machine by one observed event.
pub fn delete_transition(phase: DeletePhase, event: ProtocolEvent) -> (r: DeletePhase)
    ensures
        r == delete_step(phase, event),
{
    match (phase, event) {
        (DeletePhase::SendDeleteLocation, ProtocolEvent::Response(o)) => {
            if delete_outcome_ok_exec(o) {
                DeletePhase::SendDeleteUpstream
            } else {
                DeletePhase::AwaitRetry
            }
        },
        (DeletePhase::SendDeleteUpstream, ProtocolEvent::Response(o)) => {
            if delete_outcome_ok_exec(o) {
                DeletePhase::Succeeded
            } else {
                DeletePhase::AwaitRetry
            }
        },
        (DeletePhase::AwaitRetry, ProtocolEvent::RetrySlot(more)) => {
            if more {
                DeletePhase::SendDeleteLocation
            } else {
                DeletePhase::Failed
            }
        },
        (p, _) => p,
    }
}

/// The apply machine run over a whole event sequence.
pub open spec fn run_apply(phase: ApplyPhase, events: Seq<ProtocolEvent>) -> ApplyPhase
    decreases events.len(),
{
    if events.len() == 0 {
        phase
    } else {
        run_apply(apply_step(phase, events[0]), events.drop_first())
    }
}

/// The delete machine run over a whole event sequence.
pub open spec fn run_delete(phase: DeletePhase, events: Seq<ProtocolEvent>) -> DeletePhase
    decreases events.len(),
{
    if events.len() == 0 {
        phase
    } else {
        run_delete(delete_step(phase, events[0]), events.drop_first())
    }
}

/// An explicit retry policy: the bound on total elapsed time across the
/// whole backoff sequence.
#[derive(Debug, Clone, Copy, PartialEq, Eq, Structural)]
pub struct RetryPolicy {
    pub max_elapsed_ms: u64,
}

/// The apply policy: a minute of total elapsed time.
pub fn apply_retry_policy() -> (r: RetryPolicy)
    ensures
        r.max_elapsed_ms == 60_000,
{
    RetryPolicy { max_elapsed_ms: 60_000 }
}

/// The delete policy: half a minute of total elapsed time.
pub fn delete_retry_policy() -> (r: RetryPolicy)
    ensures
        r.max_elapsed_ms == 30_000,
{
    RetryPolicy { max_elapsed_ms: 30_000 }
}

/// Whether the schedule still grants a retry slot: only until the elapsed
/// time exceeds the policy's bound.
pub fn retry_slot_available(elapsed_ms: u64, policy: &RetryPolicy) -> (r: bool)
    ensures
        r == (elapsed_ms <= policy.max_elapsed_ms),
{
    elapsed_ms <= policy.max_elapsed_ms
}

/// A final protocol failure, surfaced only after the backoff budget is
/// exhausted.
#[derive(Debug, Clone)]
pub enum ApplyError {
    /// The two-step apply gave up; `detail` is the last observed failure.
    ApplyExhausted { service: String, detail: String },
    /// The two-step delete gave up; `detail` is the last observed failure.
    DeleteExhausted { service: String, detail: String },
}

/// The diagnostic text of each protocol failure.
pub open spec fn apply_error_message(e: &ApplyError) -> Seq<char> {
    match e {
        ApplyError::ApplyExhausted { service, detail } => "Failed to apply config for service "@
            + service@ + " after retries: "@ + detail@,
        ApplyError::DeleteExhausted { service, detail } => "Failed to delete config for service "@
            + service@ + " after retries: "@ + detail@,
    }
}

impl ApplyError {
    /// The diagnostic text, naming the service and the last failure.
    pub fn message(&self) -> (r: String)
        ensures
            r@ == apply_error_message(self),
    {
        match self {
            ApplyError::ApplyExhausted { service, detail } => {
                let mut out = String::from_str("Failed to apply config for service ");
                out.append(service.as_str());
                out.append(" after retries: ");
                out.append(detail.as_str());
                proof {
                    assert(out@ =~= apply_error_message(self));
                }
                out
            },
            ApplyError::DeleteExhausted { service, detail } => {
                let mut out = String::from_str("Failed to delete config for service ");
                out.append(service.as_str());
                out.append(" after retries: ");
                out.append(detail.as_str());
                proof {
                    assert(out@ =~= apply_error_message(self));
                }
                out
            },
        }
    }
}

} // verus!
