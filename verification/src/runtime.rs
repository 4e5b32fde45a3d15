//! The decisions of Prism's stateless two-phase executor.
//!
//! An [`Execution`] decides, one step at a time, what the executor does for a
//! publish request: it resolves variants, asks for provider work through an
//! [`ExecutionAction`], takes the provider's answer back, applies the dispatch
//! policy and records ordered outcomes and sequence-numbered events. Whoever
//! drives it performs each action against the adapter and hands the result to
//! the matching `supply_` method.

use vstd::prelude::*;

use crate::capabilities::ProviderCapabilities;
use crate::content::{has_key, same_variant};
use crate::ids::{ProviderId, RequestId, TargetId, VariantId};
use crate::provider::{ProviderPublishRequest, ProviderRegistry, ProviderTargetContext};
use crate::request::{
    DispatchPolicy, PublishRequest, candidate_ids, no_eligible_issue, no_eligible_variant, same_target,
    resolved_index, structure_issues,
};
use crate::result::{
    DeliveryError, DeliveryErrorClass, EventKind, ExecutionEvent, ExecutionMode, ExecutionReport,
    ProviderReceipt, TargetOutcome, TargetStatus,
};
use crate::text::owned;
use crate::validation::{ValidationIssue, any_error, has_error, issue_views};

verus! {

broadcast use vstd::seq_lib::group_seq_properties;

/// Request-level execution failure. Target-local failures remain in reports.
#[derive(Debug)]
pub enum ExecutionFailure {
    /// Deterministic request structure is invalid.
    InvalidRequest {
        /// Structured issues.
        issues: Vec<ValidationIssue>,
    },
    /// The requested provider adapter is absent.
    ProviderNotFound(ProviderId),
    /// Capability discovery failed for a direct capabilities operation.
    CapabilityDiscovery(DeliveryError),
    /// Adapter violated a Prism identity contract.
    ProviderContract(ProviderId),
}

/// The sequence number of the event at position `k`: one-based, saturating
/// at `u32::MAX`.
pub open spec fn sequence_number(k: int) -> u32 {
    if k + 1 > u32::MAX {
        u32::MAX
    } else {
        (k + 1) as u32
    }
}

/// Whether every event carries the sequence number of its position.
pub open spec fn numbered(events: Seq<ExecutionEvent>) -> bool {
    forall|k: int| 0 <= k < events.len() ==> (#[trigger] events[k]).sequence == sequence_number(k)
}

/// Whether an event has the given kind, target, provider and code.
pub open spec fn event_is(
    e: ExecutionEvent,
    kind: EventKind,
    target_id: Seq<char>,
    provider_id: Seq<char>,
    code: Option<Seq<char>>,
) -> bool {
    &&& e.kind == kind
    &&& e.target_id@ == target_id
    &&& e.provider_id@ == provider_id
    &&& match code {
        None => e.code is None,
        Some(c) => e.code matches Some(x) && x@ == c,
    }
}

/// Appends an event numbered by its position.
fn push_event(
    events: &mut Vec<ExecutionEvent>,
    kind: EventKind,
    target_id: &TargetId,
    provider_id: &ProviderId,
    code: Option<&str>,
)
    ensures
        final(events)@.len() == old(events)@.len() + 1,
        final(events)@.drop_last() == old(events)@,
        forall|k: int| 0 <= k < old(events)@.len() ==> #[trigger] final(events)@[k] == old(events)@[k],
        final(events)@.last().sequence == sequence_number(old(events)@.len() as int),
        numbered(old(events)@) ==> numbered(final(events)@),
        event_is(
            final(events)@.last(),
            kind,
            target_id@,
            provider_id@,
            match code {
                None => None,
                Some(c) => Some(c@),
            },
        ),
{
    let sequence: u32 = if events.len() >= 4294967295 {
        4294967295
    } else {
        (events.len() + 1) as u32
    };
    let code = match code {
        None => None,
        Some(c) => Some(owned(c)),
    };
    events.push(
        ExecutionEvent {
            sequence,
            kind,
            target_id: target_id.clone(),
            provider_id: provider_id.clone(),
            code,
        },
    );
    assert(events@.drop_last() =~= old(events)@);
    assert forall|k: int| 0 <= k < events@.len() - 1 implies #[trigger] events@[k] == old(events)@[k] by {
        assert(events@.drop_last()[k] == events@[k]);
    }
}

/// The preflight result of one target and what dispatch needs of it.
pub struct TargetPlan {
    /// The target's outcome so far.
    pub outcome: TargetOutcome,
    /// What the adapter receives, once it was built.
    pub request: Option<ProviderPublishRequest>,
    /// Whether an adapter is registered for the target's provider.
    pub has_adapter: bool,
    /// Whether the target passed preflight and may be dispatched.
    pub ready: bool,
}

/// The outside work the executor needs next.
#[derive(Clone, Copy, Debug, PartialEq, Eq, Structural)]
pub enum ExecutionAction {
    /// Ask the target's adapter for its capabilities, in the target's
    /// [`ProviderTargetContext`].
    DiscoverCapabilities {
        /// Index of the target in the request.
        target_index: usize,
    },
    /// Ask the target's adapter for provider-native preflight of the pending
    /// provider request.
    ValidateWithProvider {
        /// Index of the target in the request.
        target_index: usize,
    },
    /// Ask the target's adapter to publish the pending provider request.
    Publish {
        /// Index of the target in the request.
        target_index: usize,
    },
    /// Nothing is left; the report is complete.
    Finished,
}

/// An adapter's answer to the outside work an execution asked for.
pub ghost enum AdapterAnswer {
    /// A capability snapshot, or the error of its discovery.
    Capabilities(Result<ProviderCapabilities, DeliveryError>),
    /// Provider-native validation issues, or the error of the validation.
    Validation(Result<Vec<ValidationIssue>, DeliveryError>),
    /// A publish receipt, or the delivery error.
    Publish(Result<ProviderReceipt, DeliveryError>),
}

/// Where an execution stands.
pub ghost enum Stage {
    /// Preflight will next consider the target with this index.
    Preflight(int),
    /// The target's capabilities are awaited.
    AwaitCapabilities(int),
    /// The target's provider-native validation is awaited.
    AwaitProviderValidation(int),
    /// Dispatch will next consider the plan with this index.
    Dispatch(int),
    /// The target's publish result is awaited.
    AwaitPublish(int),
    /// The report is complete.
    Done,
}

enum Phase {
    Preflight { next: usize },
    AwaitCapabilities { index: usize, variant_index: usize },
    AwaitProviderValidation { index: usize, issues: Vec<ValidationIssue> },
    Dispatch { next: usize },
    AwaitPublish { index: usize },
    Done,
}

/// The step-by-step state of one validate or publish operation.
pub struct Execution {
    request_id: RequestId,
    request: PublishRequest,
    mode: ExecutionMode,
    plans: Vec<TargetPlan>,
    events: Vec<ExecutionEvent>,
    phase: Phase,
    current: Option<TargetOutcome>,
    current_request: Option<ProviderPublishRequest>,
    block_all: bool,
    ready_after_preflight: Ghost<Seq<bool>>,
}

/// Whether an optional error is present with the given class and code.
pub open spec fn error_is(e: Option<DeliveryError>, class: DeliveryErrorClass, code: Seq<char>) -> bool {
    e matches Some(x) && x.class == class && x.code@ == code
}

/// Whether a provider request is what the adapter of target `i` receives:
/// the execution's request identifier, the idempotency material of the
/// publication key and the target, the target itself, and the variant the
/// target's selection resolves to.
pub open spec fn provider_request_for(pr: ProviderPublishRequest, request_id: RequestId, request: PublishRequest, i: int) -> bool {
    let t = request.targets@[i];
    &&& pr.request_id == request_id
    &&& pr.idempotency.root == request.idempotency_key
    &&& pr.idempotency.target_id == t.id
    &&& same_target(pr.target, t)
    &&& resolved_index(request.variants@, candidate_ids(t.selection), t.provider_id@) matches Some(v)
        && same_variant(pr.variant, request.variants@[v])
}

/// The identifier of the variant target `i` resolves to, if any.
pub open spec fn selected_variant_for(request: PublishRequest, i: int) -> Option<VariantId> {
    let t = request.targets@[i];
    match resolved_index(request.variants@, candidate_ids(t.selection), t.provider_id@) {
        Some(v) => Some(request.variants@[v].id),
        None => None,
    }
}

/// Whether a report's outcomes follow a request's targets: one outcome per
/// target, in target order, naming the target, its provider and the variant
/// its selection resolves to.
pub open spec fn outcomes_follow_request(r: ExecutionReport, request: PublishRequest) -> bool {
    &&& r.outcomes@.len() == request.targets@.len()
    &&& forall|k: int|
        0 <= k < r.outcomes@.len() ==> {
            &&& (#[trigger] r.outcomes@[k]).target_id == request.targets@[k].id
            &&& r.outcomes@[k].provider_id == request.targets@[k].provider_id
            &&& r.outcomes@[k].selected_variant_id == selected_variant_for(request, k)
        }
}

/// Selections and outcome order depend on the request alone: two reports on
/// the same request, whatever the adapters answered, list the same targets in
/// the same order with the same selected variants.
pub proof fn lemma_selection_and_order_are_deterministic(
    a: ExecutionReport,
    b: ExecutionReport,
    request: PublishRequest,
)
    requires
        outcomes_follow_request(a, request),
        outcomes_follow_request(b, request),
    ensures
        a.outcomes@.len() == b.outcomes@.len(),
        forall|k: int|
            0 <= k < a.outcomes@.len() ==> {
                &&& (#[trigger] a.outcomes@[k]).target_id == b.outcomes@[k].target_id
                &&& a.outcomes@[k].provider_id == b.outcomes@[k].provider_id
                &&& a.outcomes@[k].selected_variant_id == b.outcomes@[k].selected_variant_id
            },
{
    assert forall|k: int| 0 <= k < a.outcomes@.len() implies {
        &&& (#[trigger] a.outcomes@[k]).target_id == b.outcomes@[k].target_id
        &&& a.outcomes@[k].provider_id == b.outcomes@[k].provider_id
        &&& a.outcomes@[k].selected_variant_id == b.outcomes@[k].selected_variant_id
    } by {
        assert(b.outcomes@[k].target_id == request.targets@[k].id);
    }
}

/// Whether an outcome's error and receipt agree with its status: an error
/// exactly when the target failed or was skipped, a receipt exactly when it
/// was published, and no selected variant only for a failed target.
pub open spec fn outcome_consistent(o: TargetOutcome) -> bool {
    &&& (o.error is Some <==> (o.status == TargetStatus::Failed || o.status == TargetStatus::Skipped))
    &&& (o.receipt is Some <==> o.status == TargetStatus::Published)
    &&& (o.selected_variant_id is None ==> o.status == TargetStatus::Failed)
}

/// Whether an outcome's status belongs to the operation: only validate
/// leaves a target validated, only publish publishes or skips one.
pub open spec fn outcome_fits_mode(o: TargetOutcome, mode: ExecutionMode) -> bool {
    &&& o.status == TargetStatus::Validated ==> mode == ExecutionMode::Validate
    &&& (o.status == TargetStatus::Published || o.status == TargetStatus::Skipped) ==> mode
        == ExecutionMode::Publish
}

/// Whether an event kind belongs to preflight rather than dispatch.
pub open spec fn preflight_event(kind: EventKind) -> bool {
    ||| kind == EventKind::TargetResolved
    ||| kind == EventKind::CapabilitiesLoaded
    ||| kind == EventKind::TargetValidated
    ||| kind == EventKind::TargetRejected
}

/// Whether every event in the list belongs to preflight.
pub open spec fn preflight_events_only(events: Seq<ExecutionEvent>) -> bool {
    forall|k: int| 0 <= k < events.len() ==> preflight_event(#[trigger] events[k].kind)
}

/// What a target's outcome shows of its fate: its status and its error's
/// class and code.
pub open spec fn fate(o: TargetOutcome) -> (TargetStatus, Option<(DeliveryErrorClass, Seq<char>)>) {
    (
        o.status,
        match o.error {
            Some(e) => Some((e.class, e.code@)),
            None => None,
        },
    )
}

/// What an event shows: its sequence number, kind, target, provider and code.
pub open spec fn event_view(e: ExecutionEvent) -> (u32, EventKind, Seq<char>, Seq<char>, Option<Seq<char>>) {
    (
        e.sequence,
        e.kind,
        e.target_id@,
        e.provider_id@,
        match e.code {
            Some(c) => Some(c@),
            None => None,
        },
    )
}

/// Whether two lists of plans show the same fates and readiness, in order.
pub open spec fn same_plans(p: Seq<TargetPlan>, q: Seq<TargetPlan>) -> bool {
    &&& p.len() == q.len()
    &&& forall|k: int|
        #![trigger p[k], q[k]]
        0 <= k < p.len() ==> fate(p[k].outcome) == fate(q[k].outcome) && p[k].ready == q[k].ready
}

/// Whether two event lists show the same events, in order.
pub open spec fn same_events(e: Seq<ExecutionEvent>, f: Seq<ExecutionEvent>) -> bool {
    &&& e.len() == f.len()
    &&& forall|k: int| #![trigger e[k], f[k]] 0 <= k < e.len() ==> event_view(e[k]) == event_view(f[k])
}

proof fn lemma_same_events_push(e: Seq<ExecutionEvent>, f: Seq<ExecutionEvent>, e2: Seq<ExecutionEvent>, f2: Seq<ExecutionEvent>)
    requires
        same_events(e, f),
        e2.len() == e.len() + 1,
        f2.len() == f.len() + 1,
        e2.drop_last() == e,
        f2.drop_last() == f,
        event_view(e2.last()) == event_view(f2.last()),
    ensures
        same_events(e2, f2),
{
    assert forall|k: int| #![trigger e2[k], f2[k]] 0 <= k < e2.len() implies event_view(e2[k]) == event_view(f2[k]) by {
        if k < e.len() {
            assert(e2[k] == e2.drop_last()[k]);
            assert(f2[k] == f2.drop_last()[k]);
            assert(e[k] == e2[k] && f[k] == f2[k]);
        }
    }
}

proof fn lemma_same_plans_push(p: Seq<TargetPlan>, q: Seq<TargetPlan>, p2: Seq<TargetPlan>, q2: Seq<TargetPlan>)
    requires
        same_plans(p, q),
        p2.len() == p.len() + 1,
        q2.len() == q.len() + 1,
        p2.drop_last() == p,
        q2.drop_last() == q,
        fate(p2.last().outcome) == fate(q2.last().outcome),
        p2.last().ready == q2.last().ready,
    ensures
        same_plans(p2, q2),
{
    assert forall|k: int| #![trigger p2[k], q2[k]] 0 <= k < p2.len() implies fate(p2[k].outcome) == fate(q2[k].outcome)
        && p2[k].ready == q2[k].ready by {
        if k < p.len() {
            assert(p2[k] == p2.drop_last()[k]);
            assert(q2[k] == q2.drop_last()[k]);
            assert(p[k] == p2[k] && q[k] == q2[k]);
        }
    }
}

/// Whether an action is the one that a stage waits on.
pub open spec fn announces(r: ExecutionAction, stage: Stage) -> bool {
    match r {
        ExecutionAction::DiscoverCapabilities { target_index } => stage == Stage::AwaitCapabilities(
            target_index as int,
        ),
        ExecutionAction::ValidateWithProvider { target_index } => stage
            == Stage::AwaitProviderValidation(target_index as int),
        ExecutionAction::Publish { target_index } => stage == Stage::AwaitPublish(target_index as int),
        ExecutionAction::Finished => stage == Stage::Done,
    }
}

/// The error a policy-blocked target is reported with.
pub open spec fn blocked_error(e: DeliveryError) -> bool {
    &&& e.class == DeliveryErrorClass::InvalidRequest
    &&& e.code@ == "dispatch.require_all_valid_preflight_failed"@
}

impl Execution {
    pub closed spec fn plans(self) -> Seq<TargetPlan> {
        self.plans@
    }

    pub closed spec fn events(self) -> Seq<ExecutionEvent> {
        self.events@
    }

    pub closed spec fn mode(self) -> ExecutionMode {
        self.mode
    }

    pub closed spec fn publish_request(self) -> PublishRequest {
        self.request
    }

    pub closed spec fn request_id(self) -> RequestId {
        self.request_id
    }

    /// Whether dispatch withholds every target because the policy requires all
    /// targets to pass preflight and one did not.
    pub closed spec fn blocked(self) -> bool {
        self.block_all
    }

    /// Which targets passed preflight, once preflight is over.
    pub closed spec fn ready_after_preflight(self) -> Seq<bool> {
        self.ready_after_preflight@
    }

    /// The capability issues of the target whose provider validation is awaited.
    pub closed spec fn pending_issues(self) -> Seq<crate::validation::IssueView> {
        match self.phase {
            Phase::AwaitProviderValidation { issues, .. } => issue_views(issues@),
            _ => Seq::empty(),
        }
    }

    /// The variant selected for the target whose capabilities are awaited.
    pub closed spec fn selected_variant(self) -> int {
        match self.phase {
            Phase::AwaitCapabilities { variant_index, .. } => variant_index as int,
            _ => 0,
        }
    }

    pub closed spec fn stage(self) -> Stage {
        match self.phase {
            Phase::Preflight { next } => Stage::Preflight(next as int),
            Phase::AwaitCapabilities { index, .. } => Stage::AwaitCapabilities(index as int),
            Phase::AwaitProviderValidation { index, .. } => Stage::AwaitProviderValidation(
                index as int,
            ),
            Phase::Dispatch { next } => Stage::Dispatch(next as int),
            Phase::AwaitPublish { index } => Stage::AwaitPublish(index as int),
            Phase::Done => Stage::Done,
        }
    }

    /// Whether each plan belongs to the target at its position.
    pub open spec fn plans_follow_targets(self) -> bool {
        forall|k: int|
            0 <= k < self.plans().len() ==> {
                &&& (#[trigger] self.plans()[k]).outcome.target_id
                    == self.publish_request().targets@[k].id
                &&& self.plans()[k].outcome.provider_id
                    == self.publish_request().targets@[k].provider_id
                &&& self.plans()[k].outcome.selected_variant_id == selected_variant_for(
                    self.publish_request(),
                    k,
                )
            }
    }

    /// Whether every plan's outcome agrees with its status, and every plan
    /// ready for dispatch has its adapter and provider request.
    pub open spec fn plans_consistent(self) -> bool {
        forall|k: int|
            0 <= k < self.plans().len() ==> {
                &&& outcome_consistent((#[trigger] self.plans()[k]).outcome)
                &&& self.plans()[k].ready ==> self.plans()[k].has_adapter && self.plans()[k].request is Some
            }
    }

    /// Whether each plan's provider request, once built, is the one for the
    /// target at its position.
    pub open spec fn requests_follow_targets(self) -> bool {
        forall|k: int|
            0 <= k < self.plans().len() ==> ((#[trigger] self.plans()[k]).request matches Some(pr)
                ==> provider_request_for(pr, self.request_id(), self.publish_request(), k))
    }

    /// After preflight, a plan is ready exactly when its target was validated.
    pub open spec fn preflight_statuses(self, upto: int) -> bool {
        forall|k: int|
            0 <= k < upto ==> {
                &&& (#[trigger] self.plans()[k]).ready ==> self.plans()[k].outcome.status
                    == TargetStatus::Validated
                &&& !self.plans()[k].ready ==> self.plans()[k].outcome.status
                    == TargetStatus::Failed
            }
    }

    /// What dispatch made of the plans before position `upto`.
    pub open spec fn dispatch_statuses(self, upto: int) -> bool {
        forall|k: int|
            0 <= k < upto ==> {
                let st = (#[trigger] self.plans()[k]).outcome.status;
                &&& !self.ready_after_preflight()[k] ==> st == TargetStatus::Failed
                &&& self.ready_after_preflight()[k] && self.blocked() ==> (st
                    == TargetStatus::Skipped && (self.plans()[k].outcome.error matches Some(e)
                    && blocked_error(e)))
                &&& self.ready_after_preflight()[k] && !self.blocked() ==> (st
                    == TargetStatus::Published || st == TargetStatus::Failed)
            }
    }

    pub closed spec fn wf(self) -> bool {
        let n = self.request.targets@.len();
        &&& numbered(self.events@)
        &&& self.plans_follow_targets()
        &&& self.requests_follow_targets()
        &&& self.plans_consistent()
        &&& (self.mode == ExecutionMode::Validate ==> preflight_events_only(self.events@))
        &&& self.plans@.len() <= n
        &&& match self.phase {
            Phase::Preflight { next } => {
                &&& self.plans@.len() == next
                &&& !self.block_all
                &&& self.preflight_statuses(next as int)
            },
            Phase::AwaitCapabilities { index, variant_index } => {
                &&& self.plans@.len() == index
                &&& !self.block_all
                &&& index < n
                &&& variant_index < self.request.variants@.len()
                &&& resolved_index(
                    self.request.variants@,
                    candidate_ids(self.request.targets@[index as int].selection),
                    self.request.targets@[index as int].provider_id@,
                ) == Some(variant_index as int)
                &&& self.preflight_statuses(index as int)
                &&& self.current matches Some(o) && o.target_id == self.request.targets@[index as int].id
                    && o.provider_id == self.request.targets@[index as int].provider_id
                    && o.selected_variant_id == selected_variant_for(self.request, index as int)
                    && o.status == TargetStatus::Validated && o.error is None && o.receipt is None
                    && o.validation_issues@.len() == 0
            },
            Phase::AwaitProviderValidation { index, .. } => {
                &&& self.plans@.len() == index
                &&& !self.block_all
                &&& index < n
                &&& self.preflight_statuses(index as int)
                &&& self.current matches Some(o) && o.target_id == self.request.targets@[index as int].id
                    && o.provider_id == self.request.targets@[index as int].provider_id
                    && o.selected_variant_id == selected_variant_for(self.request, index as int)
                    && o.status == TargetStatus::Validated && o.error is None && o.receipt is None
                    && o.validation_issues@.len() == 0
                &&& self.current_request matches Some(pr) && provider_request_for(
                    pr,
                    self.request_id,
                    self.request,
                    index as int,
                )
            },
            Phase::Dispatch { next } => {
                &&& self.mode == ExecutionMode::Publish
                &&& self.plans@.len() == n
                &&& next <= n
                &&& self.dispatch_wf(next as int)
            },
            Phase::AwaitPublish { index } => {
                &&& self.mode == ExecutionMode::Publish
                &&& self.plans@.len() == n
                &&& index < n
                &&& self.dispatch_wf(index as int)
                &&& self.ready_after_preflight@[index as int]
                &&& !self.block_all
                &&& self.plans@[index as int].request is Some
                &&& self.plans@[index as int].outcome.status == TargetStatus::Validated
            },
            Phase::Done => {
                &&& self.plans@.len() == n
                &&& self.ready_after_preflight@.len() == n
                &&& if self.mode == ExecutionMode::Validate {
                    self.preflight_statuses(n as int)
                } else {
                    self.dispatch_wf(n as int)
                }
            },
        }
    }

    /// What holds throughout preflight while a target is being finished.
    closed spec fn preflight_base(self) -> bool {
        &&& numbered(self.events@)
        &&& self.plans_follow_targets()
        &&& self.requests_follow_targets()
        &&& self.plans_consistent()
        &&& (self.mode == ExecutionMode::Validate ==> preflight_events_only(self.events@))
        &&& self.plans@.len() < self.request.targets@.len()
        &&& self.preflight_statuses(self.plans@.len() as int)
        &&& !self.block_all
    }

    closed spec fn dispatch_wf(self, next: int) -> bool {
        let n = self.request.targets@.len();
        &&& self.ready_after_preflight@.len() == n
        &&& self.block_all == (self.request.dispatch_policy == DispatchPolicy::RequireAllValid
            && exists|k: int| 0 <= k < n && !self.ready_after_preflight@[k])
        &&& self.dispatch_statuses(next)
        &&& forall|k: int|
            next <= k < n ==> {
                &&& (#[trigger] self.plans@[k]).ready == self.ready_after_preflight@[k]
                &&& self.plans@[k].ready ==> self.plans@[k].outcome.status == TargetStatus::Validated
                &&& !self.plans@[k].ready ==> self.plans@[k].outcome.status == TargetStatus::Failed
            }
    }

    /// One preflight step: the next target's variant is resolved and its
    /// adapter looked up; the target fails here, or its capabilities are asked for.
    pub open spec fn preflight_step<A>(a: Execution, reg: Seq<(Seq<char>, A)>, b: Execution) -> bool {
        &&& b.wf()
        &&& b.mode() == a.mode()
        &&& b.publish_request() == a.publish_request()
        &&& b.request_id() == a.request_id()
        &&& b.events().len() == a.events().len() + 1
        &&& b.events().drop_last() =~= a.events()
        &&& ({
            let i = a.plans().len() as int;
            let req = a.publish_request();
            let t = req.targets@[i];
            let e = b.events().last();
            match resolved_index(req.variants@, candidate_ids(t.selection), t.provider_id@) {
                None => {
                    &&& b.stage() == Stage::Preflight(i + 1)
                    &&& b.plans().len() == i + 1
                    &&& b.plans().drop_last() =~= a.plans()
                    &&& b.plans()[i].outcome.status == TargetStatus::Failed
                    &&& b.plans()[i].outcome.selected_variant_id is None
                    &&& error_is(b.plans()[i].outcome.error, DeliveryErrorClass::InvalidRequest, "selection.no_eligible_variant"@)
                    &&& issue_views(b.plans()[i].outcome.validation_issues@) == seq![no_eligible_issue(t.id@)]
                    &&& !b.plans()[i].ready
                    &&& event_is(e, EventKind::TargetRejected, t.id@, t.provider_id@, Some("selection.no_eligible_variant"@))
                },
                Some(vi) => if !has_key(reg, t.provider_id@) {
                    &&& b.stage() == Stage::Preflight(i + 1)
                    &&& b.plans().len() == i + 1
                    &&& b.plans().drop_last() =~= a.plans()
                    &&& b.plans()[i].outcome.status == TargetStatus::Failed
                    &&& b.plans()[i].outcome.selected_variant_id == Some(req.variants@[vi].id)
                    &&& error_is(b.plans()[i].outcome.error, DeliveryErrorClass::Terminal, "provider.not_registered"@)
                    &&& !b.plans()[i].ready
                    &&& !b.plans()[i].has_adapter
                    &&& event_is(e, EventKind::TargetRejected, t.id@, t.provider_id@, Some("provider.not_registered"@))
                } else {
                    &&& b.stage() == Stage::AwaitCapabilities(i)
                    &&& b.selected_variant() == vi
                    &&& b.plans() =~= a.plans()
                    &&& event_is(e, EventKind::TargetResolved, t.id@, t.provider_id@, None)
                },
            }
        })
    }

    /// What taking a capability snapshot does to an execution.
    pub open spec fn capabilities_step(a: Execution, result: Result<ProviderCapabilities, DeliveryError>, b: Execution) -> bool {
        &&& b.wf()
        &&& b.mode() == a.mode()
        &&& b.publish_request() == a.publish_request()
        &&& b.request_id() == a.request_id()
        &&& !(a.stage() is AwaitCapabilities) ==> b == a
        &&& a.stage() matches Stage::AwaitCapabilities(i) ==> ({
            let req = a.publish_request();
            let t = req.targets@[i];
            let v = req.variants@[a.selected_variant()];
            let olde = a.events();
            let newe = b.events();
            let p = b.plans().last();
            match result {
                Err(e) => {
                    &&& b.stage() == Stage::Preflight(i + 1)
                    &&& b.plans().drop_last() =~= a.plans()
                    &&& b.plans().len() == i + 1
                    &&& p.outcome.status == TargetStatus::Failed
                    &&& p.outcome.error == Some(e)
                    &&& p.outcome.validation_issues@.len() == 0
                    &&& !p.ready
                    &&& newe.len() == olde.len() + 1 && newe.drop_last() =~= olde
                    &&& event_is(newe.last(), EventKind::TargetRejected, t.id@, t.provider_id@, Some(e.code@))
                },
                Ok(caps) => if caps.provider_id@ != t.provider_id@ {
                    &&& b.stage() == Stage::Preflight(i + 1)
                    &&& b.plans().drop_last() =~= a.plans()
                    &&& b.plans().len() == i + 1
                    &&& p.outcome.status == TargetStatus::Failed
                    &&& error_is(p.outcome.error, DeliveryErrorClass::Terminal, "provider.capability_identity_mismatch"@)
                    &&& p.outcome.validation_issues@.len() == 0
                    &&& !p.ready
                    &&& newe.len() == olde.len() + 1 && newe.drop_last() =~= olde
                    &&& event_is(newe.last(), EventKind::TargetRejected, t.id@, t.provider_id@, Some("provider.capability_identity_mismatch"@))
                } else if has_error(crate::capabilities::variant_issues(caps, v)) {
                    &&& b.stage() == Stage::Preflight(i + 1)
                    &&& b.plans().drop_last() =~= a.plans()
                    &&& b.plans().len() == i + 1
                    &&& p.outcome.status == TargetStatus::Failed
                    &&& issue_views(p.outcome.validation_issues@) =~= crate::capabilities::variant_issues(caps, v)
                    &&& error_is(p.outcome.error, DeliveryErrorClass::InvalidRequest, "target.preflight_failed"@)
                    &&& !p.ready
                    &&& newe.len() == olde.len() + 2 && newe.drop_last().drop_last() =~= olde
                    &&& event_is(newe[olde.len() as int], EventKind::CapabilitiesLoaded, t.id@, t.provider_id@, None)
                    &&& event_is(newe.last(), EventKind::TargetRejected, t.id@, t.provider_id@, Some("target.preflight_failed"@))
                } else {
                    &&& b.stage() == Stage::AwaitProviderValidation(i)
                    &&& b.plans() =~= a.plans()
                    &&& b.pending_issues() =~= crate::capabilities::variant_issues(caps, v)
                    &&& newe.len() == olde.len() + 1 && newe.drop_last() =~= olde
                    &&& event_is(newe.last(), EventKind::CapabilitiesLoaded, t.id@, t.provider_id@, None)
                },
            }
        })
    }

    /// What taking a provider-native validation does to an execution.
    pub open spec fn validation_step(a: Execution, result: Result<Vec<ValidationIssue>, DeliveryError>, b: Execution) -> bool {
        &&& b.wf()
        &&& b.mode() == a.mode()
        &&& b.publish_request() == a.publish_request()
        &&& b.request_id() == a.request_id()
        &&& !(a.stage() is AwaitProviderValidation) ==> b == a
        &&& a.stage() matches Stage::AwaitProviderValidation(i) ==> ({
            let t = a.publish_request().targets@[i];
            let olde = a.events();
            let newe = b.events();
            let p = b.plans().last();
            &&& b.stage() == Stage::Preflight(i + 1)
            &&& b.plans().drop_last() =~= a.plans()
            &&& b.plans().len() == i + 1
            &&& p.request is Some
            &&& newe.len() == olde.len() + 1 && newe.drop_last() =~= olde
            &&& match result {
                Err(e) => {
                    &&& p.outcome.status == TargetStatus::Failed
                    &&& p.outcome.error == Some(e)
                    &&& p.outcome.validation_issues@.len() == 0
                    &&& !p.ready
                    &&& event_is(newe.last(), EventKind::TargetRejected, t.id@, t.provider_id@, Some(e.code@))
                },
                Ok(provider_issues) => {
                    let all = a.pending_issues() + issue_views(provider_issues@);
                    &&& issue_views(p.outcome.validation_issues@) =~= all
                    &&& if has_error(all) {
                        &&& p.outcome.status == TargetStatus::Failed
                        &&& error_is(p.outcome.error, DeliveryErrorClass::InvalidRequest, "target.preflight_failed"@)
                        &&& !p.ready
                        &&& event_is(newe.last(), EventKind::TargetRejected, t.id@, t.provider_id@, Some("target.preflight_failed"@))
                    } else {
                        &&& p.outcome.status == TargetStatus::Validated
                        &&& p.outcome.error is None
                        &&& p.ready
                        &&& event_is(newe.last(), EventKind::TargetValidated, t.id@, t.provider_id@, None)
                    }
                },
            }
        })
    }

    /// One dispatch step on the next plan.
    pub open spec fn dispatch_step(a: Execution, b: Execution) -> bool {
        &&& b.wf()
        &&& b.mode() == a.mode()
        &&& b.publish_request() == a.publish_request()
        &&& b.request_id() == a.request_id()
        &&& b.blocked() == a.blocked()
        &&& b.ready_after_preflight() =~= a.ready_after_preflight()
        &&& b.plans().len() == a.plans().len()
        &&& a.events().len() <= b.events().len()
        &&& b.events().subrange(0, a.events().len() as int) =~= a.events()
        &&& a.stage() matches Stage::Dispatch(j) ==> ({
            let t = a.publish_request().targets@[j];
            let olde = a.events();
            let newe = b.events();
            if !a.plans()[j].ready {
                &&& b.stage() == Stage::Dispatch(j + 1)
                &&& b.plans() =~= a.plans()
                &&& newe =~= olde
            } else if a.blocked() {
                &&& b.stage() == Stage::Dispatch(j + 1)
                &&& b.plans()[j].outcome.status == TargetStatus::Skipped
                &&& (b.plans()[j].outcome.error matches Some(e) && blocked_error(e))
                &&& b.plans()[j].ready == a.plans()[j].ready
                &&& forall|k: int| 0 <= k < b.plans().len() && k != j ==> #[trigger] b.plans()[k] == a.plans()[k]
                &&& newe.len() == olde.len() + 1
                &&& event_is(newe.last(), EventKind::DispatchSkipped, t.id@, t.provider_id@, Some("dispatch.require_all_valid_preflight_failed"@))
            } else {
                &&& b.stage() == Stage::AwaitPublish(j)
                &&& b.plans() =~= a.plans()
                &&& newe.len() == olde.len() + 1
                &&& event_is(newe.last(), EventKind::DispatchStarted, t.id@, t.provider_id@, None)
            }
        })
    }

    /// What taking a publish result does to an execution.
    pub open spec fn publish_step(a: Execution, result: Result<ProviderReceipt, DeliveryError>, b: Execution) -> bool {
        &&& b.wf()
        &&& b.mode() == a.mode()
        &&& b.publish_request() == a.publish_request()
        &&& b.request_id() == a.request_id()
        &&& !(a.stage() is AwaitPublish) ==> b == a
        &&& a.stage() matches Stage::AwaitPublish(j) ==> ({
            let t = a.publish_request().targets@[j];
            let olde = a.events();
            let newe = b.events();
            let o = b.plans()[j].outcome;
            &&& b.stage() == Stage::Dispatch(j + 1)
            &&& b.blocked() == a.blocked()
            &&& b.ready_after_preflight() =~= a.ready_after_preflight()
            &&& b.plans()[j].ready == a.plans()[j].ready
            &&& b.plans().len() == a.plans().len()
            &&& forall|k: int| 0 <= k < b.plans().len() && k != j ==> #[trigger] b.plans()[k] == a.plans()[k]
            &&& newe.len() == olde.len() + 1 && newe.drop_last() =~= olde
            &&& match result {
                Ok(receipt) => {
                    &&& o.status == TargetStatus::Published
                    &&& o.receipt == Some(receipt)
                    &&& o.error is None
                    &&& event_is(newe.last(), EventKind::Published, t.id@, t.provider_id@, None)
                },
                Err(e) => {
                    &&& o.status == TargetStatus::Failed
                    &&& o.error == Some(e)
                    &&& o.receipt is None
                    &&& event_is(newe.last(), EventKind::DeliveryFailed, t.id@, t.provider_id@, Some(e.code@))
                },
            }
        })
    }

    /// The end of preflight: dispatch in publish mode, the end in validate mode.
    pub open spec fn end_preflight_step(a: Execution, b: Execution) -> bool {
        &&& b.wf()
        &&& b.mode() == a.mode()
        &&& b.publish_request() == a.publish_request()
        &&& b.request_id() == a.request_id()
        &&& b.events() == a.events()
        &&& b.plans() =~= a.plans()
        &&& a.mode() == ExecutionMode::Publish ==> b.stage() == Stage::Dispatch(0)
        &&& a.mode() == ExecutionMode::Validate ==> b.stage() == Stage::Done
        &&& b.ready_after_preflight().len() == b.plans().len()
        &&& forall|k: int|
            0 <= k < b.plans().len() ==> (#[trigger] b.ready_after_preflight()[k])
                == b.plans()[k].ready
        &&& b.blocked() == (a.mode() == ExecutionMode::Publish
            && a.publish_request().dispatch_policy == DispatchPolicy::RequireAllValid
            && exists|k: int|
            0 <= k < b.plans().len() && !(#[trigger] b.plans()[k]).ready)
    }

    /// The last dispatch step: every plan was dispatched and the report is complete.
    pub open spec fn close_step(a: Execution, b: Execution) -> bool {
        &&& b.wf()
        &&& b.mode() == a.mode()
        &&& b.publish_request() == a.publish_request()
        &&& b.request_id() == a.request_id()
        &&& b.blocked() == a.blocked()
        &&& b.ready_after_preflight() =~= a.ready_after_preflight()
        &&& b.plans() =~= a.plans()
        &&& b.events() =~= a.events()
        &&& b.stage() == Stage::Done
    }

    /// Whether two executions ran the same course so far: the same operation
    /// on the same request, at the same stage, with the same fate and
    /// readiness for each target done with preflight and the same events.
    pub open spec fn same_course(self, other: Execution) -> bool {
        &&& self.mode() == other.mode()
        &&& self.publish_request() == other.publish_request()
        &&& self.request_id() == other.request_id()
        &&& self.stage() == other.stage()
        &&& self.blocked() == other.blocked()
        &&& (self.stage() is Dispatch || self.stage() is AwaitPublish || self.stage() is Done)
            ==> self.ready_after_preflight() == other.ready_after_preflight()
        &&& self.selected_variant() == other.selected_variant()
        &&& self.pending_issues() == other.pending_issues()
        &&& same_plans(self.plans(), other.plans())
        &&& same_events(self.events(), other.events())
    }

    /// What every well-formed execution shows: its events are numbered, the
    /// policy blocks nothing during preflight, the variant awaiting its
    /// capability check is the one the target's selection resolves to, the
    /// pending issues belong to provider validation alone, and the plans
    /// cover the targets done with preflight.
    pub proof fn lemma_stage_facts(self)
        requires
            self.wf(),
        ensures
            numbered(self.events()),
            (self.stage() is Preflight || self.stage() is AwaitCapabilities
                || self.stage() is AwaitProviderValidation) ==> !self.blocked(),
            !(self.stage() is AwaitCapabilities) ==> self.selected_variant() == 0,
            !(self.stage() is AwaitProviderValidation) ==> self.pending_issues() == Seq::<
                crate::validation::IssueView,
            >::empty(),
            self.stage() matches Stage::AwaitCapabilities(i) ==> resolved_index(
                self.publish_request().variants@,
                candidate_ids(self.publish_request().targets@[i].selection),
                self.publish_request().targets@[i].provider_id@,
            ) == Some(self.selected_variant()),
            self.stage() matches Stage::Preflight(i) ==> self.plans().len() == i,
            self.stage() matches Stage::AwaitCapabilities(i) ==> self.plans().len() == i,
            self.stage() matches Stage::AwaitProviderValidation(i) ==> self.plans().len() == i,
            (self.stage() is Dispatch || self.stage() is AwaitPublish || self.stage() is Done)
                ==> self.plans().len() == self.publish_request().targets@.len(),
    {
    }

    /// The last events of two executions agree when both record the same
    /// kind, target, provider and code at the same position.
    proof fn lemma_last_events_agree(
        a: Execution,
        b: Execution,
        kind: EventKind,
        target_id: Seq<char>,
        provider_id: Seq<char>,
        code: Option<Seq<char>>,
    )
        requires
            a.wf(),
            b.wf(),
            a.events().len() == b.events().len(),
            a.events().len() > 0,
            event_is(a.events().last(), kind, target_id, provider_id, code),
            event_is(b.events().last(), kind, target_id, provider_id, code),
        ensures
            event_view(a.events().last()) == event_view(b.events().last()),
    {
        a.lemma_stage_facts();
        b.lemma_stage_facts();
        let k = a.events().len() - 1;
        assert(a.events()[k].sequence == sequence_number(k));
        assert(b.events()[k].sequence == sequence_number(k));
    }

    proof fn lemma_end_preflight_same(a: Execution, b: Execution, a2: Execution, b2: Execution)
        requires
            a.wf(),
            b.wf(),
            a.same_course(b),
            Self::end_preflight_step(a, a2),
            Self::end_preflight_step(b, b2),
        ensures
            a2.same_course(b2),
    {
        a2.lemma_stage_facts();
        b2.lemma_stage_facts();
        let n = a2.plans().len();
        assert forall|k: int| 0 <= k < n implies a2.ready_after_preflight()[k] == b2.ready_after_preflight()[k] by {
            assert(a2.ready_after_preflight()[k] == a2.plans()[k].ready);
            assert(b2.ready_after_preflight()[k] == b2.plans()[k].ready);
            assert(a.plans()[k] == a2.plans()[k] && b.plans()[k] == b2.plans()[k]);
        }
        assert(a2.ready_after_preflight() =~= b2.ready_after_preflight());
        if exists|k: int| 0 <= k < n && !(#[trigger] a2.plans()[k]).ready {
            let k = choose|k: int| 0 <= k < n && !(#[trigger] a2.plans()[k]).ready;
            assert(a.plans()[k] == a2.plans()[k] && b.plans()[k] == b2.plans()[k]);
            assert(!b2.plans()[k].ready);
        }
        if exists|k: int| 0 <= k < n && !(#[trigger] b2.plans()[k]).ready {
            let k = choose|k: int| 0 <= k < n && !(#[trigger] b2.plans()[k]).ready;
            assert(a.plans()[k] == a2.plans()[k] && b.plans()[k] == b2.plans()[k]);
            assert(!a2.plans()[k].ready);
        }
    }

    proof fn lemma_dispatch_step_same(a: Execution, b: Execution, a2: Execution, b2: Execution)
        requires
            a.wf(),
            b.wf(),
            a.same_course(b),
            a.stage() matches Stage::Dispatch(j) && j < a.publish_request().targets@.len(),
            Self::dispatch_step(a, a2),
            Self::dispatch_step(b, b2),
        ensures
            a2.same_course(b2),
    {
        a.lemma_stage_facts();
        b.lemma_stage_facts();
        a2.lemma_stage_facts();
        b2.lemma_stage_facts();
        let j = a.stage()->Dispatch_0;
        let t = a.publish_request().targets@[j];
        assert(a.plans()[j].ready == b.plans()[j].ready);
        if !a.plans()[j].ready {
        } else if a.blocked() {
            assert(a2.events().drop_last() =~= a2.events().subrange(0, a.events().len() as int));
            assert(b2.events().drop_last() =~= b2.events().subrange(0, b.events().len() as int));
            Self::lemma_last_events_agree(a2, b2, EventKind::DispatchSkipped, t.id@, t.provider_id@, Some("dispatch.require_all_valid_preflight_failed"@));
            lemma_same_events_push(a.events(), b.events(), a2.events(), b2.events());
            assert forall|k: int| #![trigger a2.plans()[k], b2.plans()[k]] 0 <= k < a2.plans().len() implies fate(a2.plans()[k].outcome) == fate(b2.plans()[k].outcome)
                && a2.plans()[k].ready == b2.plans()[k].ready by {
                if k != j {
                    assert(a2.plans()[k] == a.plans()[k] && b2.plans()[k] == b.plans()[k]);
                }
            }
        } else {
            assert(a2.events().drop_last() =~= a2.events().subrange(0, a.events().len() as int));
            assert(b2.events().drop_last() =~= b2.events().subrange(0, b.events().len() as int));
            Self::lemma_last_events_agree(a2, b2, EventKind::DispatchStarted, t.id@, t.provider_id@, None);
            lemma_same_events_push(a.events(), b.events(), a2.events(), b2.events());
        }
    }

    proof fn lemma_close_same(a: Execution, b: Execution, a2: Execution, b2: Execution)
        requires
            a.wf(),
            b.wf(),
            a.same_course(b),
            a.stage() is Dispatch,
            Self::close_step(a, a2),
            Self::close_step(b, b2),
        ensures
            a2.same_course(b2),
    {
        a2.lemma_stage_facts();
        b2.lemma_stage_facts();
    }

    /// One of the executor's own steps leads executions that ran the same
    /// course, with registries that hold the same provider identifiers, to the
    /// same course.
    proof fn lemma_internal_step_same<A, B>(
        a: Execution,
        b: Execution,
        ra: Seq<(Seq<char>, A)>,
        rb: Seq<(Seq<char>, B)>,
        a2: Execution,
        b2: Execution,
    )
        requires
            a.wf(),
            b.wf(),
            a.same_course(b),
            forall|k: Seq<char>| has_key(ra, k) == has_key(rb, k),
            Self::internal_step(a, ra, a2),
            Self::internal_step(b, rb, b2),
        ensures
            a2.same_course(b2),
            a2.wf(),
            b2.wf(),
    {
        reveal(Execution::internal_step);
        let n = a.publish_request().targets@.len();
        match a.stage() {
            Stage::Preflight(i) => if i < n {
                Self::lemma_preflight_step_same(a, b, ra, rb, a2, b2);
            } else {
                Self::lemma_end_preflight_same(a, b, a2, b2);
            },
            Stage::Dispatch(j) => if j < n {
                Self::lemma_dispatch_step_same(a, b, a2, b2);
            } else {
                Self::lemma_close_same(a, b, a2, b2);
            },
            _ => {},
        }
    }

    proof fn lemma_paths_agree<A, B>(
        pa: Seq<Execution>,
        pb: Seq<Execution>,
        ra: Seq<(Seq<char>, A)>,
        rb: Seq<(Seq<char>, B)>,
        k: int,
    )
        requires
            Self::runs_along(pa, ra),
            Self::runs_along(pb, rb),
            pa[0].wf(),
            pb[0].wf(),
            pa[0].same_course(pb[0]),
            forall|key: Seq<char>| has_key(ra, key) == has_key(rb, key),
            0 <= k < pa.len(),
            k < pb.len(),
        ensures
            pa[k].wf(),
            pb[k].wf(),
            pa[k].same_course(pb[k]),
        decreases k,
    {
        if k > 0 {
            Self::lemma_paths_agree(pa, pb, ra, rb, k - 1);
            assert(Self::internal_step(pa[k - 1], ra, pa[k]));
            assert(Self::internal_step(pb[k - 1], rb, pb[k]));
            Self::lemma_internal_step_same(pa[k - 1], pb[k - 1], ra, rb, pa[k], pb[k]);
        }
    }

    /// The executor's own decisions are deterministic. From executions that
    /// ran the same course, with registries that hold the same provider
    /// identifiers, the executor's own steps up to the next outside call or
    /// the end (what `next_action` runs) take equally many steps, end at the
    /// same course, and announce the same action.
    pub proof fn lemma_own_steps_deterministic<A, B>(
        pa: Seq<Execution>,
        pb: Seq<Execution>,
        ra: Seq<(Seq<char>, A)>,
        rb: Seq<(Seq<char>, B)>,
        action_a: ExecutionAction,
        action_b: ExecutionAction,
    )
        requires
            Self::runs_along(pa, ra),
            Self::runs_along(pb, rb),
            pa[0].wf(),
            pb[0].wf(),
            pa[0].same_course(pb[0]),
            forall|key: Seq<char>| has_key(ra, key) == has_key(rb, key),
            pa.last().waiting(),
            pb.last().waiting(),
            announces(action_a, pa.last().stage()),
            announces(action_b, pb.last().stage()),
        ensures
            pa.len() == pb.len(),
            pa.last().same_course(pb.last()),
            action_a == action_b,
    {
        reveal(Execution::internal_step);
        if pa.len() < pb.len() {
            let m = pa.len() - 1;
            Self::lemma_paths_agree(pa, pb, ra, rb, m);
            assert(Self::internal_step(pb[m], rb, pb[m + 1]));
            assert(false);
        }
        if pb.len() < pa.len() {
            let m = pb.len() - 1;
            Self::lemma_paths_agree(pa, pb, ra, rb, m);
            assert(Self::internal_step(pa[m], ra, pa[m + 1]));
            assert(false);
        }
        Self::lemma_paths_agree(pa, pb, ra, rb, pa.len() - 1);
    }

    /// Two events agree when both record the same kind, target, provider and
    /// code under the same sequence number.
    proof fn lemma_events_agree(
        e: ExecutionEvent,
        f: ExecutionEvent,
        kind: EventKind,
        target_id: Seq<char>,
        provider_id: Seq<char>,
        code: Option<Seq<char>>,
    )
        requires
            e.sequence == f.sequence,
            event_is(e, kind, target_id, provider_id, code),
            event_is(f, kind, target_id, provider_id, code),
        ensures
            event_view(e) == event_view(f),
    {
    }

    /// Taking the same capability result leads executions that ran the same
    /// course to the same course.
    pub proof fn lemma_capabilities_step_deterministic(
        a: Execution,
        b: Execution,
        result: Result<ProviderCapabilities, DeliveryError>,
        a2: Execution,
        b2: Execution,
    )
        requires
            a.wf(),
            b.wf(),
            a.same_course(b),
            Self::capabilities_step(a, result, a2),
            Self::capabilities_step(b, result, b2),
        ensures
            a2.same_course(b2),
    {
        a.lemma_stage_facts();
        b.lemma_stage_facts();
        a2.lemma_stage_facts();
        b2.lemma_stage_facts();
        if let Stage::AwaitCapabilities(i) = a.stage() {
            let req = a.publish_request();
            let t = req.targets@[i];
            let v = req.variants@[a.selected_variant()];
            match result {
                Err(e) => {
                    Self::lemma_last_events_agree(a2, b2, EventKind::TargetRejected, t.id@, t.provider_id@, Some(e.code@));
                    lemma_same_events_push(a.events(), b.events(), a2.events(), b2.events());
                    lemma_same_plans_push(a.plans(), b.plans(), a2.plans(), b2.plans());
                },
                Ok(caps) => {
                    if caps.provider_id@ != t.provider_id@ {
                        Self::lemma_last_events_agree(a2, b2, EventKind::TargetRejected, t.id@, t.provider_id@, Some("provider.capability_identity_mismatch"@));
                        lemma_same_events_push(a.events(), b.events(), a2.events(), b2.events());
                        lemma_same_plans_push(a.plans(), b.plans(), a2.plans(), b2.plans());
                    } else if has_error(crate::capabilities::variant_issues(caps, v)) {
                        let k = a.events().len() as int;
                        assert(a2.events()[k].sequence == sequence_number(k));
                        assert(b2.events()[k].sequence == sequence_number(k));
                        Self::lemma_events_agree(a2.events()[k], b2.events()[k], EventKind::CapabilitiesLoaded, t.id@, t.provider_id@, None);
                        lemma_same_events_push(a.events(), b.events(), a2.events().drop_last(), b2.events().drop_last());
                        Self::lemma_last_events_agree(a2, b2, EventKind::TargetRejected, t.id@, t.provider_id@, Some("target.preflight_failed"@));
                        lemma_same_events_push(a2.events().drop_last(), b2.events().drop_last(), a2.events(), b2.events());
                        lemma_same_plans_push(a.plans(), b.plans(), a2.plans(), b2.plans());
                    } else {
                        Self::lemma_last_events_agree(a2, b2, EventKind::CapabilitiesLoaded, t.id@, t.provider_id@, None);
                        lemma_same_events_push(a.events(), b.events(), a2.events(), b2.events());
                    }
                },
            }
        }
    }

    /// Taking the same provider-native validation result leads executions
    /// that ran the same course to the same course.
    pub proof fn lemma_validation_step_deterministic(
        a: Execution,
        b: Execution,
        result: Result<Vec<ValidationIssue>, DeliveryError>,
        a2: Execution,
        b2: Execution,
    )
        requires
            a.wf(),
            b.wf(),
            a.same_course(b),
            Self::validation_step(a, result, a2),
            Self::validation_step(b, result, b2),
        ensures
            a2.same_course(b2),
    {
        a.lemma_stage_facts();
        b.lemma_stage_facts();
        a2.lemma_stage_facts();
        b2.lemma_stage_facts();
        if let Stage::AwaitProviderValidation(i) = a.stage() {
            let t = a.publish_request().targets@[i];
            match result {
                Err(e) => {
                    Self::lemma_last_events_agree(a2, b2, EventKind::TargetRejected, t.id@, t.provider_id@, Some(e.code@));
                },
                Ok(provider_issues) => {
                    let all = a.pending_issues() + issue_views(provider_issues@);
                    if has_error(all) {
                        Self::lemma_last_events_agree(a2, b2, EventKind::TargetRejected, t.id@, t.provider_id@, Some("target.preflight_failed"@));
                    } else {
                        Self::lemma_last_events_agree(a2, b2, EventKind::TargetValidated, t.id@, t.provider_id@, None);
                    }
                },
            }
            lemma_same_events_push(a.events(), b.events(), a2.events(), b2.events());
            lemma_same_plans_push(a.plans(), b.plans(), a2.plans(), b2.plans());
        }
    }

    /// Taking the same publish result leads executions that ran the same
    /// course to the same course.
    pub proof fn lemma_publish_step_deterministic(
        a: Execution,
        b: Execution,
        result: Result<ProviderReceipt, DeliveryError>,
        a2: Execution,
        b2: Execution,
    )
        requires
            a.wf(),
            b.wf(),
            a.same_course(b),
            Self::publish_step(a, result, a2),
            Self::publish_step(b, result, b2),
        ensures
            a2.same_course(b2),
    {
        a.lemma_stage_facts();
        b.lemma_stage_facts();
        a2.lemma_stage_facts();
        b2.lemma_stage_facts();
        if let Stage::AwaitPublish(j) = a.stage() {
            let t = a.publish_request().targets@[j];
            match result {
                Ok(receipt) => {
                    Self::lemma_last_events_agree(a2, b2, EventKind::Published, t.id@, t.provider_id@, None);
                },
                Err(e) => {
                    Self::lemma_last_events_agree(a2, b2, EventKind::DeliveryFailed, t.id@, t.provider_id@, Some(e.code@));
                },
            }
            lemma_same_events_push(a.events(), b.events(), a2.events(), b2.events());
            assert(a.plans()[j].ready == b.plans()[j].ready);
            assert forall|k: int| #![trigger a2.plans()[k], b2.plans()[k]] 0 <= k < a2.plans().len() implies fate(a2.plans()[k].outcome) == fate(b2.plans()[k].outcome)
                && a2.plans()[k].ready == b2.plans()[k].ready by {
                if k != j {
                    assert(a2.plans()[k] == a.plans()[k] && b2.plans()[k] == b.plans()[k]);
                }
            }
        }
    }

    /// Whether a report lists an execution's outcomes and events.
    pub open spec fn reports(x: Execution, r: ExecutionReport) -> bool {
        &&& r.request_id == x.request_id()
        &&& r.mode == x.mode()
        &&& r.dispatch_policy == x.publish_request().dispatch_policy
        &&& r.outcomes@.len() == x.plans().len()
        &&& forall|k: int| 0 <= k < r.outcomes@.len() ==> #[trigger] r.outcomes@[k] == x.plans()[k].outcome
        &&& r.events@ == x.events()
    }

    /// Executions just started on the same request, with the same identifier
    /// and operation, have run the same course.
    pub proof fn lemma_fresh_executions_same_course(a: Execution, b: Execution)
        requires
            a.wf(),
            b.wf(),
            a.mode() == b.mode(),
            a.publish_request() == b.publish_request(),
            a.request_id() == b.request_id(),
            a.stage() == Stage::Preflight(0),
            b.stage() == Stage::Preflight(0),
            a.events().len() == 0,
            b.events().len() == 0,
        ensures
            a.same_course(b),
    {
        a.lemma_stage_facts();
        b.lemma_stage_facts();
    }

    /// Reports of finished executions that ran the same course agree: the
    /// same targets, providers and selected variants in the same order, the
    /// same status, error class and error code for each target, and the same
    /// events in the same order.
    pub proof fn lemma_report_deterministic(a: Execution, b: Execution, ra: ExecutionReport, rb: ExecutionReport)
        requires
            a.wf(),
            b.wf(),
            a.same_course(b),
            a.stage() == Stage::Done,
            Self::reports(a, ra),
            Self::reports(b, rb),
        ensures
            ra.request_id == rb.request_id,
            ra.mode == rb.mode,
            ra.dispatch_policy == rb.dispatch_policy,
            ra.outcomes@.len() == rb.outcomes@.len(),
            forall|k: int|
                #![trigger ra.outcomes@[k], rb.outcomes@[k]]
                0 <= k < ra.outcomes@.len() ==> {
                    &&& ra.outcomes@[k].target_id == rb.outcomes@[k].target_id
                    &&& ra.outcomes@[k].provider_id == rb.outcomes@[k].provider_id
                    &&& ra.outcomes@[k].selected_variant_id == rb.outcomes@[k].selected_variant_id
                    &&& fate(ra.outcomes@[k]) == fate(rb.outcomes@[k])
                },
            same_events(ra.events@, rb.events@),
    {
        assert forall|k: int|
            #![trigger ra.outcomes@[k], rb.outcomes@[k]]
            0 <= k < ra.outcomes@.len() implies {
                &&& ra.outcomes@[k].target_id == rb.outcomes@[k].target_id
                &&& ra.outcomes@[k].provider_id == rb.outcomes@[k].provider_id
                &&& ra.outcomes@[k].selected_variant_id == rb.outcomes@[k].selected_variant_id
                &&& fate(ra.outcomes@[k]) == fate(rb.outcomes@[k])
            } by {
            assert(ra.outcomes@[k] == a.plans()[k].outcome);
            assert(rb.outcomes@[k] == b.plans()[k].outcome);
            assert(a.plans_follow_targets() && b.plans_follow_targets());
            assert(a.plans()[k] == a.plans()[k] && b.plans()[k] == b.plans()[k]);
        }
    }

    /// What taking an adapter's answer does to an execution.
    pub open spec fn answer_step(a: Execution, answer: AdapterAnswer, b: Execution) -> bool {
        match answer {
            AdapterAnswer::Capabilities(r) => Self::capabilities_step(a, r, b),
            AdapterAnswer::Validation(r) => Self::validation_step(a, r, b),
            AdapterAnswer::Publish(r) => Self::publish_step(a, r, b),
        }
    }

    /// One step of a driven run: the executor's own step while it has one,
    /// and the adapter's answer while it waits.
    pub open spec fn drive_step<A>(a: Execution, reg: Seq<(Seq<char>, A)>, answer: AdapterAnswer, b: Execution) -> bool {
        if a.waiting() {
            Self::answer_step(a, answer, b)
        } else {
            Self::internal_step(a, reg, b)
        }
    }

    /// Whether the executions form a run driven against the registry, the
    /// step after position `k` taking `answers[k]` if it waits.
    pub open spec fn drives<A>(xs: Seq<Execution>, reg: Seq<(Seq<char>, A)>, answers: Seq<AdapterAnswer>) -> bool {
        &&& xs.len() >= 1
        &&& xs.len() <= answers.len() + 1
        &&& forall|k: int| 0 <= k < xs.len() - 1 ==> Self::drive_step(#[trigger] xs[k], reg, answers[k], xs[k + 1])
    }

    proof fn lemma_drive_step_same<A, B>(
        a: Execution,
        b: Execution,
        ra: Seq<(Seq<char>, A)>,
        rb: Seq<(Seq<char>, B)>,
        answer: AdapterAnswer,
        a2: Execution,
        b2: Execution,
    )
        requires
            a.wf(),
            b.wf(),
            a.same_course(b),
            forall|k: Seq<char>| has_key(ra, k) == has_key(rb, k),
            Self::drive_step(a, ra, answer, a2),
            Self::drive_step(b, rb, answer, b2),
        ensures
            a2.wf(),
            b2.wf(),
            a2.same_course(b2),
    {
        if a.waiting() {
            match answer {
                AdapterAnswer::Capabilities(r) => Self::lemma_capabilities_step_deterministic(a, b, r, a2, b2),
                AdapterAnswer::Validation(r) => Self::lemma_validation_step_deterministic(a, b, r, a2, b2),
                AdapterAnswer::Publish(r) => Self::lemma_publish_step_deterministic(a, b, r, a2, b2),
            }
        } else {
            Self::lemma_internal_step_same(a, b, ra, rb, a2, b2);
        }
    }

    /// Runs are deterministic. Two runs driven from executions that ran the
    /// same course (such as two executions just started on the same request,
    /// with the same identifier and operation), against registries that hold
    /// the same provider identifiers, with the adapters giving the same
    /// answers, run the same course step by step: the same stages, fates,
    /// readiness and events.
    pub proof fn lemma_driven_runs_deterministic<A, B>(
        xa: Seq<Execution>,
        xb: Seq<Execution>,
        ra: Seq<(Seq<char>, A)>,
        rb: Seq<(Seq<char>, B)>,
        answers: Seq<AdapterAnswer>,
        k: int,
    )
        requires
            Self::drives(xa, ra, answers),
            Self::drives(xb, rb, answers),
            xa[0].wf(),
            xb[0].wf(),
            xa[0].same_course(xb[0]),
            forall|key: Seq<char>| has_key(ra, key) == has_key(rb, key),
            0 <= k < xa.len(),
            k < xb.len(),
        ensures
            xa[k].wf(),
            xb[k].wf(),
            xa[k].same_course(xb[k]),
        decreases k,
    {
        if k > 0 {
            Self::lemma_driven_runs_deterministic(xa, xb, ra, rb, answers, k - 1);
            assert(Self::drive_step(xa[k - 1], ra, answers[k - 1], xa[k]));
            assert(Self::drive_step(xb[k - 1], rb, answers[k - 1], xb[k]));
            Self::lemma_drive_step_same(xa[k - 1], xb[k - 1], ra, rb, answers[k - 1], xa[k], xb[k]);
        }
    }

    /// Every step of a driven run keeps an execution well-formed.
    pub proof fn lemma_driven_runs_stay_well_formed<A>(
        xs: Seq<Execution>,
        reg: Seq<(Seq<char>, A)>,
        answers: Seq<AdapterAnswer>,
        k: int,
    )
        requires
            Self::drives(xs, reg, answers),
            xs[0].wf(),
            0 <= k < xs.len(),
        ensures
            xs[k].wf(),
        decreases k,
    {
        if k > 0 {
            Self::lemma_driven_runs_stay_well_formed(xs, reg, answers, k - 1);
            assert(Self::drive_step(xs[k - 1], reg, answers[k - 1], xs[k]));
            reveal(Execution::internal_step);
            if !xs[k - 1].waiting() {
                let n = xs[k - 1].publish_request().targets@.len();
                match xs[k - 1].stage() {
                    Stage::Preflight(i) => if i < n {} else {},
                    Stage::Dispatch(j) => if j < n {} else {},
                    _ => {},
                }
            } else {
                match answers[k - 1] {
                    AdapterAnswer::Capabilities(r) => {},
                    AdapterAnswer::Validation(r) => {},
                    AdapterAnswer::Publish(r) => {},
                }
            }
        }
    }

    /// Every outcome of a finished execution agrees with its status (an
    /// error exactly when failed or skipped, a receipt exactly when
    /// published, no selected variant only when failed) and with the
    /// operation (validated only when validating, published or skipped only
    /// when publishing).
    pub proof fn lemma_finished_outcomes_consistent(x: Execution)
        requires
            x.wf(),
            x.stage() == Stage::Done,
        ensures
            forall|k: int|
                0 <= k < x.plans().len() ==> outcome_consistent((#[trigger] x.plans()[k]).outcome)
                    && outcome_fits_mode(x.plans()[k].outcome, x.mode()),
    {
        assert forall|k: int| 0 <= k < x.plans().len() implies outcome_consistent((#[trigger] x.plans()[k]).outcome)
            && outcome_fits_mode(x.plans()[k].outcome, x.mode()) by {
            if x.mode() == ExecutionMode::Publish {
                assert(x.dispatch_wf(x.request.targets@.len() as int));
            }
        }
    }

    /// The outcomes of a run driven to its end from a well-formed execution
    /// (such as one just started) agree with their statuses and with the
    /// operation.
    pub proof fn lemma_driven_run_outcomes_consistent<A>(
        xs: Seq<Execution>,
        reg: Seq<(Seq<char>, A)>,
        answers: Seq<AdapterAnswer>,
    )
        requires
            Self::drives(xs, reg, answers),
            xs[0].wf(),
            xs.last().stage() == Stage::Done,
        ensures
            forall|k: int|
                0 <= k < xs.last().plans().len() ==> outcome_consistent(
                    (#[trigger] xs.last().plans()[k]).outcome,
                ) && outcome_fits_mode(xs.last().plans()[k].outcome, xs.last().mode()),
    {
        Self::lemma_driven_runs_stay_well_formed(xs, reg, answers, xs.len() - 1);
        Self::lemma_finished_outcomes_consistent(xs.last());
    }

    /// One preflight step leads executions that ran the same course, with
    /// registries that hold the same provider identifiers, to the same course.
    proof fn lemma_preflight_step_same<A, B>(
        a: Execution,
        b: Execution,
        ra: Seq<(Seq<char>, A)>,
        rb: Seq<(Seq<char>, B)>,
        a2: Execution,
        b2: Execution,
    )
        requires
            a.wf(),
            b.wf(),
            a.same_course(b),
            forall|k: Seq<char>| has_key(ra, k) == has_key(rb, k),
            a.stage() matches Stage::Preflight(i) && i < a.publish_request().targets@.len(),
            Self::preflight_step(a, ra, a2),
            Self::preflight_step(b, rb, b2),
        ensures
            a2.same_course(b2),
    {
        a.lemma_stage_facts();
        b.lemma_stage_facts();
        a2.lemma_stage_facts();
        b2.lemma_stage_facts();
        let i = a.plans().len() as int;
        let req = a.publish_request();
        let t = req.targets@[i];
        match resolved_index(req.variants@, candidate_ids(t.selection), t.provider_id@) {
            None => {
                Self::lemma_last_events_agree(a2, b2, EventKind::TargetRejected, t.id@, t.provider_id@, Some("selection.no_eligible_variant"@));
                lemma_same_plans_push(a.plans(), b.plans(), a2.plans(), b2.plans());
            },
            Some(vi) => {
                if !has_key(ra, t.provider_id@) {
                    Self::lemma_last_events_agree(a2, b2, EventKind::TargetRejected, t.id@, t.provider_id@, Some("provider.not_registered"@));
                    lemma_same_plans_push(a.plans(), b.plans(), a2.plans(), b2.plans());
                } else {
                    Self::lemma_last_events_agree(a2, b2, EventKind::TargetResolved, t.id@, t.provider_id@, None);
                }
            },
        }
        lemma_same_events_push(a.events(), b.events(), a2.events(), b2.events());
    }

    /// Whether the execution waits for outside work or is done.
    pub open spec fn waiting(self) -> bool {
        !(self.stage() is Preflight || self.stage() is Dispatch)
    }

    /// One of the executor's own steps, chosen by the stage alone.
    #[verifier::opaque]
    pub open spec fn internal_step<A>(a: Execution, reg: Seq<(Seq<char>, A)>, b: Execution) -> bool {
        let n = a.publish_request().targets@.len();
        match a.stage() {
            Stage::Preflight(i) => if i < n {
                Self::preflight_step(a, reg, b)
            } else {
                Self::end_preflight_step(a, b)
            },
            Stage::Dispatch(j) => if j < n {
                Self::dispatch_step(a, b)
            } else {
                Self::close_step(a, b)
            },
            _ => false,
        }
    }

    /// Whether each execution on the path is one of the executor's own steps
    /// from the one before it.
    pub open spec fn runs_along<A>(path: Seq<Execution>, reg: Seq<(Seq<char>, A)>) -> bool {
        &&& path.len() >= 1
        &&& forall|k: int| 0 <= k < path.len() - 1 ==> Self::internal_step(#[trigger] path[k], reg, path[k + 1])
    }

    /// Starts an operation on a request whose structure was checked first: a
    /// request with a blocking structural issue fails with all of its issues.
    pub fn start(request_id: RequestId, request: PublishRequest, mode: ExecutionMode) -> (r: Result<
        Execution,
        ExecutionFailure,
    >)
        ensures
            has_error(structure_issues(request)) ==> (r matches Err(ExecutionFailure::InvalidRequest { issues })
                && issue_views(issues@) == structure_issues(request)),
            !has_error(structure_issues(request)) ==> (r matches Ok(x) && x.wf() && x.mode() == mode
                && x.publish_request() == request && x.request_id() == request_id
                && x.stage() == Stage::Preflight(0) && x.events().len() == 0),
    {
        let issues = request.structural_issues();
        if any_error(&issues) {
            return Err(ExecutionFailure::InvalidRequest { issues });
        }
        Ok(
            Execution {
                request_id,
                request,
                mode,
                plans: Vec::new(),
                events: Vec::new(),
                phase: Phase::Preflight { next: 0 },
                current: None,
                current_request: None,
                block_all: false,
                ready_after_preflight: Ghost(Seq::empty()),
            },
        )
    }

    /// The request being executed.
    pub fn request(&self) -> (r: &PublishRequest)
        ensures
            *r == self.publish_request(),
    {
        &self.request
    }

    /// The capability context of the target whose capabilities are awaited.
    pub fn capability_context(&self) -> (r: Option<ProviderTargetContext>)
        requires
            self.wf(),
        ensures
            match self.stage() {
                Stage::AwaitCapabilities(i) => r matches Some(c) && c.provider_id
                    == self.publish_request().targets@[i].provider_id && c.channel
                    == self.publish_request().targets@[i].channel && c.credential
                    == self.publish_request().targets@[i].credential && c.options@
                    == self.publish_request().targets@[i].options@,
                _ => r is None,
            },
    {
        match &self.phase {
            Phase::AwaitCapabilities { index, .. } => Some(
                ProviderTargetContext::from_target(&self.request.targets[*index]),
            ),
            _ => None,
        }
    }

    /// The provider request awaiting provider-native validation or publishing.
    pub fn pending_provider_request(&self) -> (r: Option<&ProviderPublishRequest>)
        requires
            self.wf(),
        ensures
            match self.stage() {
                Stage::AwaitProviderValidation(i) => r matches Some(x) && provider_request_for(
                    *x,
                    self.request_id(),
                    self.publish_request(),
                    i,
                ),
                Stage::AwaitPublish(i) => r matches Some(x) && Some(*x) == self.plans()[i].request
                    && provider_request_for(*x, self.request_id(), self.publish_request(), i),
                _ => r is None,
            },
    {
        match &self.phase {
            Phase::AwaitProviderValidation { .. } => self.current_request.as_ref(),
            Phase::AwaitPublish { index } => self.plans[*index].request.as_ref(),
            _ => None,
        }
    }

    /// Records the plan of the target under preflight and moves to the next target.
    fn finish_target(&mut self, plan: TargetPlan)
        requires
            old(self).preflight_base(),
            plan.outcome.target_id == old(self).publish_request().targets@[old(self).plans().len() as int].id,
            plan.outcome.provider_id == old(self).publish_request().targets@[old(self).plans().len() as int].provider_id,
            plan.outcome.selected_variant_id == selected_variant_for(old(self).publish_request(), old(self).plans().len() as int),
            outcome_consistent(plan.outcome),
            plan.ready ==> plan.has_adapter && plan.request is Some,
            plan.ready ==> plan.outcome.status == TargetStatus::Validated,
            !plan.ready ==> plan.outcome.status == TargetStatus::Failed,
            plan.request matches Some(pr) ==> provider_request_for(
                pr,
                old(self).request_id(),
                old(self).publish_request(),
                old(self).plans().len() as int,
            ),
        ensures
            final(self).wf(),
            final(self).mode() == old(self).mode(),
            final(self).publish_request() == old(self).publish_request(),
            final(self).request_id() == old(self).request_id(),
            final(self).events() == old(self).events(),
            final(self).plans() == old(self).plans().push(plan),
            final(self).stage() == Stage::Preflight(old(self).plans().len() + 1int),
    {
        let ghost i = self.plans@.len();
        self.plans.push(plan);
        self.phase = Phase::Preflight { next: self.plans.len() };
        self.current = None;
        self.current_request = None;
        assert(self.plans@[i as int] == plan);
        assert(self.plans_follow_targets());
    }

    /// Preflight of one target up to the first outside call: variant
    /// resolution and the adapter lookup.
    pub fn preflight_target<A>(&mut self, registry: &ProviderRegistry<A>)
        requires
            old(self).wf(),
            registry.wf(),
            old(self).stage() matches Stage::Preflight(i) && i < old(self).publish_request().targets@.len(),
        ensures
            Self::preflight_step(*old(self), registry@, *final(self)),
    {
        let i = self.plans.len();
        let ghost req = self.request;
        proof {
            crate::request::lemma_resolved_index(
                req.variants@,
                candidate_ids(req.targets@[i as int].selection),
                req.targets@[i as int].provider_id@,
            );
        }
        let target = &self.request.targets[i];
        match self.request.resolve_variant_index(target) {
            None => {
                let issue = no_eligible_variant(target);
                let outcome = TargetOutcome {
                    target_id: target.id.clone(),
                    provider_id: target.provider_id.clone(),
                    selected_variant_id: None,
                    status: TargetStatus::Failed,
                    receipt: None,
                    error: Some(
                        DeliveryError::new(
                            DeliveryErrorClass::InvalidRequest,
                            "selection.no_eligible_variant",
                            "target has no eligible content variant",
                        ),
                    ),
                    validation_issues: vec![issue],
                };
                push_event(
                    &mut self.events,
                    EventKind::TargetRejected,
                    &outcome.target_id,
                    &outcome.provider_id,
                    Some("selection.no_eligible_variant"),
                );
                assert(issue_views(outcome.validation_issues@) =~= seq![no_eligible_issue(target.id@)]);
                self.finish_target(TargetPlan { outcome, request: None, has_adapter: false, ready: false });
            },
            Some(vi) => {
                let variant_id = self.request.variants[vi].id.clone();
                if !registry.contains(&target.provider_id) {
                    let outcome = TargetOutcome {
                        target_id: target.id.clone(),
                        provider_id: target.provider_id.clone(),
                        selected_variant_id: Some(variant_id),
                        status: TargetStatus::Failed,
                        receipt: None,
                        error: Some(
                            DeliveryError::new(
                                DeliveryErrorClass::Terminal,
                                "provider.not_registered",
                                "no adapter is registered for this provider",
                            ),
                        ),
                        validation_issues: Vec::new(),
                    };
                    push_event(
                        &mut self.events,
                        EventKind::TargetRejected,
                        &outcome.target_id,
                        &outcome.provider_id,
                        Some("provider.not_registered"),
                    );
                    self.finish_target(TargetPlan { outcome, request: None, has_adapter: false, ready: false });
                } else {
                    let outcome = TargetOutcome {
                        target_id: target.id.clone(),
                        provider_id: target.provider_id.clone(),
                        selected_variant_id: Some(variant_id),
                        status: TargetStatus::Validated,
                        receipt: None,
                        error: None,
                        validation_issues: Vec::new(),
                    };
                    push_event(
                        &mut self.events,
                        EventKind::TargetResolved,
                        &outcome.target_id,
                        &outcome.provider_id,
                        None,
                    );
                    self.current = Some(outcome);
                    self.phase = Phase::AwaitCapabilities { index: i, variant_index: vi };
                }
            },
        }
    }

    /// Takes the adapter's capability snapshot for the target under preflight,
    /// checks the variant against it and asks for provider validation when no
    /// check blocks the target. Outside that stage nothing changes.
    pub fn supply_capabilities(&mut self, result: Result<ProviderCapabilities, DeliveryError>)
        requires
            old(self).wf(),
        ensures
            Self::capabilities_step(*old(self), result, *final(self)),
    {
        let (index, variant_index) = match &self.phase {
            Phase::AwaitCapabilities { index, variant_index } => (*index, *variant_index),
            _ => {
                return;
            },
        };
        let mut outcome = match self.current.take() {
            Some(o) => o,
            None => {
                return;
            },
        };
        match result {
            Err(e) => {
                let code = e.code.clone();
                outcome.status = TargetStatus::Failed;
                outcome.error = Some(e);
                push_event(
                    &mut self.events,
                    EventKind::TargetRejected,
                    &outcome.target_id,
                    &outcome.provider_id,
                    Some(code.as_str()),
                );
                self.finish_target(TargetPlan { outcome, request: None, has_adapter: true, ready: false });
            },
            Ok(caps) => {
                if !caps.provider_id.same(&self.request.targets[index].provider_id) {
                    outcome.status = TargetStatus::Failed;
                    outcome.error = Some(
                        DeliveryError::new(
                            DeliveryErrorClass::Terminal,
                            "provider.capability_identity_mismatch",
                            "adapter returned capabilities for a different provider",
                        ),
                    );
                    push_event(
                        &mut self.events,
                        EventKind::TargetRejected,
                        &outcome.target_id,
                        &outcome.provider_id,
                        Some("provider.capability_identity_mismatch"),
                    );
                    self.finish_target(TargetPlan { outcome, request: None, has_adapter: true, ready: false });
                    return;
                }
                push_event(
                    &mut self.events,
                    EventKind::CapabilitiesLoaded,
                    &outcome.target_id,
                    &outcome.provider_id,
                    None,
                );
                let target = &self.request.targets[index];
                let variant = &self.request.variants[variant_index];
                let provider_request = ProviderPublishRequest {
                    request_id: self.request_id.clone(),
                    idempotency: self.request.idempotency_scope(target),
                    target: target.clone(),
                    variant: variant.clone(),
                };
                let issues = caps.validate_variant(variant);
                if any_error(&issues) {
                    outcome.validation_issues = issues;
                    outcome.status = TargetStatus::Failed;
                    outcome.error = Some(
                        DeliveryError::new(
                            DeliveryErrorClass::InvalidRequest,
                            "target.preflight_failed",
                            "target failed capability or provider validation",
                        ),
                    );
                    push_event(
                        &mut self.events,
                        EventKind::TargetRejected,
                        &outcome.target_id,
                        &outcome.provider_id,
                        Some("target.preflight_failed"),
                    );
                    self.finish_target(
                        TargetPlan { outcome, request: Some(provider_request), has_adapter: true, ready: false },
                    );
                } else {
                    self.current = Some(outcome);
                    self.current_request = Some(provider_request);
                    self.phase = Phase::AwaitProviderValidation { index, issues };
                }
            },
        }
    }

    /// Takes the adapter's provider-native validation of the target under
    /// preflight and finishes the target: it is ready when no capability or
    /// provider issue blocks it. Outside that stage nothing changes.
    pub fn supply_provider_validation(&mut self, result: Result<Vec<ValidationIssue>, DeliveryError>)
        requires
            old(self).wf(),
        ensures
            Self::validation_step(*old(self), result, *final(self)),
    {
        let mut issues = match &self.phase {
            Phase::AwaitProviderValidation { issues, .. } => issues.clone(),
            _ => {
                return;
            },
        };
        let ghost pending = self.pending_issues();
        assert(issue_views(issues@) =~= pending);
        let mut outcome = match self.current.take() {
            Some(o) => o,
            None => {
                return;
            },
        };
        let provider_request = self.current_request.take();
        match result {
            Err(e) => {
                let code = e.code.clone();
                outcome.status = TargetStatus::Failed;
                outcome.error = Some(e);
                push_event(
                    &mut self.events,
                    EventKind::TargetRejected,
                    &outcome.target_id,
                    &outcome.provider_id,
                    Some(code.as_str()),
                );
                self.finish_target(TargetPlan { outcome, request: provider_request, has_adapter: true, ready: false });
            },
            Ok(provider_issues) => {
                let mut provider_issues = provider_issues;
                let ghost given = issue_views(provider_issues@);
                issues.append(&mut provider_issues);
                assert(issue_views(issues@) =~= pending + given);
                let rejected = any_error(&issues);
                outcome.validation_issues = issues;
                if rejected {
                    outcome.status = TargetStatus::Failed;
                    outcome.error = Some(
                        DeliveryError::new(
                            DeliveryErrorClass::InvalidRequest,
                            "target.preflight_failed",
                            "target failed capability or provider validation",
                        ),
                    );
                    push_event(
                        &mut self.events,
                        EventKind::TargetRejected,
                        &outcome.target_id,
                        &outcome.provider_id,
                        Some("target.preflight_failed"),
                    );
                    self.finish_target(TargetPlan { outcome, request: provider_request, has_adapter: true, ready: false });
                } else {
                    push_event(
                        &mut self.events,
                        EventKind::TargetValidated,
                        &outcome.target_id,
                        &outcome.provider_id,
                        None,
                    );
                    self.finish_target(TargetPlan { outcome, request: provider_request, has_adapter: true, ready: true });
                }
            },
        }
    }

    /// Dispatch of one plan up to the publish call: plans that failed preflight
    /// are left alone, a blocking policy skips every other plan, and otherwise
    /// the plan's publish is asked for.
    pub fn dispatch_plan(&mut self)
        requires
            old(self).wf(),
            old(self).stage() matches Stage::Dispatch(j) && j < old(self).publish_request().targets@.len(),
        ensures
            Self::dispatch_step(*old(self), *final(self)),
    {
        let j = match &self.phase {
            Phase::Dispatch { next } => *next,
            _ => {
                return;
            },
        };
        let n = self.plans.len();
        assert(j < n);
        let ghost old_events = self.events@;
        if !self.plans[j].ready {
            self.phase = Phase::Dispatch { next: j + 1 };
            assert(self.events@.subrange(0, old_events.len() as int) =~= old_events);
            return;
        }
        if self.block_all {
            let mut plan = self.plans.remove(j);
            let ghost old_plans = old(self).plans@;
            plan.outcome.status = TargetStatus::Skipped;
            plan.outcome.error = Some(
                DeliveryError::new(
                    DeliveryErrorClass::InvalidRequest,
                    "dispatch.require_all_valid_preflight_failed",
                    "dispatch policy prevented external actions because another target failed preflight",
                ),
            );
            push_event(
                &mut self.events,
                EventKind::DispatchSkipped,
                &plan.outcome.target_id,
                &plan.outcome.provider_id,
                Some("dispatch.require_all_valid_preflight_failed"),
            );
            self.plans.insert(j, plan);
            self.phase = Phase::Dispatch { next: j + 1 };
            assert(self.plans@ =~= old_plans.update(j as int, self.plans@[j as int]));
            assert(self.events@.subrange(0, old_events.len() as int) =~= old_events);
            assert(self.plans_follow_targets());
            return;
        }
        push_event(
            &mut self.events,
            EventKind::DispatchStarted,
            &self.plans[j].outcome.target_id,
            &self.plans[j].outcome.provider_id,
            None,
        );
        self.phase = Phase::AwaitPublish { index: j };
        assert(self.events@.subrange(0, old_events.len() as int) =~= old_events);
    }

    /// Takes the adapter's publish result for the dispatched target. Outside
    /// that stage nothing changes.
    pub fn supply_publish(&mut self, result: Result<ProviderReceipt, DeliveryError>)
        requires
            old(self).wf(),
        ensures
            Self::publish_step(*old(self), result, *final(self)),
    {
        let j = match &self.phase {
            Phase::AwaitPublish { index } => *index,
            _ => {
                return;
            },
        };
        let n = self.plans.len();
        assert(j < n);
        let ghost old_plans = self.plans@;
        let mut plan = self.plans.remove(j);
        match result {
            Ok(receipt) => {
                plan.outcome.status = TargetStatus::Published;
                plan.outcome.receipt = Some(receipt);
                push_event(
                    &mut self.events,
                    EventKind::Published,
                    &plan.outcome.target_id,
                    &plan.outcome.provider_id,
                    None,
                );
            },
            Err(e) => {
                let code = e.code.clone();
                plan.outcome.status = TargetStatus::Failed;
                plan.outcome.error = Some(e);
                push_event(
                    &mut self.events,
                    EventKind::DeliveryFailed,
                    &plan.outcome.target_id,
                    &plan.outcome.provider_id,
                    Some(code.as_str()),
                );
            },
        }
        self.plans.insert(j, plan);
        self.phase = Phase::Dispatch { next: j + 1 };
        assert(self.plans@ =~= old_plans.update(j as int, self.plans@[j as int]));
        assert(self.plans_follow_targets());
    }

    proof fn lemma_same_dispatch(a: Self, b: Self, n: int)
        requires
            a.request == b.request,
            a.plans == b.plans,
            a.ready_after_preflight == b.ready_after_preflight,
            a.block_all == b.block_all,
            a.events == b.events,
            a.request_id == b.request_id,
            a.dispatch_wf(n),
            a.plans_follow_targets(),
            a.requests_follow_targets(),
        ensures
            b.dispatch_wf(n),
            b.plans_follow_targets(),
            b.requests_follow_targets(),
    {
    }

    /// Work left before the next outside call or the end.
    closed spec fn work_left(self) -> int {
        let n = self.request.targets@.len() as int;
        match self.stage() {
            Stage::Preflight(i) => 2 * n - i + 3,
            Stage::Dispatch(j) => n - j + 1,
            _ => 0,
        }
    }

    /// Runs the executor's own decisions until it needs outside work or is
    /// done, and says which. The answer depends on the stage alone, so asking
    /// twice without supplying a result gives the same action.
    ///
    /// Validate mode never asks for a publish, and neither does a publish
    /// operation whose policy requires every target to pass preflight when
    /// one did not; only a target that passed preflight is ever published.
    pub fn next_action<A>(&mut self, registry: &ProviderRegistry<A>) -> (r: ExecutionAction)
        requires
            old(self).wf(),
            registry.wf(),
        ensures
            final(self).wf(),
            final(self).mode() == old(self).mode(),
            final(self).publish_request() == old(self).publish_request(),
            final(self).request_id() == old(self).request_id(),
            old(self).events().len() <= final(self).events().len(),
            final(self).events().subrange(0, old(self).events().len() as int) == old(self).events(),
            announces(r, final(self).stage()),
            r is Publish ==> final(self).mode() == ExecutionMode::Publish,
            r matches ExecutionAction::Publish { target_index } ==> {
                &&& target_index < final(self).publish_request().targets@.len()
                &&& final(self).ready_after_preflight().len() == final(self).publish_request().targets@.len()
                &&& final(self).ready_after_preflight()[target_index as int]
                &&& !final(self).blocked()
                &&& !(final(self).publish_request().dispatch_policy == DispatchPolicy::RequireAllValid
                    && exists|k: int| 0 <= k < final(self).ready_after_preflight().len()
                    && !final(self).ready_after_preflight()[k])
            },
            match old(self).stage() {
                Stage::AwaitCapabilities(i) => *final(self) == *old(self) && (r matches ExecutionAction::DiscoverCapabilities { target_index } && target_index == i),
                Stage::AwaitProviderValidation(i) => *final(self) == *old(self) && (r matches ExecutionAction::ValidateWithProvider { target_index } && target_index == i),
                Stage::AwaitPublish(i) => *final(self) == *old(self) && (r matches ExecutionAction::Publish { target_index } && target_index == i),
                Stage::Done => *final(self) == *old(self) && r == ExecutionAction::Finished,
                _ => true,
            },
            old(self).stage() matches Stage::Dispatch(j) ==> {
                &&& (r is Publish || r is Finished)
                &&& (r matches ExecutionAction::Publish { target_index } ==> j <= target_index)
            },
            final(self).waiting(),
            exists|path: Seq<Execution>| Self::runs_along(path, registry@) && path[0] == *old(self)
                && path.last() == *final(self),
    {
        let ghost path: Seq<Execution> = seq![*self];
        loop
            invariant
                Self::runs_along(path, registry@),
                path[0] == *old(self),
                path.last() == *self,
                !(old(self).stage() is Preflight || old(self).stage() is Dispatch) ==> *self == *old(self),
                old(self).stage() matches Stage::Dispatch(j0) ==> match self.stage() {
                    Stage::Dispatch(j2) => j0 <= j2,
                    Stage::AwaitPublish(i) => j0 <= i,
                    Stage::Done => true,
                    _ => false,
                },
                self.wf(),
                registry.wf(),
                self.mode() == old(self).mode(),
                self.publish_request() == old(self).publish_request(),
                self.request_id() == old(self).request_id(),
                old(self).events().len() <= self.events().len(),
                self.events().subrange(0, old(self).events().len() as int) == old(self).events(),
            decreases self.work_left(),
        {
            let ghost before = self.events@;
            let ghost left = self.work_left();
            let ghost prev = *self;
            match &self.phase {
                Phase::Preflight { next } => {
                    if *next < self.request.targets.len() {
                        self.preflight_target(registry);
                        assert(self.wf());
                    } else {
                        self.end_preflight();
                        assert(self.wf());
                    }
                },
                Phase::AwaitCapabilities { index, .. } => {
                    return ExecutionAction::DiscoverCapabilities { target_index: *index };
                },
                Phase::AwaitProviderValidation { index, .. } => {
                    return ExecutionAction::ValidateWithProvider { target_index: *index };
                },
                Phase::Dispatch { next } => {
                    let nx = *next;
                    if nx < self.request.targets.len() {
                        self.dispatch_plan();
                        assert(self.wf());
                    } else {
                        assert(self.dispatch_wf(self.request.targets@.len() as int));
                        let ghost before = *self;
                        self.phase = Phase::Done;
                        proof {
                            Self::lemma_same_dispatch(before, *self, self.request.targets@.len() as int);
                        }
                        assert(self.wf());
                    }
                },
                Phase::AwaitPublish { index } => {
                    return ExecutionAction::Publish { target_index: *index };
                },
                Phase::Done => {
                    return ExecutionAction::Finished;
                },
            }
            assert(self.events@.subrange(0, before.len() as int) == before);
            assert(self.events@.subrange(0, old(self).events@.len() as int) =~= old(self).events@);
            proof {
                reveal(Execution::internal_step);
                assert(Self::internal_step(prev, registry@, *self));
                let p0 = path;
                path = path.push(*self);
                assert(path.drop_last() =~= p0);
                assert forall|k: int| 0 <= k < path.len() - 1 implies Self::internal_step(
                    #[trigger] path[k],
                    registry@,
                    path[k + 1],
                ) by {
                    if k < path.len() - 2 {
                        assert(path[k] == p0[k] && path[k + 1] == p0[k + 1]);
                    }
                }
            }
        }
    }

    /// The finished report: outcomes in request target order and the events
    /// in the order they happened.
    ///
    /// In validate mode a target is validated exactly when it passed preflight
    /// and failed otherwise. In publish mode a target that failed preflight
    /// stays failed; when the policy requires every target to pass and one did
    /// not, every other target is skipped with a typed error and nothing is
    /// published; otherwise every target that passed preflight was published
    /// or failed at dispatch.
    pub fn into_report(self) -> (r: ExecutionReport)
        requires
            self.wf(),
            self.stage() == Stage::Done,
        ensures
            r.request_id == self.request_id(),
            r.mode == self.mode(),
            r.dispatch_policy == self.publish_request().dispatch_policy,
            r.events@ == self.events(),
            Self::reports(self, r),
            numbered(r.events@),
            outcomes_follow_request(r, self.publish_request()),
            forall|k: int| 0 <= k < r.outcomes@.len() ==> outcome_consistent(#[trigger] r.outcomes@[k]),
            forall|k: int| 0 <= k < r.outcomes@.len() ==> outcome_fits_mode(#[trigger] r.outcomes@[k], r.mode),
            r.mode == ExecutionMode::Validate ==> preflight_events_only(r.events@),
            r.outcomes@.len() == self.publish_request().targets@.len(),
            forall|k: int|
                0 <= k < r.outcomes@.len() ==> (#[trigger] r.outcomes@[k]) == self.plans()[k].outcome,
            forall|k: int|
                0 <= k < r.outcomes@.len() ==> (#[trigger] r.outcomes@[k]).target_id
                    == self.publish_request().targets@[k].id && r.outcomes@[k].provider_id
                    == self.publish_request().targets@[k].provider_id
                    && r.outcomes@[k].selected_variant_id == selected_variant_for(self.publish_request(), k),
            r.mode == ExecutionMode::Validate ==> forall|k: int|
                0 <= k < r.outcomes@.len() ==> ((#[trigger] r.outcomes@[k]).status
                    == TargetStatus::Validated || r.outcomes@[k].status == TargetStatus::Failed),
            r.mode == ExecutionMode::Publish ==> forall|k: int|
                0 <= k < r.outcomes@.len() ==> {
                    let st = (#[trigger] r.outcomes@[k]).status;
                    &&& !self.ready_after_preflight()[k] ==> st == TargetStatus::Failed
                    &&& self.ready_after_preflight()[k] && self.blocked() ==> (st
                        == TargetStatus::Skipped && (r.outcomes@[k].error matches Some(e) && blocked_error(e)))
                    &&& self.ready_after_preflight()[k] && !self.blocked() ==> (st
                        == TargetStatus::Published || st == TargetStatus::Failed)
                },
            r.mode == ExecutionMode::Publish ==> self.blocked() == (
            self.publish_request().dispatch_policy == DispatchPolicy::RequireAllValid && exists|
                k: int,
            |
                0 <= k < self.ready_after_preflight().len() && !self.ready_after_preflight()[k]),
    {
        proof {
            assert(self.phase is Done);
            let n = self.request.targets@.len() as int;
            let ready = self.ready_after_preflight();
            if self.mode == ExecutionMode::Publish {
                assert(self.dispatch_wf(n));
                assert(self.block_all ==> self.request.dispatch_policy == DispatchPolicy::RequireAllValid);
                if exists|k: int| 0 <= k < n && !ready[k] {
                    let k = choose|k: int| 0 <= k < n && !ready[k];
                    assert(0 <= k < ready.len() && !ready[k]);
                }
                if exists|k: int| 0 <= k < ready.len() && !ready[k] {
                    let k = choose|k: int| 0 <= k < ready.len() && !ready[k];
                    assert(0 <= k < n && !ready[k]);
                }
            }
        }
        let ghost plans = self.plans@;
        let mut rest = self.plans;
        let mut outcomes: Vec<TargetOutcome> = Vec::new();
        while rest.len() > 0
            invariant
                outcomes@.len() + rest@.len() == plans.len(),
                rest@ == plans.skip(outcomes@.len() as int),
                forall|k: int| 0 <= k < outcomes@.len() ==> (#[trigger] outcomes@[k]) == plans[k].outcome,
            decreases rest.len(),
        {
            let ghost i = outcomes@.len();
            let plan = rest.remove(0);
            assert(plan == plans[i as int]);
            outcomes.push(plan.outcome);
            assert(rest@ =~= plans.skip(outcomes@.len() as int));
        }
        ExecutionReport {
            request_id: self.request_id,
            mode: self.mode,
            dispatch_policy: self.request.dispatch_policy,
            outcomes,
            events: self.events,
        }
    }

    /// Moves to dispatch (publish mode) or to the end (validate mode) once
    /// every target went through preflight.
    pub fn end_preflight(&mut self)
        requires
            old(self).wf(),
            old(self).stage() == Stage::Preflight(old(self).publish_request().targets@.len() as int),
        ensures
            Self::end_preflight_step(*old(self), *final(self)),
    {
        let n = self.plans.len();
        let ghost ready = self.plans@.map_values(|p: TargetPlan| p.ready);
        self.ready_after_preflight = Ghost(ready);
        if self.mode == ExecutionMode::Publish {
            let mut any_rejected = false;
            let mut k: usize = 0;
            while k < n
                invariant
                    n == self.plans@.len(),
                    ready == self.plans@.map_values(|p: TargetPlan| p.ready),
                    0 <= k <= n,
                    any_rejected == exists|j: int| 0 <= j < k && !ready[j],
                decreases n - k,
            {
                assert(ready[k as int] == self.plans@[k as int].ready);
                if !self.plans[k].ready {
                    any_rejected = true;
                }
                k = k + 1;
            }
            assert((exists|j: int| 0 <= j < n && !ready[j]) == (exists|j: int|
                0 <= j < n && !(#[trigger] self.plans@[j]).ready)) by {
                if exists|j: int| 0 <= j < n && !ready[j] {
                    let j = choose|j: int| 0 <= j < n && !ready[j];
                    assert(!self.plans@[j].ready);
                }
                if exists|j: int| 0 <= j < n && !(#[trigger] self.plans@[j]).ready {
                    let j = choose|j: int| 0 <= j < n && !(#[trigger] self.plans@[j]).ready;
                    assert(!ready[j]);
                }
            }
            self.block_all = self.request.dispatch_policy == DispatchPolicy::RequireAllValid
                && any_rejected;
            self.phase = Phase::Dispatch { next: 0 };
            proof {
                assert(self.plans@ == old(self).plans@);
            }
        } else {
            self.phase = Phase::Done;
        }
        assert(self.block_all == (old(self).mode() == ExecutionMode::Publish
            && self.request.dispatch_policy == DispatchPolicy::RequireAllValid
            && exists|k: int| 0 <= k < self.plans@.len() && !(#[trigger] self.plans@[k]).ready));
    }
}


/// Issues for one capability-context option key: outside the provider
/// namespace, then secret-bearing.
pub open spec fn context_key_issues(key: Seq<char>, provider: Seq<char>) -> Seq<crate::validation::IssueView> {
    crate::capabilities::issue_if(
        !crate::ids::scoped_to(key, provider),
        crate::validation::error_issue(
            "target.option.namespace_mismatch"@,
            "/payload/options/"@ + key,
            "provider options must use the requested provider namespace"@,
        ),
    ) + crate::capabilities::issue_if(
        crate::ids::secret_bearing(key),
        crate::validation::error_issue(
            "extension.secret_prohibited"@,
            "/payload/options/"@ + key,
            "raw credentials and secret-bearing fields are prohibited in options"@,
        ),
    )
}

/// Issues for the options of a capability context, in key order.
pub open spec fn context_issues(e: Seq<(Seq<char>, serde_json::Value)>, provider: Seq<char>) -> Seq<
    crate::validation::IssueView,
>
    decreases e.len(),
{
    if e.len() == 0 {
        Seq::empty()
    } else {
        context_issues(e.drop_last(), provider) + context_key_issues(e.last().0, provider)
    }
}

/// Checks the options of a capability discovery context.
pub fn validate_capability_context(context: &ProviderTargetContext) -> (r: Vec<ValidationIssue>)
    ensures
        issue_views(r@) == context_issues(context.options@, context.provider_id@),
{
    let mut issues: Vec<ValidationIssue> = Vec::new();
    let options = &context.options;
    let mut i: usize = 0;
    while i < options.len()
        invariant
            0 <= i <= options@.len(),
            issue_views(issues@) == context_issues(options@.take(i as int), context.provider_id@),
        decreases options@.len() - i,
    {
        let key = options.key_at(i);
        let ghost before = issue_views(issues@);
        let mut path = owned("/payload/options/");
        crate::text::push_str(&mut path, key.as_str());
        if !key.is_scoped_to(&context.provider_id) {
            issues.push(
                ValidationIssue::error(
                    "target.option.namespace_mismatch",
                    path.as_str(),
                    "provider options must use the requested provider namespace",
                ),
            );
        }
        if key.looks_secret_bearing() {
            issues.push(
                ValidationIssue::error(
                    "extension.secret_prohibited",
                    path.as_str(),
                    "raw credentials and secret-bearing fields are prohibited in options",
                ),
            );
        }
        proof {
            let t = options@.take(i + 1);
            assert(t.drop_last() =~= options@.take(i as int));
            assert(t.last() == options@[i as int]);
            assert(issue_views(issues@) =~= before + context_key_issues(options@[i as int].0, context.provider_id@));
        }
        i = i + 1;
    }
    assert(options@.take(options@.len() as int) =~= options@);
    issues
}

/// Stateless executor over a registry of provider adapters. Long-term
/// idempotency and persistence belong to callers or provider adapters.
pub struct Executor<A> {
    registry: ProviderRegistry<A>,
}

impl<A> Executor<A> {
    pub closed spec fn registry_view(self) -> Seq<(Seq<char>, A)> {
        self.registry@
    }

    pub closed spec fn wf(self) -> bool {
        self.registry.wf()
    }

    /// Creates an executor from an immutable provider registry snapshot.
    pub fn new(registry: ProviderRegistry<A>) -> (r: Self)
        requires
            registry.wf(),
        ensures
            r.wf(),
            r.registry_view() == registry@,
    {
        Executor { registry }
    }

    /// The registry the executor dispatches to.
    pub fn registry(&self) -> (r: &ProviderRegistry<A>)
        requires
            self.wf(),
        ensures
            r.wf(),
            r@ == self.registry_view(),
    {
        &self.registry
    }

    /// Checks a capability discovery context before the adapter is asked:
    /// any option issue makes the request invalid, and the provider must be
    /// registered.
    pub fn prepare_capabilities(&self, context: &ProviderTargetContext) -> (r: Result<(), ExecutionFailure>)
        requires
            self.wf(),
        ensures
            ({
                let issues = context_issues(context.options@, context.provider_id@);
                if issues.len() > 0 {
                    r matches Err(ExecutionFailure::InvalidRequest { issues: found })
                        && issue_views(found@) == issues
                } else if !has_key(self.registry_view(), context.provider_id@) {
                    r matches Err(ExecutionFailure::ProviderNotFound(id)) && id == context.provider_id
                } else {
                    r is Ok
                }
            }),
    {
        let issues = validate_capability_context(context);
        if issues.len() > 0 {
            return Err(ExecutionFailure::InvalidRequest { issues });
        }
        if !self.registry.contains(&context.provider_id) {
            return Err(ExecutionFailure::ProviderNotFound(context.provider_id.clone()));
        }
        Ok(())
    }

    /// Starts a validate operation: preflight only, never a publish.
    pub fn validate(&self, request_id: RequestId, request: PublishRequest) -> (r: Result<Execution, ExecutionFailure>)
        ensures
            has_error(structure_issues(request)) ==> (r matches Err(ExecutionFailure::InvalidRequest { issues })
                && issue_views(issues@) == structure_issues(request)),
            !has_error(structure_issues(request)) ==> (r matches Ok(x) && x.wf() && x.mode() == ExecutionMode::Validate
                && x.publish_request() == request && x.request_id() == request_id
                && x.stage() == Stage::Preflight(0) && x.events().len() == 0),
    {
        Execution::start(request_id, request, ExecutionMode::Validate)
    }

    /// Starts a publish operation: preflight for every target, then dispatch
    /// according to the request's policy.
    pub fn publish(&self, request_id: RequestId, request: PublishRequest) -> (r: Result<Execution, ExecutionFailure>)
        ensures
            has_error(structure_issues(request)) ==> (r matches Err(ExecutionFailure::InvalidRequest { issues })
                && issue_views(issues@) == structure_issues(request)),
            !has_error(structure_issues(request)) ==> (r matches Ok(x) && x.wf() && x.mode() == ExecutionMode::Publish
                && x.publish_request() == request && x.request_id() == request_id
                && x.stage() == Stage::Preflight(0) && x.events().len() == 0),
    {
        Execution::start(request_id, request, ExecutionMode::Publish)
    }
}

/// Accepts an adapter's capability answer for a direct capabilities
/// operation: a failure becomes a discovery failure, and a snapshot for
/// another provider breaks the identity contract.
pub fn accept_capabilities(context: &ProviderTargetContext, result: Result<ProviderCapabilities, DeliveryError>) -> (r: Result<
    ProviderCapabilities,
    ExecutionFailure,
>)
    ensures
        match result {
            Err(e) => r matches Err(ExecutionFailure::CapabilityDiscovery(x)) && x == e,
            Ok(caps) => if caps.provider_id@ == context.provider_id@ {
                r matches Ok(c) && c == caps
            } else {
                r matches Err(ExecutionFailure::ProviderContract(id)) && id == context.provider_id
            },
        },
{
    match result {
        Err(e) => Err(ExecutionFailure::CapabilityDiscovery(e)),
        Ok(caps) => {
            if caps.provider_id.same(&context.provider_id) {
                Ok(caps)
            } else {
                Err(ExecutionFailure::ProviderContract(context.provider_id.clone()))
            }
        },
    }
}

/// The failure a target gets when a step it passed cannot be carried out,
/// such as an adapter that is no longer found.
pub fn invalid_execution_plan_error() -> (r: DeliveryError)
    ensures
        r.class == DeliveryErrorClass::Terminal,
        r.code@ == "runtime.invalid_execution_plan"@,
        r.message@ == "runtime could not dispatch a validated target"@,
        r.retry_after_seconds is None,
        r.details@.len() == 0,
{
    DeliveryError::new(
        DeliveryErrorClass::Terminal,
        "runtime.invalid_execution_plan",
        "runtime could not dispatch a validated target",
    )
}

/// Whether a protocol error is the safe rendering of a request-level failure:
/// its code, its message (a discovery failure names only the adapter's
/// stable code) and, for an invalid request, the issues.
pub open spec fn renders_failure(failure: ExecutionFailure, r: crate::protocol::ProtocolError) -> bool {
    match failure {
        ExecutionFailure::InvalidRequest { issues } => r.code
            == crate::protocol::ProtocolErrorCode::InvalidRequest && r.issues == issues
            && r.message@ == "request failed deterministic structural validation"@,
        ExecutionFailure::ProviderNotFound(_) => r.code
            == crate::protocol::ProtocolErrorCode::ProviderNotFound && r.issues@.len() == 0
            && r.message@ == "requested provider adapter is not registered"@,
        ExecutionFailure::CapabilityDiscovery(e) => r.code
            == crate::protocol::ProtocolErrorCode::CapabilityDiscoveryFailed && r.issues@.len() == 0
            && r.message@ == "capability discovery failed: "@ + e.code@,
        ExecutionFailure::ProviderContract(_) => r.code
            == crate::protocol::ProtocolErrorCode::Internal && r.issues@.len() == 0
            && r.message@ == "provider adapter violated the capability identity contract"@,
    }
}

/// The safe protocol error for a request-level failure.
pub fn protocol_error(failure: ExecutionFailure) -> (r: crate::protocol::ProtocolError)
    ensures
        renders_failure(failure, r),
{
    match failure {
        ExecutionFailure::InvalidRequest { issues } => crate::protocol::ProtocolError::invalid_request(issues),
        ExecutionFailure::ProviderNotFound(_) => crate::protocol::ProtocolError::new(
            crate::protocol::ProtocolErrorCode::ProviderNotFound,
            "requested provider adapter is not registered",
        ),
        ExecutionFailure::CapabilityDiscovery(error) => {
            let mut message = owned("capability discovery failed: ");
            crate::text::push_str(&mut message, error.code.as_str());
            crate::protocol::ProtocolError::new(
                crate::protocol::ProtocolErrorCode::CapabilityDiscoveryFailed,
                message.as_str(),
            )
        },
        ExecutionFailure::ProviderContract(_) => crate::protocol::ProtocolError::new(
            crate::protocol::ProtocolErrorCode::Internal,
            "provider adapter violated the capability identity contract",
        ),
    }
}

/// Protocol-facing service around an executor.
pub struct ExecutionService<A> {
    executor: Executor<A>,
}

impl<A> ExecutionService<A> {
    pub closed spec fn executor_view(self) -> Executor<A> {
        self.executor
    }

    /// Creates a service.
    pub fn new(executor: Executor<A>) -> (r: Self)
        ensures
            r.executor_view() == executor,
    {
        ExecutionService { executor }
    }

    /// The executor behind the service.
    pub fn executor(&self) -> (r: &Executor<A>)
        ensures
            *r == self.executor_view(),
    {
        &self.executor
    }

    /// Rejects an envelope of another protocol version before anything is
    /// executed, answering with the request's own identifier.
    pub fn check_version(request: &crate::protocol::RequestEnvelope) -> (r: Option<crate::protocol::ResponseEnvelope>)
        ensures
            request.protocol_version@ == crate::protocol::PROTOCOL_VERSION@ ==> r is None,
            request.protocol_version@ != crate::protocol::PROTOCOL_VERSION@ ==> (r matches Some(resp)
                && resp.request_id == request.request_id
                && resp.protocol_version@ == crate::protocol::PROTOCOL_VERSION@
                && (resp.body matches crate::protocol::ResponseBody::Error { error }
                && error.code == crate::protocol::ProtocolErrorCode::UnsupportedProtocol
                && error.issues@.len() == 0
                && error.message@ == "runtime supports only prism-execution.v1"@)),
    {
        if crate::text::chars_eq(
                &crate::text::chars_of(request.protocol_version.as_str()),
                &crate::text::chars_of(crate::protocol::PROTOCOL_VERSION),
            ) {
            None
        } else {
            Some(
                crate::protocol::ResponseEnvelope::error(
                    request.request_id.clone(),
                    crate::protocol::ProtocolError::new(
                        crate::protocol::ProtocolErrorCode::UnsupportedProtocol,
                        "runtime supports only prism-execution.v1",
                    ),
                ),
            )
        }
    }

    /// The response for an operation's result: the result itself, or the
    /// safe protocol error of its failure, under the request's identifier.
    pub fn respond(request_id: RequestId, result: Result<crate::protocol::ExecutionResult, ExecutionFailure>) -> (r: crate::protocol::ResponseEnvelope)
        ensures
            r.request_id == request_id,
            r.protocol_version@ == crate::protocol::PROTOCOL_VERSION@,
            match result {
                Ok(x) => r.body == (crate::protocol::ResponseBody::Success { result: x }),
                Err(f) => r.body matches crate::protocol::ResponseBody::Error { error } && renders_failure(
                    f,
                    error,
                ),
            },
    {
        match result {
            Ok(x) => crate::protocol::ResponseEnvelope::ok(request_id, x),
            Err(failure) => crate::protocol::ResponseEnvelope::error(request_id, protocol_error(failure)),
        }
    }
}

} // verus!
