//! The state of a scriptable, no-network fake provider and the decisions of
//! the reusable adapter conformance probe.

use std::collections::VecDeque;

use vstd::prelude::*;

use crate::capabilities::{
    AltTextCapabilities, MediaCapabilities, ProviderCapabilities, TextCapabilities, same_snapshot,
};
use crate::content::{Extensions, MediaKind, PublicationFormat};
use crate::ids::{ProviderId, RequestId, TargetId, VariantId};
use crate::provider::{ProviderPublishRequest, ProviderTargetContext};
use crate::request::scope_string;
use crate::result::{DeliveryError, DeliveryErrorClass, ProviderReceipt, same_error};
use crate::text::{owned, push_str};
use crate::validation::ValidationIssue;

verus! {

/// Snapshot of one fake publish call without content or credentials.
#[derive(Debug, PartialEq, Eq)]
pub struct RecordedPublish {
    /// Runtime request correlation identifier.
    pub request_id: RequestId,
    /// Target-scoped idempotency material.
    pub idempotency_key: String,
    /// Target identifier.
    pub target_id: TargetId,
    /// Selected variant identifier.
    pub variant_id: VariantId,
}

impl Clone for RecordedPublish {
    fn clone(&self) -> (r: Self)
        ensures
            r == *self,
    {
        RecordedPublish {
            request_id: self.request_id.clone(),
            idempotency_key: self.idempotency_key.clone(),
            target_id: self.target_id.clone(),
            variant_id: self.variant_id.clone(),
        }
    }
}

/// Whether a record is the snapshot of a provider request.
pub open spec fn records(r: RecordedPublish, request: ProviderPublishRequest) -> bool {
    &&& r.request_id == request.request_id
    &&& r.idempotency_key@ == scope_string(request.idempotency.root@, request.idempotency.target_id@)
    &&& r.target_id == request.target.id
    &&& r.variant_id == request.variant.id
}

impl RecordedPublish {
    /// The snapshot of a provider request: its identifiers and idempotency
    /// material, nothing of its content or credential.
    pub fn of(request: &ProviderPublishRequest) -> (r: Self)
        ensures
            records(r, *request),
    {
        RecordedPublish {
            request_id: request.request_id.clone(),
            idempotency_key: request.idempotency.stable_string(),
            target_id: request.target.id.clone(),
            variant_id: request.variant.id.clone(),
        }
    }
}

/// Testkit state access failure.
#[derive(Clone, Copy, Debug, PartialEq, Eq)]
pub struct FakeProviderStateError;

impl FakeProviderStateError {
    /// The failure's text.
    pub fn message(&self) -> (r: &'static str)
        ensures
            r@ == "fake provider state is unavailable"@,
    {
        "fake provider state is unavailable"
    }

    /// What an adapter call answers when the fake's state is unavailable.
    pub fn delivery_error(&self) -> (r: DeliveryError)
        ensures
            r.class == DeliveryErrorClass::Terminal,
            r.code@ == "testkit.state_unavailable"@,
            r.message@ == "fake provider state is unavailable"@,
            r.retry_after_seconds is None,
            r.details@.len() == 0,
    {
        DeliveryError::new(
            DeliveryErrorClass::Terminal,
            "testkit.state_unavailable",
            "fake provider state is unavailable",
        )
    }
}

/// The external identifier of the receipt a fake provider answers when no
/// result was scripted: `fake:{provider}:{root}:{target}`.
pub open spec fn fake_external_id(provider: Seq<char>, request: ProviderPublishRequest) -> Seq<char> {
    "fake:"@ + provider + ":"@ + scope_string(request.idempotency.root@, request.idempotency.target_id@)
}

/// The mutable state of a fake provider: scripted answers and the publish
/// calls it has seen.
pub struct FakeProviderState {
    provider_id: ProviderId,
    capabilities: ProviderCapabilities,
    validation_issues: Vec<ValidationIssue>,
    validation_error: Option<DeliveryError>,
    capability_error: Option<DeliveryError>,
    publish_results: VecDeque<Result<ProviderReceipt, DeliveryError>>,
    recorded: Vec<RecordedPublish>,
    enqueued: Ghost<Seq<Result<ProviderReceipt, DeliveryError>>>,
    answered: Ghost<Seq<Result<ProviderReceipt, DeliveryError>>>,
}

/// A copy of a list of issues.
fn copy_issues(v: &Vec<ValidationIssue>) -> (r: Vec<ValidationIssue>)
    ensures
        r@ == v@,
{
    let mut r: Vec<ValidationIssue> = Vec::new();
    let mut i: usize = 0;
    while i < v.len()
        invariant
            i <= v.len(),
            r@ == v@.subrange(0, i as int),
        decreases v.len() - i,
    {
        r.push(v[i].clone());
        i = i + 1;
    }
    assert(r@ =~= v@);
    r
}

impl FakeProviderState {
    /// The adapter identity.
    pub closed spec fn adapter_id(self) -> ProviderId {
        self.provider_id
    }

    /// The capability snapshot the fake reports.
    pub closed spec fn snapshot(self) -> ProviderCapabilities {
        self.capabilities
    }

    /// The provider-native validation issues the fake reports.
    pub closed spec fn issues(self) -> Seq<ValidationIssue> {
        self.validation_issues@
    }

    /// The configured provider-native validation failure.
    pub closed spec fn validation_failure(self) -> Option<DeliveryError> {
        self.validation_error
    }

    /// The configured capability discovery failure.
    pub closed spec fn capability_failure(self) -> Option<DeliveryError> {
        self.capability_error
    }

    /// The scripted publish results, first to be used first.
    pub closed spec fn scripted(self) -> Seq<Result<ProviderReceipt, DeliveryError>> {
        self.publish_results@
    }

    /// Every publish result ever enqueued, in enqueue order.
    pub closed spec fn enqueued(self) -> Seq<Result<ProviderReceipt, DeliveryError>> {
        self.enqueued@
    }

    /// The scripted results that publish calls have answered, in call order.
    pub closed spec fn scripted_answers(self) -> Seq<Result<ProviderReceipt, DeliveryError>> {
        self.answered@
    }

    /// Whether the answered scripted results, followed by those still
    /// waiting, are the results ever enqueued.
    pub open spec fn queue_wf(self) -> bool {
        self.scripted_answers() + self.scripted() == self.enqueued()
    }

    /// The publish calls seen so far, in call order.
    pub closed spec fn recorded(self) -> Seq<RecordedPublish> {
        self.recorded@
    }

    /// A fresh fake. The snapshot's provider identifier is set to the
    /// adapter's, so a fixture cannot test a mismatched snapshot by accident.
    pub fn new(provider_id: ProviderId, capabilities: ProviderCapabilities) -> (r: Self)
        ensures
            r.adapter_id() == provider_id,
            same_snapshot(r.snapshot(), (ProviderCapabilities { provider_id, ..capabilities })),
            r.issues().len() == 0,
            r.validation_failure() is None,
            r.capability_failure() is None,
            r.scripted().len() == 0,
            r.recorded().len() == 0,
            r.enqueued().len() == 0,
            r.scripted_answers().len() == 0,
            r.queue_wf(),
    {
        let mut capabilities = capabilities;
        capabilities.provider_id = provider_id.clone();
        FakeProviderState {
            provider_id,
            capabilities,
            validation_issues: Vec::new(),
            validation_error: None,
            capability_error: None,
            publish_results: VecDeque::new(),
            recorded: Vec::new(),
            enqueued: Ghost(Seq::empty()),
            answered: Ghost(Seq::empty()),
        }
    }

    /// The adapter identity.
    pub fn provider_id(&self) -> (r: &ProviderId)
        ensures
            *r == self.adapter_id(),
    {
        &self.provider_id
    }

    /// Replaces the provider-native validation issues.
    pub fn set_validation_issues(&mut self, issues: Vec<ValidationIssue>)
        ensures
            final(self).issues() == issues@,
            final(self).adapter_id() == old(self).adapter_id(),
            final(self).snapshot() == old(self).snapshot(),
            final(self).validation_failure() == old(self).validation_failure(),
            final(self).capability_failure() == old(self).capability_failure(),
            final(self).scripted() == old(self).scripted(),
            final(self).recorded() == old(self).recorded(),
            final(self).enqueued() == old(self).enqueued(),
            final(self).scripted_answers() == old(self).scripted_answers(),
    {
        self.validation_issues = issues;
    }

    /// Configures, or clears, a capability discovery failure.
    pub fn set_capability_error(&mut self, error: Option<DeliveryError>)
        ensures
            final(self).capability_failure() == error,
            final(self).adapter_id() == old(self).adapter_id(),
            final(self).snapshot() == old(self).snapshot(),
            final(self).issues() == old(self).issues(),
            final(self).validation_failure() == old(self).validation_failure(),
            final(self).scripted() == old(self).scripted(),
            final(self).recorded() == old(self).recorded(),
            final(self).enqueued() == old(self).enqueued(),
            final(self).scripted_answers() == old(self).scripted_answers(),
    {
        self.capability_error = error;
    }

    /// Configures, or clears, a provider-native validation failure.
    pub fn set_validation_error(&mut self, error: Option<DeliveryError>)
        ensures
            final(self).validation_failure() == error,
            final(self).adapter_id() == old(self).adapter_id(),
            final(self).snapshot() == old(self).snapshot(),
            final(self).issues() == old(self).issues(),
            final(self).capability_failure() == old(self).capability_failure(),
            final(self).scripted() == old(self).scripted(),
            final(self).recorded() == old(self).recorded(),
            final(self).enqueued() == old(self).enqueued(),
            final(self).scripted_answers() == old(self).scripted_answers(),
    {
        self.validation_error = error;
    }

    /// Adds one scripted publish result after those already scripted.
    pub fn enqueue_publish_result(&mut self, result: Result<ProviderReceipt, DeliveryError>)
        ensures
            final(self).scripted() == old(self).scripted().push(result),
            final(self).adapter_id() == old(self).adapter_id(),
            final(self).snapshot() == old(self).snapshot(),
            final(self).issues() == old(self).issues(),
            final(self).validation_failure() == old(self).validation_failure(),
            final(self).capability_failure() == old(self).capability_failure(),
            final(self).recorded() == old(self).recorded(),
            final(self).enqueued() == old(self).enqueued().push(result),
            final(self).scripted_answers() == old(self).scripted_answers(),
            old(self).queue_wf() ==> final(self).queue_wf(),
    {
        self.publish_results.push_back(result);
        proof {
            self.enqueued = Ghost(self.enqueued@.push(result));
            assert(old(self).queue_wf() ==> self.answered@ + self.publish_results@ =~= self.enqueued@);
        }
    }

    /// The publish calls seen so far, in call order.
    pub fn recorded_publishes(&self) -> (r: Vec<RecordedPublish>)
        ensures
            r@ == self.recorded(),
    {
        let mut r: Vec<RecordedPublish> = Vec::new();
        let mut i: usize = 0;
        while i < self.recorded.len()
            invariant
                i <= self.recorded.len(),
                r@ == self.recorded@.subrange(0, i as int),
            decreases self.recorded.len() - i,
        {
            r.push(self.recorded[i].clone());
            i = i + 1;
        }
        assert(r@ =~= self.recorded@);
        r
    }

    /// How many publish calls crossed the fake adapter boundary.
    pub fn publish_count(&self) -> (r: usize)
        ensures
            r == self.recorded().len(),
    {
        self.recorded.len()
    }

    /// Capability discovery: the configured failure, or else the snapshot.
    pub fn capabilities(&self, _target: &ProviderTargetContext) -> (r: Result<ProviderCapabilities, DeliveryError>)
        ensures
            match self.capability_failure() {
                Some(e) => r matches Err(x) && same_error(x, e),
                None => r matches Ok(c) && same_snapshot(c, self.snapshot()),
            },
    {
        match &self.capability_error {
            Some(e) => Err(e.clone()),
            None => Ok(self.capabilities.clone()),
        }
    }

    /// Provider-native validation: the configured failure, or else the
    /// configured issues.
    pub fn validate_publish(&self, _request: &ProviderPublishRequest) -> (r: Result<Vec<ValidationIssue>, DeliveryError>)
        ensures
            match self.validation_failure() {
                Some(e) => r matches Err(x) && same_error(x, e),
                None => r matches Ok(issues) && issues@ == self.issues(),
            },
    {
        match &self.validation_error {
            Some(e) => Err(e.clone()),
            None => Ok(copy_issues(&self.validation_issues)),
        }
    }

    /// Publishing: records the call, then answers the first scripted result,
    /// or, when none is left, a receipt whose identifier names the provider
    /// and the idempotency material.
    pub fn publish(&mut self, request: &ProviderPublishRequest) -> (r: Result<ProviderReceipt, DeliveryError>)
        ensures
            final(self).recorded().len() == old(self).recorded().len() + 1,
            final(self).recorded().drop_last() == old(self).recorded(),
            records(final(self).recorded().last(), *request),
            old(self).scripted().len() > 0 ==> {
                &&& r == old(self).scripted()[0]
                &&& final(self).scripted() == old(self).scripted().drop_first()
                &&& final(self).scripted_answers() == old(self).scripted_answers().push(r)
            },
            old(self).scripted().len() == 0 ==> final(self).scripted_answers() == old(self).scripted_answers(),
            final(self).enqueued() == old(self).enqueued(),
            old(self).queue_wf() ==> final(self).queue_wf(),
            old(self).scripted().len() == 0 ==> {
                &&& r matches Ok(receipt)
                &&& receipt.external_id@ == fake_external_id(old(self).adapter_id()@, *request)
                &&& receipt.external_url is None
                &&& receipt.details@.len() == 0
                &&& final(self).scripted().len() == 0
            },
            final(self).adapter_id() == old(self).adapter_id(),
            final(self).snapshot() == old(self).snapshot(),
            final(self).issues() == old(self).issues(),
            final(self).validation_failure() == old(self).validation_failure(),
            final(self).capability_failure() == old(self).capability_failure(),
    {
        self.recorded.push(RecordedPublish::of(request));
        proof {
            assert(self.recorded@.drop_last() =~= old(self).recorded@);
        }
        match self.publish_results.pop_front() {
            Some(result) => {
                proof {
                    self.answered = Ghost(self.answered@.push(result));
                    assert(old(self).queue_wf() ==> self.answered@ + self.publish_results@ =~= self.enqueued@);
                }
                result
            },
            None => {
                let mut external_id = owned("fake:");
                push_str(&mut external_id, self.provider_id.as_str());
                push_str(&mut external_id, ":");
                let scope = request.idempotency.stable_string();
                push_str(&mut external_id, scope.as_str());
                Ok(ProviderReceipt { external_id, external_url: None, details: Extensions::new() })
            },
        }
    }
}

/// Scripted publish results are answered in the order they were enqueued:
/// the scripted answers given so far are the first results ever enqueued,
/// and the results still waiting are the rest, in order.
pub proof fn lemma_scripted_results_in_order(s: FakeProviderState)
    requires
        s.queue_wf(),
    ensures
        s.scripted_answers() == s.enqueued().take(s.scripted_answers().len() as int),
        s.scripted() == s.enqueued().skip(s.scripted_answers().len() as int),
{
    assert(s.scripted_answers() =~= s.enqueued().take(s.scripted_answers().len() as int));
    assert(s.scripted() =~= s.enqueued().skip(s.scripted_answers().len() as int));
}

/// The capability snapshot of the local test provider: posts, stories and
/// short videos with up to 10 000 characters of text and up to ten images
/// and videos, mixed, with alternative text of up to 1 000 characters.
pub fn fixture_capabilities(provider_id: ProviderId) -> (r: ProviderCapabilities)
    ensures
        r.provider_id == provider_id,
        r.revision matches Some(v) && v@ == "fixture-v1"@,
        r.wf(),
        r.formats@ == seq![PublicationFormat::Post, PublicationFormat::Story, PublicationFormat::ShortVideo],
        r.text == (TextCapabilities { supported: true, max_characters: Some(10000) }),
        r.media.supported_kinds@ == seq![MediaKind::Image, MediaKind::Video],
        r.media.max_items == Some(10u16),
        r.media.mixed_kinds,
        r.media.alt_text == (AltTextCapabilities { supported: true, max_characters: Some(1000) }),
        r.extensions.wf(),
        r.extensions@.len() == 0,
{
    ProviderCapabilities {
        provider_id,
        revision: Some(owned("fixture-v1")),
        formats: vec![PublicationFormat::Post, PublicationFormat::Story, PublicationFormat::ShortVideo],
        text: TextCapabilities { supported: true, max_characters: Some(10000) },
        media: MediaCapabilities {
            supported_kinds: vec![MediaKind::Image, MediaKind::Video],
            max_items: Some(10),
            mixed_kinds: true,
            alt_text: AltTextCapabilities { supported: true, max_characters: Some(1000) },
        },
        extensions: Extensions::new(),
    }
}

/// Reusable provider contract violation.
#[derive(Clone, Copy, Debug, PartialEq, Eq)]
pub struct ConformanceViolation {
    /// Stable violation code.
    pub code: &'static str,
    /// Safe explanation.
    pub message: &'static str,
}

/// The first probe of an adapter, made before any call into it: an adapter
/// whose identity differs from the requested provider context violates the
/// contract, and the probe ends there.
pub fn probe_identity(adapter_id: &ProviderId, context: &ProviderTargetContext) -> (r: Vec<ConformanceViolation>)
    ensures
        adapter_id@ == context.provider_id@ ==> r@.len() == 0,
        adapter_id@ != context.provider_id@ ==> {
            &&& r@.len() == 1
            &&& r@[0].code@ == "adapter.provider_id.context_mismatch"@
            &&& r@[0].message@ == "adapter identity differs from the requested provider context"@
        },
{
    let mut violations: Vec<ConformanceViolation> = Vec::new();
    if !adapter_id.same(&context.provider_id) {
        violations.push(
            ConformanceViolation {
                code: "adapter.provider_id.context_mismatch",
                message: "adapter identity differs from the requested provider context",
            },
        );
    }
    violations
}

/// How a conformance probe of an adapter begins: an adapter whose identity
/// differs from the requested provider context is reported at once, without
/// being called; otherwise (`None`) its capabilities are to be discovered and
/// handed to [`probe_capabilities`].
pub fn probe_start(adapter_id: &ProviderId, context: &ProviderTargetContext) -> (r: Option<Vec<ConformanceViolation>>)
    ensures
        adapter_id@ == context.provider_id@ ==> r is None,
        adapter_id@ != context.provider_id@ ==> (r matches Some(v) && {
            &&& v@.len() == 1
            &&& v@[0].code@ == "adapter.provider_id.context_mismatch"@
            &&& v@[0].message@ == "adapter identity differs from the requested provider context"@
        }),
{
    let violations = probe_identity(adapter_id, context);
    if violations.len() > 0 {
        Some(violations)
    } else {
        None
    }
}

/// The second probe, on what the adapter's capability discovery answered: a
/// snapshot that names another provider than the adapter violates the
/// contract; a failed discovery is none.
pub fn probe_capabilities(adapter_id: &ProviderId, discovered: &Result<ProviderCapabilities, DeliveryError>) -> (r: Vec<ConformanceViolation>)
    ensures
        (discovered matches Ok(c) && c.provider_id@ != adapter_id@) ==> {
            &&& r@.len() == 1
            &&& r@[0].code@ == "adapter.provider_id.capability_mismatch"@
            &&& r@[0].message@ == "capability snapshot identity differs from the adapter identity"@
        },
        !(discovered matches Ok(c) && c.provider_id@ != adapter_id@) ==> r@.len() == 0,
{
    let mut violations: Vec<ConformanceViolation> = Vec::new();
    if let Ok(capabilities) = discovered {
        if !capabilities.provider_id.same(adapter_id) {
            violations.push(
                ConformanceViolation {
                    code: "adapter.provider_id.capability_mismatch",
                    message: "capability snapshot identity differs from the adapter identity",
                },
            );
        }
    }
    violations
}

} // verus!
