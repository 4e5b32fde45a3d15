//! Delivery outcomes, errors, receipts and execution events.

use vstd::prelude::*;

use crate::content::{Extensions, lookup};
use crate::ids::{NamespacedKey, ProviderId, RequestId, TargetId, VariantId};
use crate::request::DispatchPolicy;
use crate::text::owned;
use crate::validation::ValidationIssue;

verus! {

/// Stable provider failure class used across all adapters.
#[derive(Clone, Copy, Debug, PartialEq, Eq, Structural)]
pub enum DeliveryErrorClass {
    /// Deterministic request or capability failure.
    InvalidRequest,
    /// Transient provider or transport failure.
    Retryable,
    /// Provider rate limit with optional retry guidance.
    RateLimited,
    /// The external action may have succeeded; retry requires reconciliation.
    OutcomeUnknown,
    /// Missing, expired, or insufficient authorization.
    AuthRequired,
    /// Provider understood but rejected the request.
    ProviderRejected,
    /// Non-retryable provider or adapter failure.
    Terminal,
}

/// Typed, redacted error for one target.
#[derive(Debug)]
pub struct DeliveryError {
    /// Stable cross-provider class.
    pub class: DeliveryErrorClass,
    /// Stable adapter or Prism code.
    pub code: String,
    /// Safe message that contains no credentials or raw upstream payload.
    pub message: String,
    /// Suggested delay for a rate limit or transient failure.
    pub retry_after_seconds: Option<u64>,
    /// Namespaced, explicitly safe recovery metadata.
    pub details: Extensions,
}

impl DeliveryError {
    /// Creates a typed redacted delivery error.
    pub fn new(class: DeliveryErrorClass, code: &str, message: &str) -> (r: Self)
        ensures
            r.class == class,
            r.code@ == code@,
            r.message@ == message@,
            r.retry_after_seconds is None,
            r.details@.len() == 0,
            r.details.wf(),
    {
        DeliveryError {
            class,
            code: owned(code),
            message: owned(message),
            retry_after_seconds: None,
            details: Extensions::new(),
        }
    }

    /// Adds retry guidance.
    pub fn with_retry_after(self, seconds: u64) -> (r: Self)
        ensures
            r.class == self.class,
            r.code == self.code,
            r.message == self.message,
            r.retry_after_seconds == Some(seconds),
            r.details@ == self.details@,
    {
        let mut r = self;
        r.retry_after_seconds = Some(seconds);
        r
    }

    /// Adds explicitly safe, namespaced recovery metadata.
    pub fn with_detail(self, key: NamespacedKey, value: serde_json::Value) -> (r: Self)
        requires
            self.details.wf(),
        ensures
            r.class == self.class,
            r.code == self.code,
            r.message == self.message,
            r.retry_after_seconds == self.retry_after_seconds,
            r.details.wf(),
            lookup(r.details@, key@) == Some(value),
            forall|k: Seq<char>| k != key@ ==> lookup(r.details@, k) == lookup(self.details@, k),
    {
        let mut r = self;
        r.details.insert(key, value);
        r
    }
}

/// Whether two errors carry the same class, text, guidance and details.
pub open spec fn same_error(a: DeliveryError, b: DeliveryError) -> bool {
    &&& a.class == b.class
    &&& a.code == b.code
    &&& a.message == b.message
    &&& a.retry_after_seconds == b.retry_after_seconds
    &&& a.details@ == b.details@
}

impl Clone for DeliveryError {
    fn clone(&self) -> (r: Self)
        ensures
            same_error(r, *self),
    {
        DeliveryError {
            class: self.class,
            code: self.code.clone(),
            message: self.message.clone(),
            retry_after_seconds: self.retry_after_seconds,
            details: self.details.clone(),
        }
    }
}

/// Safe provider receipt. Raw upstream responses do not cross this boundary.
#[derive(Debug)]
pub struct ProviderReceipt {
    /// Provider-native content identifier.
    pub external_id: String,
    /// Optional canonical public URL.
    pub external_url: Option<String>,
    /// Namespaced, explicitly safe receipt metadata.
    pub details: Extensions,
}

impl Clone for ProviderReceipt {
    fn clone(&self) -> (r: Self)
        ensures
            r.external_id == self.external_id,
            r.external_url == self.external_url,
            r.details@ == self.details@,
    {
        ProviderReceipt {
            external_id: self.external_id.clone(),
            external_url: self.external_url.clone(),
            details: self.details.clone(),
        }
    }
}

/// Requested execution operation.
#[derive(Clone, Copy, Debug, PartialEq, Eq, Structural)]
pub enum ExecutionMode {
    /// Preflight only; never performs an external action.
    Validate,
    /// Preflight followed by explicit provider dispatch.
    Publish,
}

/// Outcome state for one target.
#[derive(Clone, Copy, Debug, PartialEq, Eq, Structural)]
pub enum TargetStatus {
    /// Target passed core and adapter preflight.
    Validated,
    /// Provider returned a safe receipt after dispatch.
    Published,
    /// Target was valid but policy prevented dispatch.
    Skipped,
    /// Target failed preflight or dispatch.
    Failed,
}

/// Independent result for one target, kept in request order.
#[derive(Clone, Debug)]
pub struct TargetOutcome {
    /// Request-local target identifier.
    pub target_id: TargetId,
    /// Provider identity.
    pub provider_id: ProviderId,
    /// Variant selected during deterministic resolution.
    pub selected_variant_id: Option<VariantId>,
    /// Current terminal outcome for this execution.
    pub status: TargetStatus,
    /// Safe provider receipt for a successful publish.
    pub receipt: Option<ProviderReceipt>,
    /// Typed failure for a failed or skipped target.
    pub error: Option<DeliveryError>,
    /// Structured blocking issues and non-blocking warnings from preflight.
    pub validation_issues: Vec<ValidationIssue>,
}

/// Deterministic execution event kind.
#[derive(Clone, Copy, Debug, PartialEq, Eq, Structural)]
pub enum EventKind {
    /// Variant and adapter were resolved.
    TargetResolved,
    /// Provider capabilities were loaded.
    CapabilitiesLoaded,
    /// Target passed preflight.
    TargetValidated,
    /// Target failed preflight.
    TargetRejected,
    /// Policy prevented an otherwise valid dispatch.
    DispatchSkipped,
    /// Adapter dispatch is about to cross the external-action boundary.
    DispatchStarted,
    /// Provider returned a safe receipt.
    Published,
    /// Provider dispatch failed.
    DeliveryFailed,
}

/// Sequence-numbered domain event with no wall-clock dependency.
#[derive(Clone, Debug, PartialEq, Eq)]
pub struct ExecutionEvent {
    /// One-based stable sequence within the report.
    pub sequence: u32,
    /// Event kind.
    pub kind: EventKind,
    /// Target associated with the event.
    pub target_id: TargetId,
    /// Provider associated with the event.
    pub provider_id: ProviderId,
    /// Optional stable failure or decision code.
    pub code: Option<String>,
}

/// Complete deterministic result for a validation or publish operation.
#[derive(Clone, Debug)]
pub struct ExecutionReport {
    /// Caller correlation identifier.
    pub request_id: RequestId,
    /// Operation that produced the report.
    pub mode: ExecutionMode,
    /// Partial-publication policy applied by the executor.
    pub dispatch_policy: DispatchPolicy,
    /// Independent results in request target order.
    pub outcomes: Vec<TargetOutcome>,
    /// Deterministic event stream.
    pub events: Vec<ExecutionEvent>,
}

} // verus!
