use std::cell::RefCell;

use prism::capabilities::{
    AltTextCapabilities, MediaCapabilities, ProviderCapabilities, TextCapabilities,
};
use prism::content::{
    ContentBody, ContentVariant, Extensions, Media, MediaKind, Provenance, ProvenanceKind,
    PublicationFormat,
};
use prism::ids::{
    ChannelRef, IdempotencyKey, LocaleTag, MediaRef, ProviderId, RequestId, TargetId, VariantId,
};
use prism::provider::ProviderRegistry;
use prism::request::{DispatchPolicy, PublishRequest, PublishTarget, VariantSelection};
use prism::result::{
    DeliveryError, DeliveryErrorClass, EventKind, ExecutionMode, ExecutionReport, TargetStatus,
};
use prism::runtime::{Execution, ExecutionAction, ExecutionFailure, Executor};
use prism::testkit::FakeProviderState;
use prism::validation::ValidationIssue;

type Fake = RefCell<FakeProviderState>;

fn fake_id() -> ProviderId {
    ProviderId::new("test.fake").expect("valid provider ID")
}

fn capabilities(max_text: u32, media_kinds: Vec<MediaKind>) -> ProviderCapabilities {
    ProviderCapabilities {
        provider_id: fake_id(),
        revision: Some("test-v1".to_owned()),
        formats: vec![PublicationFormat::Post],
        text: TextCapabilities {
            supported: true,
            max_characters: Some(max_text),
        },
        media: MediaCapabilities {
            supported_kinds: media_kinds,
            max_items: Some(4),
            mixed_kinds: false,
            alt_text: AltTextCapabilities {
                supported: true,
                max_characters: Some(100),
            },
        },
        extensions: Extensions::new(),
    }
}

fn variant(id: &str, text: &str, media_kind: Option<MediaKind>) -> ContentVariant {
    ContentVariant {
        id: VariantId::new(id).expect("valid variant ID"),
        locale: LocaleTag::new("uk-UA").expect("valid locale"),
        voice_profile: None,
        audience: None,
        provider_target: None,
        format: PublicationFormat::Post,
        body: ContentBody {
            text: Some(text.to_owned()),
            media: media_kind
                .map(|kind| Media {
                    reference: MediaRef::new(&format!("media-{id}")).expect("valid media ref"),
                    kind,
                    mime_type: None,
                    alt_text: Some("опис".to_owned()),
                    extensions: Extensions::new(),
                })
                .into_iter()
                .collect(),
        },
        provenance: Provenance {
            kind: ProvenanceKind::Human,
            producer: None,
            source_refs: Vec::new(),
        },
        extensions: Extensions::new(),
    }
}

fn target(id: &str, variant_id: &str) -> PublishTarget {
    PublishTarget {
        id: TargetId::new(id).expect("valid target ID"),
        provider_id: fake_id(),
        channel: ChannelRef::new("channel-1").expect("valid channel"),
        credential: None,
        selection: VariantSelection::Exact {
            variant_id: VariantId::new(variant_id).expect("valid variant ID"),
        },
        options: Extensions::new(),
    }
}

fn executor(capabilities: ProviderCapabilities) -> Executor<Fake> {
    let provider_id = capabilities.provider_id.clone();
    let fake = FakeProviderState::new(provider_id.clone(), capabilities);
    let mut registry = ProviderRegistry::new();
    registry
        .register(provider_id, RefCell::new(fake))
        .expect("provider registers once");
    Executor::new(registry)
}

fn fake(executor: &Executor<Fake>) -> &Fake {
    executor.registry().get(&fake_id()).expect("fake state")
}

fn request(
    policy: DispatchPolicy,
    variants: Vec<ContentVariant>,
    targets: Vec<PublishTarget>,
) -> PublishRequest {
    PublishRequest {
        idempotency_key: IdempotencyKey::new("publication-42").expect("valid key"),
        dispatch_policy: policy,
        variants,
        targets,
    }
}

/// Performs each outside action the execution asks for against the fake
/// adapters of the executor's registry, until the report is complete.
fn drive(executor: &Executor<Fake>, mut execution: Execution) -> ExecutionReport {
    loop {
        match execution.next_action(executor.registry()) {
            ExecutionAction::DiscoverCapabilities { .. } => {
                let context = execution.capability_context().expect("capability context");
                let adapter = executor.registry().get(&context.provider_id).expect("adapter");
                let result = adapter.borrow().capabilities(&context);
                execution.supply_capabilities(result);
            }
            ExecutionAction::ValidateWithProvider { .. } => {
                let request = execution
                    .pending_provider_request()
                    .expect("pending request")
                    .clone();
                let adapter = executor
                    .registry()
                    .get(&request.target.provider_id)
                    .expect("adapter");
                let result = adapter.borrow().validate_publish(&request);
                execution.supply_provider_validation(result);
            }
            ExecutionAction::Publish { .. } => {
                let request = execution
                    .pending_provider_request()
                    .expect("pending request")
                    .clone();
                let adapter = executor
                    .registry()
                    .get(&request.target.provider_id)
                    .expect("adapter");
                let result = adapter.borrow_mut().publish(&request);
                execution.supply_publish(result);
            }
            ExecutionAction::Finished => return execution.into_report(),
        }
    }
}

#[test]
fn unsupported_media_fails_before_external_action() {
    let executor = executor(capabilities(100, vec![MediaKind::Image]));
    let execution = executor
        .publish(
            RequestId::new("request-1").expect("valid request ID"),
            request(
                DispatchPolicy::Independent,
                vec![variant("video", "привіт", Some(MediaKind::Video))],
                vec![target("target-video", "video")],
            ),
        )
        .expect("request structure is valid");
    let report = drive(&executor, execution);

    assert_eq!(report.outcomes[0].status, TargetStatus::Failed);
    assert_eq!(fake(&executor).borrow().publish_count(), 0);
    assert!(
        report.outcomes[0]
            .validation_issues
            .iter()
            .any(|issue| issue.code == "capability.media.kind_unsupported")
    );
}

#[test]
fn require_all_valid_prevents_every_external_action() {
    let executor = executor(capabilities(5, Vec::new()));
    let execution = executor
        .publish(
            RequestId::new("request-2").expect("valid request ID"),
            request(
                DispatchPolicy::RequireAllValid,
                vec![
                    variant("valid", "так", None),
                    variant("invalid", "занадто довго", None),
                ],
                vec![
                    target("target-valid", "valid"),
                    target("target-invalid", "invalid"),
                ],
            ),
        )
        .expect("request structure is valid");
    let report = drive(&executor, execution);

    assert_eq!(report.outcomes[0].status, TargetStatus::Skipped);
    assert_eq!(report.outcomes[1].status, TargetStatus::Failed);
    assert_eq!(fake(&executor).borrow().publish_count(), 0);
}

#[test]
fn independent_policy_isolates_targets_and_derives_idempotency() {
    let executor = executor(capabilities(5, Vec::new()));
    let execution = executor
        .publish(
            RequestId::new("request-3").expect("valid request ID"),
            request(
                DispatchPolicy::Independent,
                vec![
                    variant("valid", "так", None),
                    variant("invalid", "занадто довго", None),
                ],
                vec![
                    target("target-valid", "valid"),
                    target("target-invalid", "invalid"),
                ],
            ),
        )
        .expect("request structure is valid");
    let report = drive(&executor, execution);

    assert_eq!(report.outcomes[0].status, TargetStatus::Published);
    assert_eq!(report.outcomes[1].status, TargetStatus::Failed);
    let calls = fake(&executor).borrow().recorded_publishes();
    assert_eq!(calls.len(), 1);
    assert_eq!(calls[0].idempotency_key, "publication-42:target-valid");
}

#[test]
fn validate_mode_never_publishes_and_events_are_sequence_numbered() {
    let executor = executor(capabilities(100, Vec::new()));
    let execution = executor
        .validate(
            RequestId::new("request-4").expect("valid request ID"),
            request(
                DispatchPolicy::Independent,
                vec![variant("valid", "привіт", None)],
                vec![target("target-valid", "valid")],
            ),
        )
        .expect("request structure is valid");
    let report = drive(&executor, execution);

    assert_eq!(report.outcomes[0].status, TargetStatus::Validated);
    assert_eq!(fake(&executor).borrow().publish_count(), 0);
    assert!(
        report
            .events
            .iter()
            .enumerate()
            .all(|(index, event)| event.sequence as usize == index + 1)
    );
}

#[test]
fn published_target_carries_receipt_variant_and_events() {
    let executor = executor(capabilities(100, Vec::new()));
    let execution = executor
        .publish(
            RequestId::new("request-5").expect("valid request ID"),
            request(
                DispatchPolicy::RequireAllValid,
                vec![variant("valid", "привіт", None)],
                vec![target("target-valid", "valid")],
            ),
        )
        .expect("request structure is valid");
    let report = drive(&executor, execution);

    assert_eq!(report.mode, ExecutionMode::Publish);
    assert_eq!(report.request_id.as_str(), "request-5");
    let outcome = &report.outcomes[0];
    assert_eq!(outcome.status, TargetStatus::Published);
    assert_eq!(
        outcome.selected_variant_id.as_ref().map(|id| id.as_str()),
        Some("valid")
    );
    assert_eq!(
        outcome.receipt.as_ref().map(|r| r.external_id.as_str()),
        Some("fake:test.fake:publication-42:target-valid")
    );
    let kinds: Vec<EventKind> = report.events.iter().map(|event| event.kind).collect();
    assert_eq!(
        kinds,
        vec![
            EventKind::TargetResolved,
            EventKind::CapabilitiesLoaded,
            EventKind::TargetValidated,
            EventKind::DispatchStarted,
            EventKind::Published,
        ]
    );
}

#[test]
fn scripted_delivery_failure_is_reported_on_the_target() {
    let executor = executor(capabilities(100, Vec::new()));
    fake(&executor).borrow_mut().enqueue_publish_result(Err(DeliveryError::new(
        DeliveryErrorClass::RateLimited,
        "test.rate_limited",
        "slow down",
    )
    .with_retry_after(30)));
    let execution = executor
        .publish(
            RequestId::new("request-6").expect("valid request ID"),
            request(
                DispatchPolicy::Independent,
                vec![variant("valid", "привіт", None)],
                vec![target("target-valid", "valid")],
            ),
        )
        .expect("request structure is valid");
    let report = drive(&executor, execution);

    let outcome = &report.outcomes[0];
    assert_eq!(outcome.status, TargetStatus::Failed);
    let error = outcome.error.as_ref().expect("delivery error");
    assert_eq!(error.class, DeliveryErrorClass::RateLimited);
    assert_eq!(error.retry_after_seconds, Some(30));
    assert_eq!(fake(&executor).borrow().publish_count(), 1);
    assert_eq!(report.events.last().map(|e| e.kind), Some(EventKind::DeliveryFailed));
}

#[test]
fn provider_native_issues_block_the_target() {
    let executor = executor(capabilities(100, Vec::new()));
    fake(&executor)
        .borrow_mut()
        .set_validation_issues(vec![ValidationIssue::error(
            "test.native",
            "/native",
            "provider says no",
        )]);
    let execution = executor
        .publish(
            RequestId::new("request-7").expect("valid request ID"),
            request(
                DispatchPolicy::Independent,
                vec![variant("valid", "привіт", None)],
                vec![target("target-valid", "valid")],
            ),
        )
        .expect("request structure is valid");
    let report = drive(&executor, execution);

    assert_eq!(report.outcomes[0].status, TargetStatus::Failed);
    assert!(
        report.outcomes[0]
            .validation_issues
            .iter()
            .any(|issue| issue.code == "test.native")
    );
    assert_eq!(fake(&executor).borrow().publish_count(), 0);
}

#[test]
fn unregistered_provider_fails_preflight_without_calls() {
    let executor = executor(capabilities(100, Vec::new()));
    let mut other = target("target-other", "valid");
    other.provider_id = ProviderId::new("meta.threads").expect("valid provider ID");
    let execution = executor
        .publish(
            RequestId::new("request-8").expect("valid request ID"),
            request(
                DispatchPolicy::Independent,
                vec![variant("valid", "привіт", None)],
                vec![other],
            ),
        )
        .expect("request structure is valid");
    let report = drive(&executor, execution);

    assert_eq!(report.outcomes[0].status, TargetStatus::Failed);
    assert_eq!(fake(&executor).borrow().publish_count(), 0);
}

#[test]
fn structurally_invalid_request_is_refused_before_execution() {
    let executor = executor(capabilities(100, Vec::new()));
    let refused = executor.publish(
        RequestId::new("request-9").expect("valid request ID"),
        request(DispatchPolicy::Independent, Vec::new(), Vec::new()),
    );
    match refused {
        Err(ExecutionFailure::InvalidRequest { issues }) => assert_eq!(issues.len(), 2),
        other => panic!("unexpected result: {:?}", other.map(|_| ())),
    }
}

#[test]
fn skipped_targets_carry_the_policy_error() {
    let executor = executor(capabilities(5, Vec::new()));
    let execution = executor
        .publish(
            RequestId::new("request-10").expect("valid request ID"),
            request(
                DispatchPolicy::RequireAllValid,
                vec![
                    variant("valid", "так", None),
                    variant("invalid", "занадто довго", None),
                ],
                vec![
                    target("target-valid", "valid"),
                    target("target-invalid", "invalid"),
                ],
            ),
        )
        .expect("request structure is valid");
    let report = drive(&executor, execution);

    let skipped = report.outcomes[0].error.as_ref().expect("policy error");
    assert_eq!(skipped.class, DeliveryErrorClass::InvalidRequest);
    assert_eq!(skipped.code, "dispatch.require_all_valid_preflight_failed");
    let failed = report.outcomes[1].error.as_ref().expect("preflight error");
    assert_eq!(failed.code, "target.preflight_failed");
    assert_eq!(
        report.outcomes[1].validation_issues[0].code,
        "capability.text.too_long"
    );
    assert!(report.events.iter().any(|event| event.kind == EventKind::DispatchSkipped));
    assert!(!report.events.iter().any(|event| event.kind == EventKind::DispatchStarted));
}

#[test]
fn provider_requests_carry_the_target_variant_and_idempotency() {
    let executor = executor(capabilities(100, Vec::new()));
    let mut execution = executor
        .publish(
            RequestId::new("request-11").expect("valid request ID"),
            request(
                DispatchPolicy::Independent,
                vec![variant("valid", "привіт", None)],
                vec![target("target-valid", "valid")],
            ),
        )
        .expect("request structure is valid");
    assert!(matches!(
        execution.next_action(executor.registry()),
        ExecutionAction::DiscoverCapabilities { target_index: 0 }
    ));
    let context = execution.capability_context().expect("context");
    assert_eq!(context.channel.as_str(), "channel-1");
    execution.supply_capabilities(Ok(capabilities(100, Vec::new())));
    assert!(matches!(
        execution.next_action(executor.registry()),
        ExecutionAction::ValidateWithProvider { target_index: 0 }
    ));
    let pending = execution.pending_provider_request().expect("pending request");
    assert_eq!(pending.request_id.as_str(), "request-11");
    assert_eq!(pending.idempotency.stable_string(), "publication-42:target-valid");
    assert_eq!(pending.target.id.as_str(), "target-valid");
    assert_eq!(pending.variant.id.as_str(), "valid");
    assert_eq!(pending.variant.body.text.as_deref(), Some("привіт"));
}

#[test]
fn equal_runs_give_equal_reports() {
    let run = || {
        let executor = executor(capabilities(5, Vec::new()));
        let execution = executor
            .publish(
                RequestId::new("request-9").expect("valid request ID"),
                request(
                    DispatchPolicy::Independent,
                    vec![
                        variant("valid", "так", None),
                        variant("invalid", "занадто довго", None),
                    ],
                    vec![
                        target("target-valid", "valid"),
                        target("target-invalid", "invalid"),
                    ],
                ),
            )
            .expect("structurally valid request");
        drive(&executor, execution)
    };
    let first = run();
    let second = run();
    assert_eq!(first.outcomes.len(), second.outcomes.len());
    for (a, b) in first.outcomes.iter().zip(second.outcomes.iter()) {
        assert_eq!(a.target_id, b.target_id);
        assert_eq!(a.selected_variant_id, b.selected_variant_id);
        assert_eq!(a.status, b.status);
        assert_eq!(
            a.error.as_ref().map(|e| (e.class, e.code.clone())),
            b.error.as_ref().map(|e| (e.class, e.code.clone()))
        );
    }
    assert_eq!(first.outcomes[0].status, TargetStatus::Published);
    assert_eq!(first.outcomes[1].status, TargetStatus::Failed);
    assert_eq!(first.events, second.events);
}
