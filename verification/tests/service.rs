use prism::capabilities::{
    AltTextCapabilities, MediaCapabilities, ProviderCapabilities, TextCapabilities,
};
use prism::content::{Extensions, MediaKind, PublicationFormat};
use prism::ids::{ChannelRef, IdempotencyKey, NamespacedKey, ProviderId, RequestId, TargetId, VariantId};
use prism::protocol::{
    LineCounter, malformed_envelope_response, CapabilitiesRequest, ExecutionCommand, ExecutionResult, PROTOCOL_VERSION, ProtocolError,
    ProtocolErrorCode, RequestEnvelope, ResponseBody, ResponseEnvelope,
};
use prism::provider::{ProviderPublishRequest, ProviderRegistry, ProviderTargetContext, RegistryError};
use prism::request::{DispatchPolicy, IdempotencyScope, PublishRequest, PublishTarget, VariantSelection};
use prism::result::{DeliveryError, DeliveryErrorClass};
use prism::runtime::{
    ExecutionFailure, ExecutionService, Executor, accept_capabilities, protocol_error,
};
use prism::testkit::{fixture_capabilities, FakeProviderState, RecordedPublish, probe_capabilities, probe_identity, probe_start};
use prism::validation::ValidationIssue;

fn provider(id: &str) -> ProviderId {
    ProviderId::new(id).expect("valid provider ID")
}

fn snapshot(id: &str) -> ProviderCapabilities {
    ProviderCapabilities {
        provider_id: provider(id),
        revision: None,
        formats: vec![PublicationFormat::Post],
        text: TextCapabilities {
            supported: true,
            max_characters: None,
        },
        media: MediaCapabilities {
            supported_kinds: Vec::new(),
            max_items: None,
            mixed_kinds: false,
            alt_text: AltTextCapabilities {
                supported: false,
                max_characters: None,
            },
        },
        extensions: Extensions::new(),
    }
}

fn context(provider_id: &str, options: Extensions) -> ProviderTargetContext {
    ProviderTargetContext {
        provider_id: provider(provider_id),
        channel: ChannelRef::new("channel-1").expect("valid channel"),
        credential: None,
        options,
    }
}

fn provider_request() -> ProviderPublishRequest {
    let target = PublishTarget {
        id: TargetId::new("target-1").expect("valid target ID"),
        provider_id: provider("test.fake"),
        channel: ChannelRef::new("channel-1").expect("valid channel"),
        credential: None,
        selection: VariantSelection::Exact {
            variant_id: VariantId::new("v").expect("valid variant ID"),
        },
        options: Extensions::new(),
    };
    let variant = prism::content::ContentVariant {
        id: VariantId::new("v").expect("valid variant ID"),
        locale: prism::ids::LocaleTag::new("uk-UA").expect("valid locale"),
        voice_profile: None,
        audience: None,
        provider_target: None,
        format: PublicationFormat::Post,
        body: prism::content::ContentBody {
            text: Some("текст".to_owned()),
            media: Vec::new(),
        },
        provenance: prism::content::Provenance {
            kind: prism::content::ProvenanceKind::Human,
            producer: None,
            source_refs: Vec::new(),
        },
        extensions: Extensions::new(),
    };
    ProviderPublishRequest {
        request_id: RequestId::new("request-1").expect("valid request ID"),
        idempotency: IdempotencyScope {
            root: IdempotencyKey::new("publication-7").expect("valid key"),
            target_id: target.id.clone(),
        },
        target,
        variant,
    }
}

#[test]
fn registry_refuses_duplicates_and_lists_ids_in_order() {
    let mut registry: ProviderRegistry<u8> = ProviderRegistry::new();
    assert!(registry.is_empty());
    registry.register(provider("test.zeta"), 1).expect("first registration");
    registry.register(provider("meta.threads"), 2).expect("second registration");
    assert_eq!(
        registry.register(provider("test.zeta"), 3),
        Err(RegistryError::Duplicate(provider("test.zeta")))
    );
    assert_eq!(registry.get(&provider("test.zeta")), Some(&1));
    assert_eq!(registry.get(&provider("meta.threads")), Some(&2));
    assert_eq!(registry.get(&provider("meta.instagram")), None);
    assert!(registry.contains(&provider("meta.threads")));
    let ids: Vec<String> = registry
        .provider_ids()
        .iter()
        .map(|id| id.as_str().to_owned())
        .collect();
    assert_eq!(ids, vec!["meta.threads", "test.zeta"]);
}

#[test]
fn capability_context_options_are_checked_before_discovery() {
    let mut registry: ProviderRegistry<()> = ProviderRegistry::new();
    registry.register(provider("test.fake"), ()).expect("registers");
    let executor = Executor::new(registry);

    assert!(executor.prepare_capabilities(&context("test.fake", Extensions::new())).is_ok());
    match executor.prepare_capabilities(&context("test.other", Extensions::new())) {
        Err(ExecutionFailure::ProviderNotFound(id)) => assert_eq!(id.as_str(), "test.other"),
        other => panic!("unexpected: {:?}", other),
    }
    let mut options = Extensions::new();
    options.insert(
        NamespacedKey::new("other.access_token").expect("valid key"),
        serde_json::Value::Bool(true),
    );
    match executor.prepare_capabilities(&context("test.fake", options)) {
        Err(ExecutionFailure::InvalidRequest { issues }) => {
            let codes: Vec<&str> = issues.iter().map(|i| i.code.as_str()).collect();
            assert_eq!(
                codes,
                vec!["target.option.namespace_mismatch", "extension.secret_prohibited"]
            );
            assert_eq!(issues[0].path, "/payload/options/other.access_token");
        }
        other => panic!("unexpected: {:?}", other),
    }
}

#[test]
fn capability_answers_are_checked_for_identity() {
    let ctx = context("test.fake", Extensions::new());
    assert!(accept_capabilities(&ctx, Ok(snapshot("test.fake"))).is_ok());
    match accept_capabilities(&ctx, Ok(snapshot("test.other"))) {
        Err(ExecutionFailure::ProviderContract(id)) => assert_eq!(id.as_str(), "test.fake"),
        other => panic!("unexpected: {:?}", other),
    }
    let failure = DeliveryError::new(DeliveryErrorClass::Retryable, "test.down", "down");
    match accept_capabilities(&ctx, Err(failure)) {
        Err(ExecutionFailure::CapabilityDiscovery(e)) => assert_eq!(e.code, "test.down"),
        other => panic!("unexpected: {:?}", other),
    }
}

#[test]
fn request_failures_become_safe_protocol_errors() {
    let invalid = protocol_error(ExecutionFailure::InvalidRequest {
        issues: vec![ValidationIssue::error("x.y", "/x", "bad")],
    });
    assert_eq!(invalid.code, ProtocolErrorCode::InvalidRequest);
    assert_eq!(invalid.issues.len(), 1);
    assert_eq!(
        invalid.message,
        "request failed deterministic structural validation"
    );
    let discovery = protocol_error(ExecutionFailure::CapabilityDiscovery(DeliveryError::new(
        DeliveryErrorClass::Terminal,
        "test.broken",
        "secret detail",
    )));
    assert_eq!(discovery.code, ProtocolErrorCode::CapabilityDiscoveryFailed);
    assert_eq!(discovery.message, "capability discovery failed: test.broken");
    assert!(!discovery.message.contains("secret detail"));
    let missing = protocol_error(ExecutionFailure::ProviderNotFound(provider("test.none")));
    assert_eq!(missing.code, ProtocolErrorCode::ProviderNotFound);
    let contract = protocol_error(ExecutionFailure::ProviderContract(provider("test.none")));
    assert_eq!(contract.code, ProtocolErrorCode::Internal);
}

#[test]
fn service_refuses_other_protocol_versions() {
    let envelope = |version: &str| RequestEnvelope {
        protocol_version: version.to_owned(),
        request_id: RequestId::new("request-1").expect("valid request ID"),
        command: ExecutionCommand::Capabilities(CapabilitiesRequest {
            provider_id: provider("test.fake"),
            channel: ChannelRef::new("channel-1").expect("valid channel"),
            credential: None,
            options: Extensions::new(),
        }),
    };
    assert_eq!(PROTOCOL_VERSION, "prism-execution.v1");
    assert!(ExecutionService::<()>::check_version(&envelope(PROTOCOL_VERSION)).is_none());
    let refused = ExecutionService::<()>::check_version(&envelope("prism-execution.v0"))
        .expect("refused");
    assert_eq!(refused.request_id.as_str(), "request-1");
    assert_eq!(refused.protocol_version, PROTOCOL_VERSION);
    match refused.body {
        ResponseBody::Error { error } => {
            assert_eq!(error.code, ProtocolErrorCode::UnsupportedProtocol);
            assert_eq!(error.message, "runtime supports only prism-execution.v1");
        }
        ResponseBody::Success { .. } => panic!("must be an error"),
    }
    assert_eq!(envelope(PROTOCOL_VERSION).command.name(), "capabilities");
}

#[test]
fn service_responses_carry_the_request_id() {
    let ok = ExecutionService::<()>::respond(
        RequestId::new("request-2").expect("valid request ID"),
        Ok(ExecutionResult::Capabilities(snapshot("test.fake"))),
    );
    assert_eq!(ok.request_id.as_str(), "request-2");
    assert!(matches!(ok.body, ResponseBody::Success { .. }));
    let failed = ExecutionService::<()>::respond(
        RequestId::new("request-3").expect("valid request ID"),
        Err(ExecutionFailure::ProviderNotFound(provider("test.none"))),
    );
    match failed.body {
        ResponseBody::Error { error } => assert_eq!(error.code, ProtocolErrorCode::ProviderNotFound),
        ResponseBody::Success { .. } => panic!("must be an error"),
    }
    let direct = ResponseEnvelope::error(
        RequestId::new("request-4").expect("valid request ID"),
        ProtocolError::new(ProtocolErrorCode::InvalidEnvelope, "bad envelope"),
    );
    assert_eq!(direct.protocol_version, "prism-execution.v1");
    let invalid = ProtocolError::invalid_request(Vec::new());
    assert_eq!(invalid.code, ProtocolErrorCode::InvalidRequest);
    let _ = PublishRequest {
        idempotency_key: IdempotencyKey::new("k").expect("valid key"),
        dispatch_policy: DispatchPolicy::Independent,
        variants: Vec::new(),
        targets: Vec::new(),
    };
}

#[test]
fn fake_provider_answers_scripted_results_in_order() {
    let mut fake = FakeProviderState::new(provider("test.fake"), snapshot("test.other"));
    let ctx = context("test.fake", Extensions::new());
    let caps = fake.capabilities(&ctx).expect("snapshot");
    assert_eq!(caps.provider_id.as_str(), "test.fake");

    fake.set_capability_error(Some(DeliveryError::new(
        DeliveryErrorClass::Terminal,
        "test.discovery",
        "no",
    )));
    assert_eq!(
        fake.capabilities(&ctx).err().expect("failure").code,
        "test.discovery"
    );

    let request = provider_request();
    assert!(fake.validate_publish(&request).expect("issues").is_empty());
    fake.set_validation_error(Some(DeliveryError::new(
        DeliveryErrorClass::AuthRequired,
        "test.auth",
        "no",
    )));
    assert!(fake.validate_publish(&request).is_err());

    fake.enqueue_publish_result(Err(DeliveryError::new(
        DeliveryErrorClass::Retryable,
        "test.first",
        "first",
    )));
    let first = fake.publish(&request);
    assert_eq!(first.err().expect("scripted failure").code, "test.first");
    let second = fake.publish(&request).expect("default receipt");
    assert_eq!(second.external_id, "fake:test.fake:publication-7:target-1");
    assert_eq!(fake.publish_count(), 2);
    let recorded = fake.recorded_publishes();
    assert_eq!(recorded[0], RecordedPublish::of(&request));
    assert_eq!(recorded[1].idempotency_key, "publication-7:target-1");
    assert_eq!(recorded[1].variant_id.as_str(), "v");
}

#[test]
fn conformance_probe_checks_identity_then_snapshot() {
    let fake = provider("test.fake");
    assert!(probe_identity(&fake, &context("test.fake", Extensions::new())).is_empty());
    let mismatch = probe_identity(&fake, &context("test.other", Extensions::new()));
    assert_eq!(mismatch.len(), 1);
    assert_eq!(mismatch[0].code, "adapter.provider_id.context_mismatch");

    assert!(probe_capabilities(&fake, &Ok(snapshot("test.fake"))).is_empty());
    let wrong = probe_capabilities(&fake, &Ok(snapshot("test.other")));
    assert_eq!(wrong[0].code, "adapter.provider_id.capability_mismatch");
    let failed = probe_capabilities(
        &fake,
        &Err(DeliveryError::new(DeliveryErrorClass::Terminal, "x.y", "z")),
    );
    assert!(failed.is_empty());
}

#[test]
fn malformed_envelopes_are_answered_under_a_fallback_id() {
    let response = malformed_envelope_response("unparsed-3", 1, 17);
    assert_eq!(response.request_id.as_str(), "unparsed-3");
    assert_eq!(response.protocol_version, "prism-execution.v1");
    match response.body {
        ResponseBody::Error { error } => {
            assert_eq!(error.code, ProtocolErrorCode::InvalidEnvelope);
            assert_eq!(
                error.message,
                "invalid JSON protocol envelope at line 1 column 17"
            );
        }
        ResponseBody::Success { .. } => panic!("must be an error"),
    }
    let invalid_fallback = malformed_envelope_response(" bad", 2, 0);
    assert_eq!(invalid_fallback.request_id.as_str(), "unparsed");

    let mut counter = LineCounter::new();
    assert_eq!(counter.next_line("{}"), Some("unparsed-1".to_owned()));
    assert_eq!(counter.next_line("   "), None);
    assert_eq!(counter.next_line(""), None);
    assert_eq!(counter.next_line("x"), Some("unparsed-4".to_owned()));
}

#[test]
fn registry_errors_name_the_provider() {
    assert_eq!(
        RegistryError::Duplicate(provider("meta.threads")).message(),
        "provider `meta.threads` is already registered"
    );
}

#[test]
fn capability_requests_become_contexts() {
    let request = CapabilitiesRequest {
        provider_id: provider("test.fake"),
        channel: ChannelRef::new("channel-1").expect("valid channel"),
        credential: Some(prism::ids::CredentialRef::new("cred").expect("valid credential")),
        options: Extensions::new(),
    };
    let context = request.into_context();
    assert_eq!(context.provider_id.as_str(), "test.fake");
    assert_eq!(context.channel.as_str(), "channel-1");
    assert_eq!(context.credential.map(|c| c.as_str().to_owned()), Some("cred".to_owned()));
}

#[test]
fn fixture_snapshot_describes_the_local_test_provider() {
    let fixture = fixture_capabilities(provider("test.fake"));
    assert_eq!(fixture.provider_id.as_str(), "test.fake");
    assert_eq!(fixture.revision.as_deref(), Some("fixture-v1"));
    assert_eq!(
        fixture.formats,
        vec![
            PublicationFormat::Post,
            PublicationFormat::Story,
            PublicationFormat::ShortVideo
        ]
    );
    assert_eq!(fixture.text.max_characters, Some(10_000));
    assert_eq!(fixture.media.supported_kinds, vec![MediaKind::Image, MediaKind::Video]);
    assert_eq!(fixture.media.max_items, Some(10));
    assert!(fixture.media.mixed_kinds);
    assert_eq!(fixture.media.alt_text.max_characters, Some(1_000));
}

#[test]
fn idempotency_material_differs_for_distinct_targets_and_keys() {
    let scope = |root: &str, target: &str| IdempotencyScope {
        root: IdempotencyKey::new(root).expect("valid key"),
        target_id: TargetId::new(target).expect("valid target ID"),
    };
    let a = scope("publication-1", "threads-uk").stable_string();
    let b = scope("publication-1", "threads-en").stable_string();
    let c = scope("publication-2", "threads-uk").stable_string();
    assert_ne!(a, b);
    assert_ne!(a, c);
    assert_eq!(a, scope("publication-1", "threads-uk").stable_string());
    // Colons and backslashes inside the parts are escaped, so the separator
    // stays unambiguous.
    assert_ne!(
        scope("a:b", "c").stable_string(),
        scope("a", "b:c").stable_string()
    );
    assert_eq!(scope("a:b", "c").stable_string(), "a\\cb:c");
    assert_eq!(scope("a", "b:c").stable_string(), "a:b\\cc");
    assert_eq!(scope("a\\", "c").stable_string(), "a\\\\:c");
}

#[test]
fn conformance_probe_starts_with_identity() {
    let fake = provider("test.fake");
    assert!(probe_start(&fake, &context("test.fake", Extensions::new())).is_none());
    let mismatch = probe_start(&fake, &context("test.other", Extensions::new())).expect("violations");
    assert_eq!(mismatch.len(), 1);
    assert_eq!(mismatch[0].code, "adapter.provider_id.context_mismatch");
}
