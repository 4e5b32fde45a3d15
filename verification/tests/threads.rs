use prism::content::{
    ContentBody, ContentVariant, Extensions, Provenance, ProvenanceKind, PublicationFormat,
};
use prism::ids::{
    ChannelRef, CredentialRef, IdempotencyKey, LocaleTag, NamespacedKey, ProviderId, RequestId,
    TargetId, VariantId, VoiceProfileRef,
};
use prism::provider::{ProviderPublishRequest, ProviderTargetContext};
use prism::request::{IdempotencyScope, PublishTarget, VariantSelection};
use prism::result::{DeliveryError, DeliveryErrorClass, ProviderReceipt};
use prism::threads::{
    ApiReply, MetaError, interpret_reply, retry_after_seconds, THREADS_PROVIDER_ID, ThreadsAccessToken, ThreadsBinding, ThreadsBindingError,
    ThreadsObjectId, ThreadsPublication, ThreadsStep, ThreadsTransportConfigError,
    ThreadsTransportError, ThreadsTransportErrorKind, classify_api_error, interpret_object_id,
    threads_capabilities, threads_preflight_issues, threads_validation_needs_binding,
    threads_validation_result, validate_api_base,
};
use prism::validation::ValidationIssue;

/// Reads Meta's error metadata from a response body the way the transport
/// does: a missing or malformed envelope yields the defaults.
fn meta_error(body: &[u8]) -> MetaError {
    let value: serde_json::Value = serde_json::from_slice(body).unwrap_or_default();
    let error = &value["error"];
    MetaError {
        code: error["code"].as_i64(),
        error_subcode: error["error_subcode"].as_i64(),
        is_transient: error["is_transient"].as_bool().unwrap_or(false),
    }
}

fn binding() -> ThreadsBinding {
    ThreadsBinding::new(
        ThreadsObjectId::new("123456789").expect("valid user ID"),
        ThreadsAccessToken::new("top-secret-token").expect("valid token"),
    )
}

fn request() -> ProviderPublishRequest {
    ProviderPublishRequest {
        request_id: RequestId::new("request-1").expect("valid request ID"),
        idempotency: IdempotencyScope {
            root: IdempotencyKey::new("publication-1").expect("valid idempotency key"),
            target_id: TargetId::new("threads-uk").expect("valid target ID"),
        },
        target: PublishTarget {
            id: TargetId::new("threads-uk").expect("valid target ID"),
            provider_id: ProviderId::new(THREADS_PROVIDER_ID).expect("valid provider ID"),
            channel: ChannelRef::new("personal").expect("valid channel"),
            credential: Some(CredentialRef::new("threads.personal").expect("valid credential ref")),
            selection: VariantSelection::Exact {
                variant_id: VariantId::new("uk").expect("valid variant ID"),
            },
            options: Extensions::new(),
        },
        variant: ContentVariant {
            id: VariantId::new("uk").expect("valid variant ID"),
            locale: LocaleTag::new("uk-UA").expect("valid locale"),
            voice_profile: Some(
                VoiceProfileRef::new("0x0sky.threads.uk_SP").expect("valid voice profile"),
            ),
            audience: None,
            provider_target: Some(
                ProviderId::new(THREADS_PROVIDER_ID).expect("valid provider ID"),
            ),
            format: PublicationFormat::Post,
            body: ContentBody {
                text: Some("привіт, Threads".to_owned()),
                media: Vec::new(),
            },
            provenance: Provenance {
                kind: ProvenanceKind::Human,
                producer: None,
                source_refs: Vec::new(),
            },
            extensions: Extensions::new(),
        },
    }
}

/// Publishes a request with a resolver that always yields the test binding
/// and a transport that answers the scripted results.
fn publish(
    request: &ProviderPublishRequest,
    create: Result<ThreadsObjectId, ThreadsTransportError>,
    publish: Result<ThreadsObjectId, ThreadsTransportError>,
) -> Result<ProviderReceipt, DeliveryError> {
    let mut create = Some(create);
    let mut publish = Some(publish);
    let mut publication = ThreadsPublication::start(request.clone());
    loop {
        match publication.next_step() {
            ThreadsStep::ResolveBinding => {
                let (channel, credential) = publication.binding_request().expect("references");
                assert_eq!(channel.as_str(), "personal");
                assert_eq!(credential.as_str(), "threads.personal");
                publication.supply_binding(Ok(binding()));
            }
            ThreadsStep::CreateContainer => {
                let (binding, text) = publication.container_request().expect("container input");
                assert_eq!(binding.user_id().as_str(), "123456789");
                assert_eq!(text, "привіт, Threads");
                publication.supply_container(create.take().expect("scripted create result"));
            }
            ThreadsStep::PublishContainer => {
                let (_, container_id) = publication.publish_request_for().expect("publish input");
                assert!(container_id.as_str().chars().all(|c| c.is_ascii_digit()));
                publication.supply_published(publish.take().expect("scripted publish result"));
            }
            ThreadsStep::Finished => return publication.into_outcome(),
        }
    }
}

fn container_detail(details: &Extensions) -> Option<serde_json::Value> {
    details
        .get(&NamespacedKey::new("meta.threads.container_id").expect("valid key"))
        .cloned()
}

#[test]
fn meta_auth_and_rate_limit_errors_are_classified_without_messages() {
    let auth = classify_api_error(
        400,
        meta_error(br#"{"error":{"message":"secret upstream detail","code":190}}"#),
        None,
    );
    let rate = classify_api_error(
        429,
        meta_error(br#"{"error":{"message":"quota","code":4}}"#),
        Some(60),
    );

    assert_eq!(auth.kind, ThreadsTransportErrorKind::Authentication);
    assert_eq!(auth.code, "threads.api.190");
    assert!(!format!("{auth:?}").contains("secret upstream detail"));
    assert_eq!(rate.kind, ThreadsTransportErrorKind::RateLimited);
    assert_eq!(rate.retry_after_seconds, Some(60));
}

#[test]
fn transport_rejects_plaintext_api_bases() {
    let error =
        validate_api_base("http://graph.threads.net/v1.0/").expect_err("HTTP must be rejected");

    assert_eq!(error, ThreadsTransportConfigError::InsecureBaseUrl);
}

#[test]
fn capabilities_are_an_explicit_text_only_snapshot() {
    let context = ProviderTargetContext::from_target(&request().target);
    assert_eq!(context.provider_id.as_str(), THREADS_PROVIDER_ID);
    let capabilities = threads_capabilities();

    assert_eq!(capabilities.text.max_characters, Some(500));
    assert_eq!(capabilities.media.max_items, Some(0));
    assert!(capabilities.formats.contains(&PublicationFormat::Post));
}

#[test]
fn publish_returns_redacted_receipt_metadata() {
    let receipt = publish(
        &request(),
        Ok(ThreadsObjectId::new("111").expect("valid container ID")),
        Ok(ThreadsObjectId::new("222").expect("valid post ID")),
    )
    .expect("publish succeeds");

    assert_eq!(receipt.external_id, "222");
    assert_eq!(
        receipt
            .details
            .iter()
            .first()
            .map(|(_, value)| (*value).clone()),
        Some(serde_json::Value::String("111".to_owned()))
    );
    assert!(!format!("{receipt:?}").contains("top-secret-token"));
}

#[test]
fn ambiguous_publish_is_never_marked_safe_to_retry() {
    let error = publish(
        &request(),
        Ok(ThreadsObjectId::new("111").expect("valid container ID")),
        Err(ThreadsTransportError::new(
            ThreadsTransportErrorKind::Transient,
            "threads.transport",
        )),
    )
    .err()
    .expect("publish fails");

    assert_eq!(error.class, DeliveryErrorClass::OutcomeUnknown);
    assert_eq!(
        error.details.iter().first().map(|(_, value)| (*value).clone()),
        Some(serde_json::Value::String("111".to_owned()))
    );
    assert_eq!(
        container_detail(&error.details),
        Some(serde_json::Value::String("111".to_owned()))
    );
}

#[test]
fn container_rate_limit_preserves_retry_guidance() {
    let error = publish(
        &request(),
        Err(
            ThreadsTransportError::new(ThreadsTransportErrorKind::RateLimited, "threads.api.4")
                .with_retry_after(60),
        ),
        Ok(ThreadsObjectId::new("222").expect("valid post ID")),
    )
    .err()
    .expect("publish fails");

    assert_eq!(error.class, DeliveryErrorClass::RateLimited);
    assert_eq!(error.retry_after_seconds, Some(60));
    assert!(error.details.is_empty());
}

#[test]
fn token_and_binding_debug_output_are_redacted() {
    let binding = ThreadsBinding::new(
        ThreadsObjectId::new("123").expect("valid user ID"),
        ThreadsAccessToken::new("top-secret-token").expect("valid token"),
    );

    assert_eq!(
        binding.debug_string(),
        "ThreadsBinding { user_id: ThreadsObjectId(\"123\"), access_token: ThreadsAccessToken([REDACTED]) }"
    );
}

#[test]
fn transient_container_failure_is_retryable_before_any_public_action() {
    let error = publish(
        &request(),
        Err(ThreadsTransportError::new(
            ThreadsTransportErrorKind::Transient,
            "threads.http.503",
        )),
        Ok(ThreadsObjectId::new("222").expect("valid post ID")),
    )
    .err()
    .expect("publish fails");

    assert_eq!(error.class, DeliveryErrorClass::Retryable);
    assert_eq!(
        error.message,
        "Threads container creation failed before a public action"
    );
    assert!(error.details.is_empty());
}

#[test]
fn publication_without_credential_or_text_fails_early() {
    let mut no_credential = request();
    no_credential.target.credential = None;
    let publication = ThreadsPublication::start(no_credential);
    assert_eq!(publication.next_step(), ThreadsStep::Finished);
    let error = publication.into_outcome().err().expect("auth required");
    assert_eq!(error.class, DeliveryErrorClass::AuthRequired);
    assert_eq!(error.code, "threads.credential.required");

    let mut blank_text = request();
    blank_text.variant.body.text = Some("   ".to_owned());
    let mut publication = ThreadsPublication::start(blank_text);
    assert_eq!(publication.next_step(), ThreadsStep::ResolveBinding);
    publication.supply_binding(Ok(binding()));
    assert_eq!(publication.next_step(), ThreadsStep::Finished);
    let error = publication.into_outcome().err().expect("text required");
    assert_eq!(error.class, DeliveryErrorClass::InvalidRequest);
    assert_eq!(error.code, "threads.text.required");

    let mut unresolved = ThreadsPublication::start(request());
    unresolved.supply_binding(Err(DeliveryError::new(
        DeliveryErrorClass::AuthRequired,
        "resolver.denied",
        "binding refused",
    )));
    assert_eq!(unresolved.next_step(), ThreadsStep::Finished);
    assert_eq!(
        unresolved.into_outcome().err().expect("resolver failure").code,
        "resolver.denied"
    );
}

#[test]
fn api_errors_are_classified_by_status_and_metadata() {
    let server = classify_api_error(503, meta_error(b"not json"), None);
    assert_eq!(server.kind, ThreadsTransportErrorKind::Transient);
    assert_eq!(server.code, "threads.http.503");

    let transient = classify_api_error(
        400,
        meta_error(br#"{"error":{"code":2,"error_subcode":99,"is_transient":true}}"#),
        None,
    );
    assert_eq!(transient.kind, ThreadsTransportErrorKind::Transient);
    assert_eq!(transient.code, "threads.api.2.99");

    let rejected = classify_api_error(400, meta_error(br#"{"error":{"code":100}}"#), None);
    assert_eq!(rejected.kind, ThreadsTransportErrorKind::Rejected);
    assert_eq!(rejected.code, "threads.api.100");

    let forbidden = classify_api_error(403, MetaError::default(), None);
    assert_eq!(forbidden.kind, ThreadsTransportErrorKind::Authentication);
    assert_eq!(forbidden.code, "threads.http.403");

    let negative = classify_api_error(
        400,
        MetaError {
            code: Some(-7),
            error_subcode: None,
            is_transient: false,
        },
        None,
    );
    assert_eq!(negative.code, "threads.api.-7");
    for code in [17, 32, 613] {
        let limited = classify_api_error(
            400,
            MetaError {
                code: Some(code),
                error_subcode: None,
                is_transient: false,
            },
            None,
        );
        assert_eq!(limited.kind, ThreadsTransportErrorKind::RateLimited);
    }
}

#[test]
fn api_bases_must_be_plain_https_bases() {
    assert!(validate_api_base("https://graph.threads.net/v1.0/").is_ok());
    assert_eq!(
        validate_api_base("not a url"),
        Err(ThreadsTransportConfigError::InvalidBaseUrl)
    );
    assert_eq!(
        validate_api_base("https://user:pw@graph.threads.net/v1.0/"),
        Err(ThreadsTransportConfigError::InvalidBaseUrl)
    );
    assert_eq!(
        validate_api_base("https://graph.threads.net/v1.0/?debug=1"),
        Err(ThreadsTransportConfigError::InvalidBaseUrl)
    );
    assert_eq!(
        validate_api_base("https://graph.threads.net/v1.0/#top"),
        Err(ThreadsTransportConfigError::InvalidBaseUrl)
    );
    assert_eq!(
        validate_api_base("data:text/plain,hello"),
        Err(ThreadsTransportConfigError::InsecureBaseUrl)
    );
}

#[test]
fn tokens_and_object_ids_are_validated() {
    assert_eq!(
        ThreadsAccessToken::new("").err(),
        Some(ThreadsBindingError::InvalidAccessToken)
    );
    assert_eq!(
        ThreadsAccessToken::new("has space").err(),
        Some(ThreadsBindingError::InvalidAccessToken)
    );
    assert_eq!(
        ThreadsAccessToken::new("a\u{7}b").err(),
        Some(ThreadsBindingError::InvalidAccessToken)
    );
    assert_eq!(
        ThreadsAccessToken::new("a\u{9f}b").err(),
        Some(ThreadsBindingError::InvalidAccessToken)
    );
    assert!(ThreadsAccessToken::new(&"t".repeat(8192)).is_ok());
    assert!(ThreadsAccessToken::new(&"t".repeat(8193)).is_err());
    assert_eq!(
        ThreadsAccessToken::new("abc").expect("valid").debug_string(),
        "ThreadsAccessToken([REDACTED])"
    );
    assert_eq!(
        ThreadsObjectId::new("12a").err(),
        Some(ThreadsBindingError::InvalidObjectId)
    );
    assert!(ThreadsObjectId::new(&"1".repeat(64)).is_ok());
    assert!(ThreadsObjectId::new(&"1".repeat(65)).is_err());
    let malformed = interpret_object_id("abc").err().expect("malformed ID");
    assert_eq!(malformed.kind, ThreadsTransportErrorKind::InvalidResponse);
    assert_eq!(malformed.code, "threads.response.invalid_object_id");
    assert_eq!(
        interpret_object_id("17841400000000").expect("valid").as_str(),
        "17841400000000"
    );
}

#[test]
fn preflight_flags_missing_credential_and_every_option() {
    let mut request = request();
    request.target.credential = None;
    request.target.options.insert(
        NamespacedKey::new("meta.threads.reply_control").expect("valid key"),
        serde_json::Value::Bool(true),
    );
    let issues = threads_preflight_issues(&request);
    let codes: Vec<&str> = issues.iter().map(|issue| issue.code.as_str()).collect();
    assert_eq!(
        codes,
        vec!["threads.credential.required", "threads.option.unsupported"]
    );
    assert_eq!(issues[0].path, "/targets/threads-uk/credential");
    assert_eq!(
        issues[1].path,
        "/targets/threads-uk/options/meta.threads.reply_control"
    );
}

#[test]
fn retry_after_headers_are_read_as_unsigned_decimals() {
    assert_eq!(retry_after_seconds(None), None);
    assert_eq!(retry_after_seconds(Some(b"60")), Some(60));
    assert_eq!(retry_after_seconds(Some(b"+7")), Some(7));
    assert_eq!(retry_after_seconds(Some(b"0")), Some(0));
    assert_eq!(
        retry_after_seconds(Some(b"18446744073709551615")),
        Some(u64::MAX)
    );
    assert_eq!(retry_after_seconds(Some(b"18446744073709551616")), None);
    assert_eq!(retry_after_seconds(Some(b"")), None);
    assert_eq!(retry_after_seconds(Some(b"+")), None);
    assert_eq!(retry_after_seconds(Some(b"-1")), None);
    assert_eq!(retry_after_seconds(Some(b" 60")), None);
    assert_eq!(
        retry_after_seconds(Some(b"Wed, 21 Oct 2015 07:28:00 GMT")),
        None
    );
}

#[test]
fn api_replies_are_interpreted_without_raw_content() {
    let ok = interpret_reply(ApiReply::Received {
        status: 200,
        retry_after_seconds: None,
        id: Some("17841400000000".to_owned()),
        meta: MetaError::default(),
    })
    .expect("object ID");
    assert_eq!(ok.as_str(), "17841400000000");

    let no_id = interpret_reply(ApiReply::Received {
        status: 201,
        retry_after_seconds: None,
        id: None,
        meta: MetaError::default(),
    })
    .err()
    .expect("invalid JSON");
    assert_eq!(no_id.kind, ThreadsTransportErrorKind::InvalidResponse);
    assert_eq!(no_id.code, "threads.response.invalid_json");

    let bad_id = interpret_reply(ApiReply::Received {
        status: 200,
        retry_after_seconds: None,
        id: Some("not-a-number".to_owned()),
        meta: MetaError::default(),
    })
    .err()
    .expect("invalid ID");
    assert_eq!(bad_id.code, "threads.response.invalid_object_id");

    let limited = interpret_reply(ApiReply::Received {
        status: 429,
        retry_after_seconds: Some(30),
        id: None,
        meta: MetaError::default(),
    })
    .err()
    .expect("rate limited");
    assert_eq!(limited.kind, ThreadsTransportErrorKind::RateLimited);
    assert_eq!(limited.code, "threads.http.429");
    assert_eq!(limited.retry_after_seconds, Some(30));

    let unsent = interpret_reply(ApiReply::NoResponse).err().expect("unsent");
    assert_eq!(unsent.kind, ThreadsTransportErrorKind::Transient);
    assert_eq!(unsent.code, "threads.transport");
    let unreadable = interpret_reply(ApiReply::UnreadableBody).err().expect("unreadable");
    assert_eq!(unreadable.code, "threads.response.unreadable");
    let unusable = interpret_reply(ApiReply::UnusableBase).err().expect("unusable base");
    assert_eq!(unusable.code, "threads.transport.invalid_base_url");
}

#[test]
fn provider_validation_resolves_the_binding_only_when_nothing_blocks() {
    let warning = vec![ValidationIssue::warning("w", "/p", "m")];
    let blocking = vec![ValidationIssue::error("e", "/p", "m")];
    assert!(threads_validation_needs_binding(&warning));
    assert!(!threads_validation_needs_binding(&blocking));

    let ok = threads_validation_result(warning.clone(), Some(Ok(binding()))).expect("issues");
    assert_eq!(ok, warning);
    let failure = DeliveryError::new(DeliveryErrorClass::AuthRequired, "threads.binding_unavailable", "no binding");
    let err = threads_validation_result(warning.clone(), Some(Err(failure)))
        .expect_err("binding failure");
    assert_eq!(err.class, DeliveryErrorClass::AuthRequired);
    assert_eq!(err.code, "threads.binding_unavailable");
    let blocked = threads_validation_result(blocking.clone(), None).expect("issues");
    assert_eq!(blocked, blocking);
}
