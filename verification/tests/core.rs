use prism::capabilities::{
    AltTextCapabilities, MediaCapabilities, ProviderCapabilities, TextCapabilities,
};
use prism::content::{
    Audience, ContentBody, ContentVariant, Extensions, Media, MediaKind, Provenance,
    ProvenanceKind, PublicationFormat,
};
use prism::ids::{
    ChannelRef, IdempotencyKey, LocaleTag, MediaRef, NamespacedKey, ProviderId, TargetId,
    VariantId, VoiceProfileRef,
};
use prism::request::{
    DispatchPolicy, IdempotencyScope, PublishRequest, PublishTarget, VariantSelection,
    default_dispatch_policy,
};
use prism::validation::{ValidationIssue, ValidationSeverity, any_error};

fn provider(id: &str) -> ProviderId {
    ProviderId::new(id).expect("valid provider ID")
}

fn key(k: &str) -> NamespacedKey {
    NamespacedKey::new(k).expect("valid key")
}

fn text_variant(text: &str) -> ContentVariant {
    ContentVariant {
        id: VariantId::new("uk").expect("valid variant ID"),
        locale: LocaleTag::new("uk-UA").expect("valid locale"),
        voice_profile: None,
        audience: None,
        provider_target: None,
        format: PublicationFormat::Post,
        body: ContentBody {
            text: Some(text.to_owned()),
            media: Vec::new(),
        },
        provenance: Provenance {
            kind: ProvenanceKind::Human,
            producer: None,
            source_refs: Vec::new(),
        },
        extensions: Extensions::new(),
    }
}

fn text_only_capabilities(max_characters: Option<u32>) -> ProviderCapabilities {
    ProviderCapabilities {
        provider_id: provider("test.fake"),
        revision: None,
        formats: vec![PublicationFormat::Post],
        text: TextCapabilities {
            supported: true,
            max_characters,
        },
        media: MediaCapabilities {
            supported_kinds: Vec::new(),
            max_items: Some(0),
            mixed_kinds: false,
            alt_text: AltTextCapabilities {
                supported: false,
                max_characters: None,
            },
        },
        extensions: Extensions::new(),
    }
}

fn variant(id: &str, provider_target: Option<&str>) -> ContentVariant {
    ContentVariant {
        id: VariantId::new(id).expect("valid variant ID"),
        locale: LocaleTag::new("uk-UA").expect("valid locale"),
        voice_profile: Some(
            VoiceProfileRef::new("0x0sky.instagram.uk_SP").expect("valid voice profile"),
        ),
        audience: None,
        provider_target: provider_target.map(provider),
        format: PublicationFormat::Post,
        body: ContentBody {
            text: Some("привіт".to_owned()),
            media: Vec::new(),
        },
        provenance: Provenance {
            kind: ProvenanceKind::Human,
            producer: None,
            source_refs: Vec::new(),
        },
        extensions: Extensions::new(),
    }
}

fn threads_target(selection: VariantSelection, options: Extensions) -> PublishTarget {
    PublishTarget {
        id: TargetId::new("threads-uk").expect("valid target ID"),
        provider_id: provider("meta.threads"),
        channel: ChannelRef::new("personal").expect("valid channel"),
        credential: None,
        selection,
        options,
    }
}

fn codes(issues: &[ValidationIssue]) -> Vec<&str> {
    issues.iter().map(|issue| issue.code.as_str()).collect()
}

#[test]
fn locale_accepts_bcp47_and_rejects_style_profiles() {
    assert!(LocaleTag::new("uk-UA").is_ok());
    assert!(LocaleTag::new("en-GB").is_ok());
    assert!(LocaleTag::new("uk_SP").is_err());
}

#[test]
fn provider_and_extension_namespaces_are_strict() {
    let provider = ProviderId::new("meta.instagram").expect("valid provider ID");
    let key = NamespacedKey::new("meta.instagram.location_id").expect("valid key");
    assert!(key.is_scoped_to(&provider));
    assert!(ProviderId::new("Meta.Instagram").is_err());
    assert!(NamespacedKey::new("location_id").is_err());
}

#[test]
fn secret_bearing_options_are_detected() {
    let key = NamespacedKey::new("meta.instagram.access_token").expect("valid key");
    assert!(key.looks_secret_bearing());
}

#[test]
fn text_limit_uses_characters_not_utf8_bytes() {
    let capabilities = text_only_capabilities(Some(3));
    assert!(capabilities.validate_variant(&text_variant("три")).is_empty());
    assert_eq!(capabilities.validate_variant(&text_variant("чотири")).len(), 1);
}

#[test]
fn ordered_selection_skips_provider_incompatible_variant() {
    let target = threads_target(
        VariantSelection::Ordered {
            variant_ids: vec![
                VariantId::new("instagram").expect("valid variant ID"),
                VariantId::new("generic").expect("valid variant ID"),
            ],
        },
        Extensions::new(),
    );
    let request = PublishRequest {
        idempotency_key: IdempotencyKey::new("publication-1").expect("valid key"),
        dispatch_policy: DispatchPolicy::RequireAllValid,
        variants: vec![
            variant("instagram", Some("meta.instagram")),
            variant("generic", None),
        ],
        targets: vec![target.clone()],
    };

    assert_eq!(
        request
            .resolve_variant(&target)
            .expect("eligible variant")
            .id
            .as_str(),
        "generic"
    );
    assert!(request.structural_issues().is_empty());
}

#[test]
fn provider_options_cannot_smuggle_tokens() {
    let mut options = Extensions::new();
    options.insert(
        "meta.threads.access_token".parse().expect("valid key"),
        serde_json::Value::String("redacted-test-value".to_owned()),
    );
    let request = PublishRequest {
        idempotency_key: IdempotencyKey::new("publication-1").expect("valid key"),
        dispatch_policy: DispatchPolicy::Independent,
        variants: vec![variant("generic", None)],
        targets: vec![threads_target(
            VariantSelection::Exact {
                variant_id: VariantId::new("generic").expect("valid variant ID"),
            },
            options,
        )],
    };

    assert!(
        request
            .structural_issues()
            .iter()
            .any(|issue| issue.code == "extension.secret_prohibited")
    );
}

#[test]
fn locale_tags_are_canonicalized() {
    assert_eq!(LocaleTag::new("en-us").expect("valid locale").as_str(), "en-US");
    assert_eq!(LocaleTag::new("uk-UA").expect("valid locale").as_str(), "uk-UA");
    assert_eq!(
        LocaleTag::new("uk_SP").expect_err("style profile").kind(),
        "locale tag"
    );
}

#[test]
fn reference_errors_name_kind_and_reason() {
    let empty = ProviderId::new("").expect_err("empty");
    assert_eq!(empty.kind(), "provider ID");
    assert_eq!(empty.message(), "invalid provider ID: must not be empty");
    assert!(ProviderId::new(" meta.threads").is_err());
    assert!(ProviderId::new("meta..threads").is_err());
    assert!(ProviderId::new("meta.Threads").is_err());
    assert!(ProviderId::new("meta.9threads").is_ok());
    assert!(ProviderId::new("meta.threads_v2").is_ok());
    assert!(ChannelRef::new(" personal").is_err());
    assert!(ChannelRef::new("personal\u{7}").is_err());
    assert!(ChannelRef::new("channel with space").is_ok());
    assert!(ChannelRef::new("personal:uk").is_ok());
    assert_eq!(
        MediaRef::new(&"m".repeat(257)).expect_err("too long").reason(),
        "is longer than 256 bytes"
    );
    assert!(MediaRef::new(&"m".repeat(256)).is_ok());
    assert!(MediaRef::new(&"я".repeat(129)).is_err());
}

#[test]
fn scoping_requires_the_provider_prefix_and_a_further_segment() {
    let threads = provider("meta.threads");
    assert!(key("meta.threads.reply_control").is_scoped_to(&threads));
    assert!(!key("meta.threadsx.reply_control").is_scoped_to(&threads));
    assert!(!key("meta.instagram.location_id").is_scoped_to(&threads));
    assert!(key("x.client_secret").looks_secret_bearing());
    assert!(key("x.refresh-token").looks_secret_bearing());
    assert!(key("x.token").looks_secret_bearing());
    assert!(!key("x.tokenizer").looks_secret_bearing());
    assert!(!key("x.api_key_hint").looks_secret_bearing());
    assert!(!key("x.location_id").looks_secret_bearing());
}

#[test]
fn extensions_keep_keys_ordered_and_read_back_writes() {
    let mut extensions = Extensions::new();
    assert!(extensions.is_empty());
    assert!(
        extensions
            .insert(key("b.second"), serde_json::Value::Bool(true))
            .is_none()
    );
    assert!(
        extensions
            .insert(key("a.first"), serde_json::Value::Bool(false))
            .is_none()
    );
    let previous = extensions.insert(key("b.second"), serde_json::Value::Bool(false));
    assert_eq!(previous, Some(serde_json::Value::Bool(true)));
    assert_eq!(extensions.len(), 2);
    assert_eq!(extensions.key_at(0).as_str(), "a.first");
    assert_eq!(extensions.key_at(1).as_str(), "b.second");
    assert_eq!(
        extensions.get(&key("b.second")),
        Some(&serde_json::Value::Bool(false))
    );
    assert_eq!(extensions.get(&key("c.third")), None);

    let from_pairs = Extensions::from_pairs(vec![
        (key("z.last"), serde_json::Value::Bool(true)),
        (key("a.first"), serde_json::Value::Bool(true)),
        (key("z.last"), serde_json::Value::Bool(false)),
    ]);
    assert_eq!(from_pairs.len(), 2);
    assert_eq!(from_pairs.key_at(0).as_str(), "a.first");
    assert_eq!(
        from_pairs.get(&key("z.last")),
        Some(&serde_json::Value::Bool(false))
    );
}

#[test]
fn content_body_counts_characters_and_detects_emptiness() {
    let body = ContentBody {
        text: Some("привіт".to_owned()),
        media: Vec::new(),
    };
    assert_eq!(body.text_character_count(), 6);
    assert!(!body.is_empty());
    let blank = ContentBody {
        text: Some(" \t\n".to_owned()),
        media: Vec::new(),
    };
    assert!(blank.is_empty());
    let none = ContentBody {
        text: None,
        media: Vec::new(),
    };
    assert!(none.is_empty());
    assert_eq!(none.text_character_count(), 0);
}

#[test]
fn variant_provider_targeting() {
    let generic = variant("generic", None);
    let instagram = variant("instagram", Some("meta.instagram"));
    assert!(generic.supports_provider(&provider("meta.threads")));
    assert!(instagram.supports_provider(&provider("meta.instagram")));
    assert!(!instagram.supports_provider(&provider("meta.threads")));
}

#[test]
fn validation_issue_constructors() {
    let error = ValidationIssue::error("a.code", "/a", "message");
    let warning = ValidationIssue::warning("w.code", "/w", "note");
    assert!(error.is_error());
    assert!(!warning.is_error());
    assert_eq!(warning.severity, ValidationSeverity::Warning);
    assert!(!any_error(&vec![warning.clone()]));
    assert!(any_error(&vec![warning, error]));
}

#[test]
fn capability_checks_report_each_violation() {
    let capabilities = ProviderCapabilities {
        provider_id: provider("test.fake"),
        revision: None,
        formats: vec![PublicationFormat::Post],
        text: TextCapabilities {
            supported: true,
            max_characters: Some(100),
        },
        media: MediaCapabilities {
            supported_kinds: vec![MediaKind::Image],
            max_items: Some(1),
            mixed_kinds: false,
            alt_text: AltTextCapabilities {
                supported: true,
                max_characters: Some(3),
            },
        },
        extensions: Extensions::new(),
    };
    let media = |kind: MediaKind, alt: &str| Media {
        reference: MediaRef::new("media-1").expect("valid media ref"),
        kind,
        mime_type: None,
        alt_text: Some(alt.to_owned()),
        extensions: Extensions::new(),
    };
    let mut variant = text_variant("привіт");
    variant.format = PublicationFormat::Story;
    variant.body.media = vec![media(MediaKind::Video, "опис"), media(MediaKind::Image, "ok")];
    let issues = capabilities.validate_variant(&variant);
    assert_eq!(
        codes(&issues),
        vec![
            "capability.format.unsupported",
            "capability.media.too_many_items",
            "capability.media.mixed_kinds_unsupported",
            "capability.media.kind_unsupported",
            "capability.media.alt_text_too_long",
        ]
    );
    assert_eq!(issues[3].path, "/variants/uk/body/media/0/kind");

    let mut text_too_long = text_variant("привіт");
    text_too_long.body.text = Some("x".repeat(101));
    let issues = capabilities.validate_variant(&text_too_long);
    assert_eq!(codes(&issues), vec!["capability.text.too_long"]);
}

#[test]
fn structural_issues_cover_empty_and_duplicate_parts() {
    let empty = PublishRequest {
        idempotency_key: IdempotencyKey::new("publication-1").expect("valid key"),
        dispatch_policy: default_dispatch_policy(),
        variants: Vec::new(),
        targets: Vec::new(),
    };
    assert_eq!(
        codes(&empty.structural_issues()),
        vec!["request.variants.empty", "request.targets.empty"]
    );

    let exact = |id: &str| VariantSelection::Exact {
        variant_id: VariantId::new(id).expect("valid variant ID"),
    };
    let mut audience_variant = variant("generic", None);
    audience_variant.audience = Some(Audience {
        country: Some("ukr".to_owned()),
        region: None,
        city: None,
        segment: None,
    });
    let request = PublishRequest {
        idempotency_key: IdempotencyKey::new("publication-1").expect("valid key"),
        dispatch_policy: DispatchPolicy::Independent,
        variants: vec![audience_variant, variant("generic", None)],
        targets: vec![
            threads_target(exact("generic"), Extensions::new()),
            threads_target(exact("missing"), Extensions::new()),
        ],
    };
    let issues = request.structural_issues();
    let found = codes(&issues);
    assert!(found.contains(&"request.variant_id.duplicate"));
    assert!(found.contains(&"audience.country.invalid"));
    assert!(found.contains(&"request.target_id.duplicate"));
    assert!(found.contains(&"selection.no_eligible_variant"));
}

#[test]
fn idempotency_scope_is_root_and_target() {
    let scope = IdempotencyScope {
        root: IdempotencyKey::new("publication-42").expect("valid key"),
        target_id: TargetId::new("target-valid").expect("valid target ID"),
    };
    assert_eq!(scope.stable_string(), "publication-42:target-valid");
    let target = threads_target(
        VariantSelection::Exact {
            variant_id: VariantId::new("generic").expect("valid variant ID"),
        },
        Extensions::new(),
    );
    let request = PublishRequest {
        idempotency_key: IdempotencyKey::new("publication-1").expect("valid key"),
        dispatch_policy: DispatchPolicy::Independent,
        variants: vec![variant("generic", None)],
        targets: vec![target.clone()],
    };
    assert_eq!(
        request.idempotency_scope(&target).stable_string(),
        "publication-1:threads-uk"
    );
    assert_eq!(
        VariantSelection::Ordered {
            variant_ids: vec![
                VariantId::new("a").expect("valid"),
                VariantId::new("b").expect("valid")
            ]
        }
        .candidates()
        .len(),
        2
    );
}

#[test]
fn unresolvable_selection_is_a_typed_issue() {
    let target = threads_target(
        VariantSelection::Exact {
            variant_id: VariantId::new("instagram").expect("valid variant ID"),
        },
        Extensions::new(),
    );
    let request = PublishRequest {
        idempotency_key: IdempotencyKey::new("publication-1").expect("valid key"),
        dispatch_policy: DispatchPolicy::Independent,
        variants: vec![variant("instagram", Some("meta.instagram"))],
        targets: vec![target.clone()],
    };
    let issue = request.resolve_variant(&target).err().expect("no eligible variant");
    assert_eq!(issue.code, "selection.no_eligible_variant");
    assert_eq!(issue.path, "/targets/threads-uk/selection");
    assert!(issue.is_error());
}
