//! Decisions of the text publishing adapter for the official Threads API.
//!
//! The adapter's network calls, credential resolution and waiting are done by
//! its driver; everything it decides from their results is here.

use vstd::prelude::*;

use crate::capabilities::{AltTextCapabilities, MediaCapabilities, ProviderCapabilities, TextCapabilities};
use crate::content::{Extensions, PublicationFormat, is_blank, lookup};
use crate::ids::{ChannelRef, CredentialRef, NamespacedKey, ProviderId, lemma_plain_dotted_valid};
use crate::json::{json_bool, json_bool_value, json_string, json_string_value};
use crate::provider::ProviderPublishRequest;
use crate::result::{DeliveryError, DeliveryErrorClass, ProviderReceipt};
use crate::text::{
    blank, chars_eq, chars_of, char_is_control, char_is_white_space, is_control_char, decimal, is_ascii_digit, is_white_space, owned,
    push_decimal, push_str, utf8_len, utf8_longer_than,
};
use crate::validation::{IssueView, ValidationIssue, any_error, error_issue, has_error, issue_views};

verus! {

broadcast use vstd::seq_lib::group_seq_properties;

/// Stable Prism provider identifier for Threads.
pub const THREADS_PROVIDER_ID: &'static str = "meta.threads";

/// The official production API base.
pub const DEFAULT_API_BASE: &'static str = "https://graph.threads.net/v1.0/";

/// The Threads provider identifier.
pub fn threads_provider_id() -> (r: ProviderId)
    ensures
        r@ == THREADS_PROVIDER_ID@,
{
    proof {
        reveal_strlit("meta.threads");
        lemma_plain_dotted_valid("meta.threads"@, false);
    }
    ProviderId::from_valid(THREADS_PROVIDER_ID)
}

/// The detail key under which the container of a post is reported.
pub fn container_id_key() -> (r: NamespacedKey)
    ensures
        r@ == "meta.threads.container_id"@,
{
    proof {
        reveal_strlit("meta.threads.container_id");
        assert("meta.threads.container_id"@[4] == '.');
        lemma_plain_dotted_valid("meta.threads.container_id"@, true);
    }
    NamespacedKey::from_valid("meta.threads.container_id")
}

/// The capability key telling whether publishing is natively idempotent.
pub fn native_idempotency_key() -> (r: NamespacedKey)
    ensures
        r@ == "meta.threads.native_idempotency"@,
{
    proof {
        reveal_strlit("meta.threads.native_idempotency");
        assert("meta.threads.native_idempotency"@[4] == '.');
        lemma_plain_dotted_valid("meta.threads.native_idempotency"@, true);
    }
    NamespacedKey::from_valid("meta.threads.native_idempotency")
}

/// Invalid provider binding or object identifier.
#[derive(Clone, Copy, Debug, PartialEq, Eq, Structural)]
pub enum ThreadsBindingError {
    /// Token is empty, unreasonably large, or contains white space or control
    /// characters.
    InvalidAccessToken,
    /// Provider object identifier is not a bounded decimal string.
    InvalidObjectId,
}

/// Whether a token is rejected: empty, over 8192 bytes, or with a white
/// space or control character.
pub open spec fn bad_token(s: Seq<char>) -> bool {
    s.len() == 0 || utf8_len(s) > 8192 || exists|i: int|
        0 <= i < s.len() && (is_white_space(#[trigger] s[i]) || is_control_char(s[i]))
}

/// Secret Threads user access token; it never renders its value.
pub struct ThreadsAccessToken(String);

impl View for ThreadsAccessToken {
    type V = Seq<char>;

    closed spec fn view(&self) -> Seq<char> {
        self.0@
    }
}

impl ThreadsAccessToken {
    /// Wraps a non-empty access token without exposing it through formatting.
    pub fn new(value: &str) -> (r: Result<Self, ThreadsBindingError>)
        ensures
            bad_token(value@) ==> r == Err::<Self, ThreadsBindingError>(ThreadsBindingError::InvalidAccessToken),
            !bad_token(value@) ==> (r matches Ok(t) && t@ == value@),
    {
        let chars = chars_of(value);
        if chars.len() == 0 || utf8_longer_than(&chars, 8192) {
            return Err(ThreadsBindingError::InvalidAccessToken);
        }
        let mut i: usize = 0;
        while i < chars.len()
            invariant
                chars@ == value@,
                chars@.len() > 0,
                utf8_len(value@) <= 8192,
                0 <= i <= chars.len(),
                forall|j: int| 0 <= j < i ==> !is_white_space(#[trigger] chars@[j]) && !is_control_char(chars@[j]),
            decreases chars.len() - i,
        {
            if char_is_white_space(chars[i]) || char_is_control(chars[i]) {
                assert(is_white_space(value@[i as int]) || is_control_char(value@[i as int]));
                return Err(ThreadsBindingError::InvalidAccessToken);
            }
            i = i + 1;
        }
        Ok(ThreadsAccessToken(owned(value)))
    }

    /// The token itself, for the transport's authorization header only.
    pub fn expose_secret(&self) -> (r: &str)
        ensures
            r@ == self@,
    {
        self.0.as_str()
    }

    /// Debug rendering, which never shows the token.
    pub fn debug_string(&self) -> (r: String)
        ensures
            r@ == "ThreadsAccessToken([REDACTED])"@,
    {
        owned("ThreadsAccessToken([REDACTED])")
    }
}

/// Whether an object identifier is rejected: empty, over 64 bytes, or with a
/// character other than an ASCII digit.
pub open spec fn bad_object_id(s: Seq<char>) -> bool {
    s.len() == 0 || utf8_len(s) > 64 || exists|i: int| 0 <= i < s.len() && !is_ascii_digit(
        #[trigger] s[i],
    )
}

/// Validated Threads object identifier returned by the provider.
#[derive(Debug, PartialEq, Eq)]
pub struct ThreadsObjectId(String);

impl View for ThreadsObjectId {
    type V = Seq<char>;

    closed spec fn view(&self) -> Seq<char> {
        self.0@
    }
}

impl Clone for ThreadsObjectId {
    fn clone(&self) -> (r: Self)
        ensures
            r == *self,
    {
        ThreadsObjectId(self.0.clone())
    }
}

impl ThreadsObjectId {
    /// Creates an identifier. Threads object IDs are decimal strings.
    pub fn new(value: &str) -> (r: Result<Self, ThreadsBindingError>)
        ensures
            bad_object_id(value@) ==> r == Err::<Self, ThreadsBindingError>(ThreadsBindingError::InvalidObjectId),
            !bad_object_id(value@) ==> (r matches Ok(t) && t@ == value@),
    {
        let chars = chars_of(value);
        if chars.len() == 0 || utf8_longer_than(&chars, 64) {
            return Err(ThreadsBindingError::InvalidObjectId);
        }
        let mut i: usize = 0;
        while i < chars.len()
            invariant
                chars@ == value@,
                chars@.len() > 0,
                utf8_len(value@) <= 64,
                0 <= i <= chars.len(),
                forall|j: int| 0 <= j < i ==> is_ascii_digit(#[trigger] chars@[j]),
            decreases chars.len() - i,
        {
            let c = chars[i];
            if !('0' <= c && c <= '9') {
                assert(!is_ascii_digit(value@[i as int]));
                return Err(ThreadsBindingError::InvalidObjectId);
            }
            i = i + 1;
        }
        Ok(ThreadsObjectId(owned(value)))
    }

    /// Returns the provider identifier as a string slice.
    pub fn as_str(&self) -> (r: &str)
        ensures
            r@ == self@,
    {
        self.0.as_str()
    }

    /// Debug rendering: `ThreadsObjectId("…")`.
    pub fn debug_string(&self) -> (r: String)
        ensures
            r@ == "ThreadsObjectId(\""@ + self@ + "\")"@,
    {
        let mut s = owned("ThreadsObjectId(\"");
        push_str(&mut s, self.0.as_str());
        push_str(&mut s, "\")");
        s
    }
}

/// Resolved provider binding kept entirely inside the Threads adapter.
pub struct ThreadsBinding {
    user_id: ThreadsObjectId,
    access_token: ThreadsAccessToken,
}

impl ThreadsBinding {
    pub closed spec fn user_id_view(&self) -> Seq<char> {
        self.user_id@
    }

    pub closed spec fn token_view(&self) -> Seq<char> {
        self.access_token@
    }

    /// Creates a resolved Threads user/token binding.
    pub fn new(user_id: ThreadsObjectId, access_token: ThreadsAccessToken) -> (r: Self)
        ensures
            r.user_id_view() == user_id@,
            r.token_view() == access_token@,
    {
        ThreadsBinding { user_id, access_token }
    }

    /// Returns the resolved Threads user ID.
    pub fn user_id(&self) -> (r: &ThreadsObjectId)
        ensures
            r@ == self.user_id_view(),
    {
        &self.user_id
    }

    /// Returns the token, for the transport only.
    pub fn access_token(&self) -> (r: &ThreadsAccessToken)
        ensures
            r@ == self.token_view(),
    {
        &self.access_token
    }

    /// Debug rendering, which shows the user but never the token.
    pub fn debug_string(&self) -> (r: String)
        ensures
            r@ == "ThreadsBinding { user_id: "@ + ("ThreadsObjectId(\""@ + self.user_id_view()
                + "\")"@) + ", access_token: "@ + "ThreadsAccessToken([REDACTED])"@ + " }"@,
    {
        let mut s = owned("ThreadsBinding { user_id: ");
        let user = self.user_id.debug_string();
        push_str(&mut s, user.as_str());
        push_str(&mut s, ", access_token: ");
        let token = self.access_token.debug_string();
        push_str(&mut s, token.as_str());
        push_str(&mut s, " }");
        s
    }
}

/// Safe provider transport failure category.
#[derive(Clone, Copy, Debug, PartialEq, Eq, Structural)]
pub enum ThreadsTransportErrorKind {
    /// Token is missing, expired, or lacks required scopes.
    Authentication,
    /// Provider rejected the call because a quota is exhausted.
    RateLimited,
    /// Provider returned a deterministic request rejection.
    Rejected,
    /// Transport or provider failure that may be transient.
    Transient,
    /// A successful response could not be interpreted safely.
    InvalidResponse,
}

/// Redacted error returned by a Threads transport implementation.
#[derive(Debug, PartialEq, Eq)]
pub struct ThreadsTransportError {
    /// Stable category used by the adapter's stage-aware mapping.
    pub kind: ThreadsTransportErrorKind,
    /// Safe stable code without raw provider content.
    pub code: String,
    /// Optional retry guidance from the provider.
    pub retry_after_seconds: Option<u64>,
}

impl Clone for ThreadsTransportError {
    fn clone(&self) -> (r: Self)
        ensures
            r == *self,
    {
        ThreadsTransportError {
            kind: self.kind,
            code: self.code.clone(),
            retry_after_seconds: self.retry_after_seconds,
        }
    }
}

impl ThreadsTransportError {
    /// Creates a redacted transport error.
    pub fn new(kind: ThreadsTransportErrorKind, code: &str) -> (r: Self)
        ensures
            r.kind == kind,
            r.code@ == code@,
            r.retry_after_seconds is None,
    {
        ThreadsTransportError { kind, code: owned(code), retry_after_seconds: None }
    }

    /// Adds provider retry guidance.
    pub fn with_retry_after(self, seconds: u64) -> (r: Self)
        ensures
            r.kind == self.kind,
            r.code == self.code,
            r.retry_after_seconds == Some(seconds),
    {
        let mut r = self;
        r.retry_after_seconds = Some(seconds);
        r
    }
}

/// The capability snapshot of the text-only adapter: posts of at most 500
/// characters, no media, no native idempotency.
pub fn threads_capabilities() -> (r: ProviderCapabilities)
    ensures
        r.provider_id@ == THREADS_PROVIDER_ID@,
        r.revision matches Some(v) && v@ == "threads-posts.text-v1"@,
        r.wf(),
        r.formats@ == seq![PublicationFormat::Post],
        r.text == (TextCapabilities { supported: true, max_characters: Some(500) }),
        r.media.supported_kinds@.len() == 0,
        r.media.max_items == Some(0u16),
        !r.media.mixed_kinds,
        r.media.alt_text == (AltTextCapabilities { supported: false, max_characters: None }),
        r.extensions.wf(),
        lookup(r.extensions@, "meta.threads.native_idempotency"@) == Some(json_bool(false)),
        forall|k: Seq<char>| k != "meta.threads.native_idempotency"@ ==> lookup(r.extensions@, k) is None,
{
    let mut extensions = Extensions::new();
    let key = native_idempotency_key();
    let value = json_bool_value(false);
    extensions.insert(key, value);
    assert forall|k: Seq<char>| k != "meta.threads.native_idempotency"@ implies lookup(extensions@, k) is None by {
        crate::content::lemma_lookup_absent(Seq::<(Seq<char>, serde_json::Value)>::empty(), k);
    }
    ProviderCapabilities {
        provider_id: threads_provider_id(),
        revision: Some(owned("threads-posts.text-v1")),
        formats: vec![PublicationFormat::Post],
        text: TextCapabilities { supported: true, max_characters: Some(500) },
        media: MediaCapabilities {
            supported_kinds: Vec::new(),
            max_items: Some(0),
            mixed_kinds: false,
            alt_text: AltTextCapabilities { supported: false, max_characters: None },
        },
        extensions,
    }
}


/// Issues for the options of a Threads target, in key order: the adapter
/// implements none.
pub open spec fn option_issues(e: Seq<(Seq<char>, serde_json::Value)>, target_id: Seq<char>) -> Seq<IssueView>
    decreases e.len(),
{
    if e.len() == 0 {
        Seq::empty()
    } else {
        option_issues(e.drop_last(), target_id).push(
            error_issue(
                "threads.option.unsupported"@,
                "/targets/"@ + target_id + "/options/"@ + e.last().0,
                "this Threads adapter version does not implement provider options"@,
            ),
        )
    }
}

/// The adapter's own preflight issues for a request: a missing credential,
/// then one issue per provider option.
pub open spec fn preflight_issues(request: ProviderPublishRequest) -> Seq<IssueView> {
    let t = request.target;
    (if t.credential is None {
        seq![
            error_issue(
                "threads.credential.required"@,
                "/targets/"@ + t.id@ + "/credential"@,
                "Threads publishing requires a configured credential reference"@,
            ),
        ]
    } else {
        Seq::empty()
    }) + option_issues(t.options@, t.id@)
}

/// Whether provider-native validation resolves the target's binding: only
/// when no error issue already blocks the request.
pub fn threads_validation_needs_binding(issues: &Vec<ValidationIssue>) -> (r: bool)
    ensures
        r == !has_error(issue_views(issues@)),
{
    !any_error(issues)
}

/// The answer of provider-native validation: the preflight issues, unless
/// the binding resolution, made when no error issue blocks the request,
/// failed; then its error.
pub fn threads_validation_result(
    issues: Vec<ValidationIssue>,
    resolved: Option<Result<ThreadsBinding, DeliveryError>>,
) -> (r: Result<Vec<ValidationIssue>, DeliveryError>)
    ensures
        has_error(issue_views(issues@)) ==> (r matches Ok(v) && v@ == issues@),
        !has_error(issue_views(issues@)) ==> match resolved {
            Some(Err(e)) => r matches Err(x) && x == e,
            _ => r matches Ok(v) && v@ == issues@,
        },
{
    if any_error(&issues) {
        return Ok(issues);
    }
    match resolved {
        Some(Err(e)) => Err(e),
        _ => Ok(issues),
    }
}

/// The adapter's own preflight issues for a request. The binding is resolved
/// afterwards only when none of them blocks.
pub fn threads_preflight_issues(request: &ProviderPublishRequest) -> (r: Vec<ValidationIssue>)
    ensures
        issue_views(r@) == preflight_issues(*request),
{
    let target = &request.target;
    let mut issues: Vec<ValidationIssue> = Vec::new();
    if target.credential.is_none() {
        let mut p = owned("/targets/");
        push_str(&mut p, target.id.as_str());
        push_str(&mut p, "/credential");
        issues.push(
            ValidationIssue::error(
                "threads.credential.required",
                p.as_str(),
                "Threads publishing requires a configured credential reference",
            ),
        );
    }
    let ghost head = issue_views(issues@);
    assert(head =~= preflight_issues(*request).subrange(0, head.len() as int));
    let options = &target.options;
    let mut i: usize = 0;
    while i < options.len()
        invariant
            0 <= i <= options@.len(),
            issue_views(issues@) == head + option_issues(options@.take(i as int), target.id@),
        decreases options@.len() - i,
    {
        let key = options.key_at(i);
        let ghost before = issue_views(issues@);
        let mut p = owned("/targets/");
        push_str(&mut p, target.id.as_str());
        push_str(&mut p, "/options/");
        push_str(&mut p, key.as_str());
        let issue = ValidationIssue::error(
            "threads.option.unsupported",
            p.as_str(),
            "this Threads adapter version does not implement provider options",
        );
        issues.push(issue);
        assert(issue_views(issues@) =~= before.push(issue@));
        proof {
            let t = options@.take(i + 1);
            assert(t.drop_last() =~= options@.take(i as int));
            assert(t.last() == options@[i as int]);
            assert(issue_views(issues@) =~= head + option_issues(t, target.id@));
        }
        i = i + 1;
    }
    assert(options@.take(options@.len() as int) =~= options@);
    assert(issue_views(issues@) =~= preflight_issues(*request));
    issues
}

/// The credential of a request, which Threads publishing requires.
pub fn threads_credential(request: &ProviderPublishRequest) -> (r: Result<&CredentialRef, DeliveryError>)
    ensures
        match request.target.credential {
            Some(c) => r matches Ok(x) && *x == c,
            None => r matches Err(e) && e.class == DeliveryErrorClass::AuthRequired && e.code@
                == "threads.credential.required"@ && e.message@
                == "Threads publishing requires a configured credential reference"@,
        },
{
    match &request.target.credential {
        Some(c) => Ok(c),
        None => Err(
            DeliveryError::new(
                DeliveryErrorClass::AuthRequired,
                "threads.credential.required",
                "Threads publishing requires a configured credential reference",
            ),
        ),
    }
}

/// The text a request publishes: the variant's text, when it is not blank.
pub fn threads_publish_text(request: &ProviderPublishRequest) -> (r: Result<&str, DeliveryError>)
    ensures
        match request.variant.body.text {
            Some(t) if !blank(t@) => r matches Ok(x) && x@ == t@,
            _ => r matches Err(e) && e.class == DeliveryErrorClass::InvalidRequest && e.code@
                == "threads.text.required"@ && e.message@
                == "the text-only Threads adapter requires non-empty text"@,
        },
{
    match &request.variant.body.text {
        Some(t) => {
            if !is_blank(t.as_str()) {
                return Ok(t.as_str());
            }
        },
        None => {},
    }
    Err(
        DeliveryError::new(
            DeliveryErrorClass::InvalidRequest,
            "threads.text.required",
            "the text-only Threads adapter requires non-empty text",
        ),
    )
}

/// The class of a failure to create a container: nothing is public yet, so a
/// transient failure may be retried.
pub open spec fn container_class(kind: ThreadsTransportErrorKind) -> DeliveryErrorClass {
    match kind {
        ThreadsTransportErrorKind::Authentication => DeliveryErrorClass::AuthRequired,
        ThreadsTransportErrorKind::RateLimited => DeliveryErrorClass::RateLimited,
        ThreadsTransportErrorKind::Rejected => DeliveryErrorClass::ProviderRejected,
        ThreadsTransportErrorKind::Transient => DeliveryErrorClass::Retryable,
        ThreadsTransportErrorKind::InvalidResponse => DeliveryErrorClass::Terminal,
    }
}

/// The class of a failure to publish a container: the post may already be
/// public, so an ambiguous failure has an unknown outcome.
pub open spec fn publish_class(kind: ThreadsTransportErrorKind) -> DeliveryErrorClass {
    match kind {
        ThreadsTransportErrorKind::Authentication => DeliveryErrorClass::AuthRequired,
        ThreadsTransportErrorKind::RateLimited => DeliveryErrorClass::RateLimited,
        ThreadsTransportErrorKind::Rejected => DeliveryErrorClass::ProviderRejected,
        ThreadsTransportErrorKind::Transient => DeliveryErrorClass::OutcomeUnknown,
        ThreadsTransportErrorKind::InvalidResponse => DeliveryErrorClass::OutcomeUnknown,
    }
}

/// The safe message for a mapped failure class.
pub open spec fn class_message(class: DeliveryErrorClass) -> Seq<char> {
    match class {
        DeliveryErrorClass::AuthRequired => "Threads authorization is missing, expired, or insufficient"@,
        DeliveryErrorClass::RateLimited => "Threads publishing is rate limited"@,
        DeliveryErrorClass::ProviderRejected => "Threads rejected the publishing request"@,
        DeliveryErrorClass::Retryable => "Threads container creation failed before a public action"@,
        DeliveryErrorClass::OutcomeUnknown => "Threads publish outcome is unknown; reconcile the container before retrying"@,
        DeliveryErrorClass::InvalidRequest => "Threads returned an invalid or unsupported response"@,
        DeliveryErrorClass::Terminal => "Threads returned an invalid or unsupported response"@,
    }
}

fn mapped_delivery_error(class: DeliveryErrorClass, error: ThreadsTransportError) -> (r: DeliveryError)
    ensures
        r.class == class,
        r.code@ == error.code@,
        r.message@ == class_message(class),
        r.retry_after_seconds == error.retry_after_seconds,
        r.details.wf(),
        r.details@.len() == 0,
{
    let message = match class {
        DeliveryErrorClass::AuthRequired => "Threads authorization is missing, expired, or insufficient",
        DeliveryErrorClass::RateLimited => "Threads publishing is rate limited",
        DeliveryErrorClass::ProviderRejected => "Threads rejected the publishing request",
        DeliveryErrorClass::Retryable => "Threads container creation failed before a public action",
        DeliveryErrorClass::OutcomeUnknown => "Threads publish outcome is unknown; reconcile the container before retrying",
        DeliveryErrorClass::InvalidRequest => "Threads returned an invalid or unsupported response",
        DeliveryErrorClass::Terminal => "Threads returned an invalid or unsupported response",
    };
    let mut mapped = DeliveryError::new(class, error.code.as_str(), message);
    if let Some(seconds) = error.retry_after_seconds {
        mapped = mapped.with_retry_after(seconds);
    }
    mapped
}

/// Maps a failure to create the text container.
pub fn map_container_creation_error(error: ThreadsTransportError) -> (r: DeliveryError)
    ensures
        r.class == container_class(error.kind),
        error.kind == ThreadsTransportErrorKind::Authentication ==> r.class == DeliveryErrorClass::AuthRequired,
        error.kind == ThreadsTransportErrorKind::RateLimited ==> r.class == DeliveryErrorClass::RateLimited,
        error.kind == ThreadsTransportErrorKind::Rejected ==> r.class == DeliveryErrorClass::ProviderRejected,
        error.kind == ThreadsTransportErrorKind::Transient ==> r.class == DeliveryErrorClass::Retryable,
        error.kind == ThreadsTransportErrorKind::InvalidResponse ==> r.class == DeliveryErrorClass::Terminal,
        r.code@ == error.code@,
        r.message@ == class_message(r.class),
        r.retry_after_seconds == error.retry_after_seconds,
        r.details@.len() == 0,
{
    let class = match error.kind {
        ThreadsTransportErrorKind::Authentication => DeliveryErrorClass::AuthRequired,
        ThreadsTransportErrorKind::RateLimited => DeliveryErrorClass::RateLimited,
        ThreadsTransportErrorKind::Rejected => DeliveryErrorClass::ProviderRejected,
        ThreadsTransportErrorKind::Transient => DeliveryErrorClass::Retryable,
        ThreadsTransportErrorKind::InvalidResponse => DeliveryErrorClass::Terminal,
    };
    mapped_delivery_error(class, error)
}

/// Maps a failure to publish a container, attaching the container identifier
/// so the caller can reconcile before any retry.
pub fn map_publish_error(error: ThreadsTransportError, container_id: &ThreadsObjectId) -> (r: DeliveryError)
    ensures
        r.class == publish_class(error.kind),
        error.kind == ThreadsTransportErrorKind::Authentication ==> r.class == DeliveryErrorClass::AuthRequired,
        error.kind == ThreadsTransportErrorKind::RateLimited ==> r.class == DeliveryErrorClass::RateLimited,
        error.kind == ThreadsTransportErrorKind::Rejected ==> (r.class == DeliveryErrorClass::ProviderRejected
            && r.message@ == "Threads rejected the publishing request"@),
        (error.kind == ThreadsTransportErrorKind::Transient || error.kind
            == ThreadsTransportErrorKind::InvalidResponse) <==> r.class == DeliveryErrorClass::OutcomeUnknown,
        r.class == DeliveryErrorClass::OutcomeUnknown ==> r.message@
            == "Threads publish outcome is unknown; reconcile the container before retrying"@,
        r.code@ == error.code@,
        r.message@ == class_message(r.class),
        r.retry_after_seconds == error.retry_after_seconds,
        r.details.wf(),
        lookup(r.details@, "meta.threads.container_id"@) == Some(json_string(container_id@)),
        forall|k: Seq<char>| k != "meta.threads.container_id"@ ==> lookup(r.details@, k) is None,
{
    let class = match error.kind {
        ThreadsTransportErrorKind::Authentication => DeliveryErrorClass::AuthRequired,
        ThreadsTransportErrorKind::RateLimited => DeliveryErrorClass::RateLimited,
        ThreadsTransportErrorKind::Rejected => DeliveryErrorClass::ProviderRejected,
        ThreadsTransportErrorKind::Transient => DeliveryErrorClass::OutcomeUnknown,
        ThreadsTransportErrorKind::InvalidResponse => DeliveryErrorClass::OutcomeUnknown,
    };
    let mapped = mapped_delivery_error(class, error);
    proof {
        assert(mapped.details@ =~= Seq::<(Seq<char>, serde_json::Value)>::empty());
        assert forall|k: Seq<char>| #[trigger] lookup(mapped.details@, k) is None by {
            crate::content::lemma_lookup_absent(mapped.details@, k);
        }
    }
    mapped.with_detail(container_id_key(), json_string_value(owned(container_id.as_str())))
}

/// The receipt of a published post: the post's identifier, with its container
/// as a detail.
pub fn threads_receipt(published_id: &ThreadsObjectId, container_id: &ThreadsObjectId) -> (r: ProviderReceipt)
    ensures
        r.external_id@ == published_id@,
        r.external_url is None,
        r.details.wf(),
        lookup(r.details@, "meta.threads.container_id"@) == Some(json_string(container_id@)),
        forall|k: Seq<char>| k != "meta.threads.container_id"@ ==> lookup(r.details@, k) is None,
{
    let mut details = Extensions::new();
    details.insert(container_id_key(), json_string_value(owned(container_id.as_str())));
    assert forall|k: Seq<char>| k != "meta.threads.container_id"@ implies lookup(details@, k) is None by {
        crate::content::lemma_lookup_absent(Seq::<(Seq<char>, serde_json::Value)>::empty(), k);
    }
    ProviderReceipt { external_id: owned(published_id.as_str()), external_url: None, details }
}

/// The outside work the Threads adapter needs next to publish one request.
#[derive(Clone, Copy, Debug, PartialEq, Eq, Structural)]
pub enum ThreadsStep {
    /// Resolve the target's channel and credential to a user binding.
    ResolveBinding,
    /// Create an unpublished text container for the text to publish.
    CreateContainer,
    /// Publish the container that was created.
    PublishContainer,
    /// Publishing is over and its outcome is ready.
    Finished,
}

/// Where the publishing of one request stands.
pub ghost enum PublicationStage {
    /// The binding is awaited.
    AwaitBinding,
    /// The creation of a text container is awaited.
    AwaitContainer,
    /// The publishing of the created container, with this identifier, is
    /// awaited.
    AwaitPublish(Seq<char>),
    /// The outcome is decided.
    Done,
}

#[derive(Clone, Copy, PartialEq, Eq, Structural)]
enum PublicationPhase {
    AwaitBinding,
    AwaitContainer,
    AwaitPublish,
    Done,
}

/// The decisions of publishing one request through Threads: the binding is
/// resolved first, then a container is created for the text, then exactly
/// that container is published.
pub struct ThreadsPublication {
    request: ProviderPublishRequest,
    phase: PublicationPhase,
    binding: Option<ThreadsBinding>,
    container_id: Option<ThreadsObjectId>,
    outcome: Option<Result<ProviderReceipt, DeliveryError>>,
}

/// Whether an error is the mapped failure to create a container.
pub open spec fn container_failure(x: DeliveryError, e: ThreadsTransportError) -> bool {
    &&& x.class == container_class(e.kind)
    &&& x.code@ == e.code@
    &&& x.message@ == class_message(x.class)
    &&& x.retry_after_seconds == e.retry_after_seconds
    &&& x.details@.len() == 0
}

/// Whether an error is the mapped failure to publish a container, carrying
/// the container's identifier and nothing else as detail.
pub open spec fn publish_failure(x: DeliveryError, e: ThreadsTransportError, container_id: Seq<char>) -> bool {
    &&& x.class == publish_class(e.kind)
    &&& x.code@ == e.code@
    &&& x.message@ == class_message(x.class)
    &&& x.retry_after_seconds == e.retry_after_seconds
    &&& x.details.wf()
    &&& lookup(x.details@, "meta.threads.container_id"@) == Some(json_string(container_id))
    &&& forall|k: Seq<char>| k != "meta.threads.container_id"@ ==> lookup(x.details@, k) is None
}

/// Whether a receipt is the one for a published post and its container.
pub open spec fn publication_receipt(r: ProviderReceipt, published_id: Seq<char>, container_id: Seq<char>) -> bool {
    &&& r.external_id@ == published_id
    &&& r.external_url is None
    &&& r.details.wf()
    &&& lookup(r.details@, "meta.threads.container_id"@) == Some(json_string(container_id))
    &&& forall|k: Seq<char>| k != "meta.threads.container_id"@ ==> lookup(r.details@, k) is None
}

impl ThreadsPublication {
    /// The request being published.
    pub closed spec fn publish_request(self) -> ProviderPublishRequest {
        self.request
    }

    /// Where publishing stands.
    pub closed spec fn stage(self) -> PublicationStage {
        match self.phase {
            PublicationPhase::AwaitBinding => PublicationStage::AwaitBinding,
            PublicationPhase::AwaitContainer => PublicationStage::AwaitContainer,
            PublicationPhase::AwaitPublish => PublicationStage::AwaitPublish(self.container_id.unwrap()@),
            PublicationPhase::Done => PublicationStage::Done,
        }
    }

    /// The resolved binding, once there is one.
    pub closed spec fn binding_view(self) -> Option<ThreadsBinding> {
        self.binding
    }

    /// The decided outcome.
    pub closed spec fn outcome_view(self) -> Option<Result<ProviderReceipt, DeliveryError>> {
        self.outcome
    }

    pub closed spec fn wf(self) -> bool {
        &&& (self.phase == PublicationPhase::AwaitBinding) ==> self.request.target.credential is Some
        &&& (self.phase == PublicationPhase::AwaitContainer) ==> {
            &&& self.binding is Some
            &&& self.request.variant.body.text matches Some(t) && !blank(t@)
        }
        &&& (self.phase == PublicationPhase::AwaitPublish) ==> self.binding is Some && self.container_id is Some
        &&& (self.phase == PublicationPhase::Done) <==> self.outcome is Some
    }

    /// Starts publishing a request. Without a credential reference the
    /// outcome is decided at once: authorization is required.
    pub fn start(request: ProviderPublishRequest) -> (r: Self)
        ensures
            r.wf(),
            r.publish_request() == request,
            r.binding_view() is None,
            request.target.credential is Some ==> r.stage() == PublicationStage::AwaitBinding,
            request.target.credential is None ==> {
                &&& r.stage() == PublicationStage::Done
                &&& r.outcome_view() matches Some(Err(e))
                &&& e.class == DeliveryErrorClass::AuthRequired
                &&& e.code@ == "threads.credential.required"@
                &&& e.message@ == "Threads publishing requires a configured credential reference"@
            },
    {
        let outcome = match threads_credential(&request) {
            Ok(_) => None,
            Err(e) => Some(Err(e)),
        };
        let phase = if outcome.is_some() {
            PublicationPhase::Done
        } else {
            PublicationPhase::AwaitBinding
        };
        ThreadsPublication { request, phase, binding: None, container_id: None, outcome }
    }

    /// The outside work needed next.
    pub fn next_step(&self) -> (r: ThreadsStep)
        requires
            self.wf(),
        ensures
            match self.stage() {
                PublicationStage::AwaitBinding => r == ThreadsStep::ResolveBinding,
                PublicationStage::AwaitContainer => r == ThreadsStep::CreateContainer,
                PublicationStage::AwaitPublish(_) => r == ThreadsStep::PublishContainer,
                PublicationStage::Done => r == ThreadsStep::Finished,
            },
    {
        match self.phase {
            PublicationPhase::AwaitBinding => ThreadsStep::ResolveBinding,
            PublicationPhase::AwaitContainer => ThreadsStep::CreateContainer,
            PublicationPhase::AwaitPublish => ThreadsStep::PublishContainer,
            PublicationPhase::Done => ThreadsStep::Finished,
        }
    }

    /// The channel and credential to resolve, while the binding is awaited.
    pub fn binding_request(&self) -> (r: Option<(&ChannelRef, &CredentialRef)>)
        requires
            self.wf(),
        ensures
            self.stage() is AwaitBinding ==> (r matches Some((ch, cr)) && *ch
                == self.publish_request().target.channel && Some(*cr)
                == self.publish_request().target.credential),
            !(self.stage() is AwaitBinding) ==> r is None,
    {
        match self.phase {
            PublicationPhase::AwaitBinding => match &self.request.target.credential {
                Some(credential) => Some((&self.request.target.channel, credential)),
                None => None,
            },
            _ => None,
        }
    }

    /// The binding and the text for the container, while its creation is
    /// awaited.
    pub fn container_request(&self) -> (r: Option<(&ThreadsBinding, &str)>)
        requires
            self.wf(),
        ensures
            self.stage() is AwaitContainer ==> (r matches Some((b, t)) && Some(*b) == self.binding_view()
                && (self.publish_request().variant.body.text matches Some(text) && t@ == text@)),
            !(self.stage() is AwaitContainer) ==> r is None,
    {
        match self.phase {
            PublicationPhase::AwaitContainer => match (&self.binding, &self.request.variant.body.text) {
                (Some(binding), Some(text)) => Some((binding, text.as_str())),
                _ => None,
            },
            _ => None,
        }
    }

    /// The binding and the container to publish, while publishing is
    /// awaited.
    pub fn publish_request_for(&self) -> (r: Option<(&ThreadsBinding, &ThreadsObjectId)>)
        requires
            self.wf(),
        ensures
            self.stage() matches PublicationStage::AwaitPublish(c) ==> (r matches Some((b, id))
                && Some(*b) == self.binding_view() && id@ == c),
            !(self.stage() is AwaitPublish) ==> r is None,
    {
        match self.phase {
            PublicationPhase::AwaitPublish => match (&self.binding, &self.container_id) {
                (Some(binding), Some(id)) => Some((binding, id)),
                _ => None,
            },
            _ => None,
        }
    }

    /// Takes the resolved binding. A failed resolution is the outcome; with a
    /// binding, a request without non-blank text fails, and otherwise a
    /// container is created next. Outside that stage nothing changes.
    pub fn supply_binding(&mut self, result: Result<ThreadsBinding, DeliveryError>)
        requires
            old(self).wf(),
        ensures
            final(self).wf(),
            final(self).publish_request() == old(self).publish_request(),
            !(old(self).stage() is AwaitBinding) ==> *final(self) == *old(self),
            old(self).stage() is AwaitBinding ==> match result {
                Err(e) => final(self).stage() == PublicationStage::Done && final(self).outcome_view()
                    == Some(Err::<ProviderReceipt, DeliveryError>(e)),
                Ok(b) => match old(self).publish_request().variant.body.text {
                    Some(t) if !blank(t@) => final(self).stage() == PublicationStage::AwaitContainer
                        && final(self).binding_view() == Some(b),
                    _ => final(self).stage() == PublicationStage::Done && (final(self).outcome_view()
                        matches Some(Err(e)) && e.class == DeliveryErrorClass::InvalidRequest
                        && e.code@ == "threads.text.required"@ && e.message@
                        == "the text-only Threads adapter requires non-empty text"@),
                },
            },
    {
        if self.phase != PublicationPhase::AwaitBinding {
            return;
        }
        match result {
            Err(e) => {
                self.outcome = Some(Err(e));
                self.phase = PublicationPhase::Done;
            },
            Ok(binding) => {
                let text_error = match threads_publish_text(&self.request) {
                    Ok(_) => None,
                    Err(e) => Some(e),
                };
                match text_error {
                    None => {
                        self.binding = Some(binding);
                        self.phase = PublicationPhase::AwaitContainer;
                    },
                    Some(e) => {
                        self.outcome = Some(Err(e));
                        self.phase = PublicationPhase::Done;
                    },
                }
            },
        }
    }

    /// Takes the result of creating the container. A failure is mapped for a
    /// step before any public action; a created container is published next.
    /// Outside that stage nothing changes.
    pub fn supply_container(&mut self, result: Result<ThreadsObjectId, ThreadsTransportError>)
        requires
            old(self).wf(),
        ensures
            final(self).wf(),
            final(self).publish_request() == old(self).publish_request(),
            final(self).binding_view() == old(self).binding_view(),
            !(old(self).stage() is AwaitContainer) ==> *final(self) == *old(self),
            old(self).stage() is AwaitContainer ==> match result {
                Err(e) => final(self).stage() == PublicationStage::Done && (final(self).outcome_view()
                    matches Some(Err(x)) && container_failure(x, e)),
                Ok(id) => final(self).stage() == PublicationStage::AwaitPublish(id@),
            },
    {
        if self.phase != PublicationPhase::AwaitContainer {
            return;
        }
        match result {
            Err(e) => {
                self.outcome = Some(Err(map_container_creation_error(e)));
                self.phase = PublicationPhase::Done;
            },
            Ok(id) => {
                self.container_id = Some(id);
                self.phase = PublicationPhase::AwaitPublish;
            },
        }
    }

    /// Takes the result of publishing the container. A failure keeps the
    /// container's identifier for reconciliation; success yields the receipt.
    /// Outside that stage nothing changes.
    pub fn supply_published(&mut self, result: Result<ThreadsObjectId, ThreadsTransportError>)
        requires
            old(self).wf(),
        ensures
            final(self).wf(),
            final(self).publish_request() == old(self).publish_request(),
            final(self).binding_view() == old(self).binding_view(),
            !(old(self).stage() is AwaitPublish) ==> *final(self) == *old(self),
            old(self).stage() matches PublicationStage::AwaitPublish(c) ==> {
                &&& final(self).stage() == PublicationStage::Done
                &&& match result {
                    Err(e) => final(self).outcome_view() matches Some(Err(x)) && publish_failure(x, e, c),
                    Ok(id) => final(self).outcome_view() matches Some(Ok(receipt))
                        && publication_receipt(receipt, id@, c),
                }
            },
    {
        if self.phase != PublicationPhase::AwaitPublish {
            return;
        }
        match &self.container_id {
            Some(container_id) => {
                let outcome = match result {
                    Err(e) => Err(map_publish_error(e, container_id)),
                    Ok(id) => Ok(threads_receipt(&id, container_id)),
                };
                self.outcome = Some(outcome);
                self.phase = PublicationPhase::Done;
            },
            None => {},
        }
    }

    /// The decided outcome.
    pub fn into_outcome(self) -> (r: Result<ProviderReceipt, DeliveryError>)
        requires
            self.wf(),
            self.stage() == PublicationStage::Done,
        ensures
            self.outcome_view() == Some(r),
    {
        match self.outcome {
            Some(outcome) => outcome,
            None => Err(
                DeliveryError::new(
                    DeliveryErrorClass::Terminal,
                    "threads.publication.unfinished",
                    "Threads publishing has not finished",
                ),
            ),
        }
    }
}

/// A failure to publish a created container is never marked safe to retry:
/// the post may already be public.
pub proof fn lemma_publish_failure_is_never_retryable(kind: ThreadsTransportErrorKind)
    ensures
        publish_class(kind) != DeliveryErrorClass::Retryable,
{
}

/// How a failed publish of a created container is classed: what Threads
/// refused outright (authorization, rate limit, a rejected request) keeps the
/// class it has when creating a container, and only an ambiguous failure (a
/// transient one, or an unreadable answer) has an unknown outcome, since the
/// post may already be public.
pub proof fn lemma_publish_failure_classes(kind: ThreadsTransportErrorKind)
    ensures
        kind == ThreadsTransportErrorKind::Authentication ==> publish_class(kind)
            == DeliveryErrorClass::AuthRequired,
        kind == ThreadsTransportErrorKind::RateLimited ==> publish_class(kind)
            == DeliveryErrorClass::RateLimited,
        kind == ThreadsTransportErrorKind::Rejected ==> publish_class(kind)
            == DeliveryErrorClass::ProviderRejected,
        publish_class(kind) == DeliveryErrorClass::OutcomeUnknown <==> (kind
            == ThreadsTransportErrorKind::Transient || kind == ThreadsTransportErrorKind::InvalidResponse),
        publish_class(kind) == container_class(kind) || publish_class(kind)
            == DeliveryErrorClass::OutcomeUnknown,
        class_message(publish_class(kind)) == class_message(container_class(kind)) || publish_class(kind)
            == DeliveryErrorClass::OutcomeUnknown,
        class_message(DeliveryErrorClass::ProviderRejected) == "Threads rejected the publishing request"@,
        class_message(DeliveryErrorClass::OutcomeUnknown)
            == "Threads publish outcome is unknown; reconcile the container before retrying"@,
{
}

/// How a failed container creation is classed: nothing is public yet, so a
/// transient failure may be retried and an unreadable answer is terminal.
pub proof fn lemma_container_failure_classes(kind: ThreadsTransportErrorKind)
    ensures
        kind == ThreadsTransportErrorKind::Authentication ==> container_class(kind)
            == DeliveryErrorClass::AuthRequired,
        kind == ThreadsTransportErrorKind::RateLimited ==> container_class(kind)
            == DeliveryErrorClass::RateLimited,
        kind == ThreadsTransportErrorKind::Rejected ==> container_class(kind)
            == DeliveryErrorClass::ProviderRejected,
        kind == ThreadsTransportErrorKind::Transient ==> container_class(kind)
            == DeliveryErrorClass::Retryable,
        kind == ThreadsTransportErrorKind::InvalidResponse ==> container_class(kind)
            == DeliveryErrorClass::Terminal,
        container_class(kind) != DeliveryErrorClass::OutcomeUnknown,
{
}

/// The error reported when the provider returns a malformed object identifier.
pub fn invalid_object_id(_error: ThreadsBindingError) -> (r: ThreadsTransportError)
    ensures
        r.kind == ThreadsTransportErrorKind::InvalidResponse,
        r.code@ == "threads.response.invalid_object_id"@,
        r.retry_after_seconds is None,
{
    ThreadsTransportError::new(
        ThreadsTransportErrorKind::InvalidResponse,
        "threads.response.invalid_object_id",
    )
}

/// The object identifier in a successful response, or the transport error
/// for a malformed one.
pub fn interpret_object_id(id: &str) -> (r: Result<ThreadsObjectId, ThreadsTransportError>)
    ensures
        !bad_object_id(id@) ==> (r matches Ok(x) && x@ == id@),
        bad_object_id(id@) ==> (r matches Err(e) && e.kind == ThreadsTransportErrorKind::InvalidResponse
            && e.code@ == "threads.response.invalid_object_id"@),
{
    match ThreadsObjectId::new(id) {
        Ok(x) => Ok(x),
        Err(e) => Err(invalid_object_id(e)),
    }
}

/// The error metadata of a Meta Graph API error response.
#[derive(Clone, Copy, Debug, PartialEq, Eq, Default)]
pub struct MetaError {
    /// Meta's numeric error code.
    pub code: Option<i64>,
    /// Meta's numeric error subcode.
    pub error_subcode: Option<i64>,
    /// Whether Meta marked the error transient.
    pub is_transient: bool,
}

/// Decimal text of a signed integer.
pub open spec fn signed_decimal(n: int) -> Seq<char> {
    if n < 0 {
        "-"@ + decimal((-n) as nat)
    } else {
        decimal(n as nat)
    }
}

fn push_signed(s: &mut String, n: i64)
    ensures
        final(s)@ == old(s)@ + signed_decimal(n as int),
{
    if n < 0 {
        push_str(s, "-");
        let magnitude: u64 = if n == i64::MIN {
            9223372036854775808
        } else {
            (-n) as u64
        };
        push_decimal(s, magnitude);
        assert(old(s)@ + "-"@ + decimal(magnitude as nat) =~= old(s)@ + signed_decimal(n as int));
    } else {
        push_decimal(s, n as u64);
    }
}

/// The failure category of an API error response.
pub open spec fn api_error_kind(status: u16, meta: MetaError) -> ThreadsTransportErrorKind {
    if status == 401 || status == 403 || meta.code == Some(190i64) {
        ThreadsTransportErrorKind::Authentication
    } else if status == 429 || meta.code == Some(4i64) || meta.code == Some(17i64) || meta.code
        == Some(32i64) || meta.code == Some(613i64) {
        ThreadsTransportErrorKind::RateLimited
    } else if (500 <= status && status <= 599) || meta.is_transient {
        ThreadsTransportErrorKind::Transient
    } else {
        ThreadsTransportErrorKind::Rejected
    }
}

/// How an API error response is classed, by priority: an authorization
/// failure (HTTP 401 or 403, or Meta code 190) whatever else the metadata
/// says; then a rate limit (HTTP 429, or Meta code 4, 17, 32 or 613); then a
/// transient failure (HTTP 5xx, or Meta's transient flag); anything else is a
/// rejection.
pub proof fn lemma_api_error_classes(status: u16, meta: MetaError)
    ensures
        (status == 401 || status == 403) ==> api_error_kind(status, meta)
            == ThreadsTransportErrorKind::Authentication,
        meta.code == Some(190i64) ==> api_error_kind(status, meta) == ThreadsTransportErrorKind::Authentication,
        api_error_kind(status, meta) == ThreadsTransportErrorKind::Authentication ==> (status == 401 || status
            == 403 || meta.code == Some(190i64)),
        api_error_kind(status, meta) == ThreadsTransportErrorKind::RateLimited <==> (!(status == 401 || status
            == 403 || meta.code == Some(190i64)) && (status == 429 || meta.code == Some(4i64) || meta.code
            == Some(17i64) || meta.code == Some(32i64) || meta.code == Some(613i64))),
        api_error_kind(status, meta) == ThreadsTransportErrorKind::Transient ==> ((500 <= status <= 599)
            || meta.is_transient),
        (500 <= status <= 599) && api_error_kind(status, meta) != ThreadsTransportErrorKind::Authentication
            && api_error_kind(status, meta) != ThreadsTransportErrorKind::RateLimited ==> api_error_kind(
            status,
            meta,
        ) == ThreadsTransportErrorKind::Transient,
        api_error_kind(status, meta) != ThreadsTransportErrorKind::InvalidResponse,
        api_error_kind(status, meta) == ThreadsTransportErrorKind::Rejected <==> (!(status == 401 || status
            == 403 || meta.code == Some(190i64)) && !(status == 429 || meta.code == Some(4i64) || meta.code
            == Some(17i64) || meta.code == Some(32i64) || meta.code == Some(613i64)) && !((500 <= status
            <= 599) || meta.is_transient)),
        meta.code is None ==> api_error_code(status, meta) == "threads.http."@ + decimal(status as nat),
{
}

/// The stable code of an API error response.
pub open spec fn api_error_code(status: u16, meta: MetaError) -> Seq<char> {
    match (meta.code, meta.error_subcode) {
        (Some(code), Some(sub)) => "threads.api."@ + signed_decimal(code as int) + "."@
            + signed_decimal(sub as int),
        (Some(code), None) => "threads.api."@ + signed_decimal(code as int),
        (None, _) => "threads.http."@ + decimal(status as nat),
    }
}

/// Classifies an API error response by its HTTP status and Meta's error
/// metadata; Meta's message is never carried over.
pub fn classify_api_error(status: u16, meta: MetaError, retry_after_seconds: Option<u64>) -> (r:
    ThreadsTransportError)
    ensures
        r.kind == api_error_kind(status, meta),
        (status == 401 || status == 403 || meta.code == Some(190i64)) <==> r.kind
            == ThreadsTransportErrorKind::Authentication,
        r.code@ == api_error_code(status, meta),
        r.retry_after_seconds == retry_after_seconds,
{
    let kind = if status == 401 || status == 403 || meta.code == Some(190i64) {
        ThreadsTransportErrorKind::Authentication
    } else if status == 429 || meta.code == Some(4i64) || meta.code == Some(17i64) || meta.code
        == Some(32i64) || meta.code == Some(613i64) {
        ThreadsTransportErrorKind::RateLimited
    } else if (500 <= status && status <= 599) || meta.is_transient {
        ThreadsTransportErrorKind::Transient
    } else {
        ThreadsTransportErrorKind::Rejected
    };
    let mut code = owned("threads.");
    match (meta.code, meta.error_subcode) {
        (Some(c), Some(sub)) => {
            push_str(&mut code, "api.");
            push_signed(&mut code, c);
            push_str(&mut code, ".");
            push_signed(&mut code, sub);
            assert(code@ =~= api_error_code(status, meta)) by {
                reveal_strlit("threads.");
                reveal_strlit("api.");
                reveal_strlit("threads.api.");
            }
        },
        (Some(c), None) => {
            push_str(&mut code, "api.");
            push_signed(&mut code, c);
            assert(code@ =~= api_error_code(status, meta)) by {
                reveal_strlit("threads.");
                reveal_strlit("api.");
                reveal_strlit("threads.api.");
            }
        },
        (None, _) => {
            push_str(&mut code, "http.");
            push_decimal(&mut code, status as u64);
            assert(code@ =~= api_error_code(status, meta)) by {
                reveal_strlit("threads.");
                reveal_strlit("http.");
                reveal_strlit("threads.http.");
            }
        },
    }
    let mut error = ThreadsTransportError { kind, code, retry_after_seconds: None };
    if let Some(seconds) = retry_after_seconds {
        error = error.with_retry_after(seconds);
    }
    error
}

/// Whether every byte is an ASCII digit.
pub open spec fn all_ascii_digits(b: Seq<u8>) -> bool {
    forall|i: int| 0 <= i < b.len() ==> 48 <= #[trigger] b[i] <= 57
}

/// The number written by ASCII digits, most significant first.
pub open spec fn digits_value(b: Seq<u8>) -> nat
    decreases b.len(),
{
    if b.len() == 0 {
        0
    } else {
        digits_value(b.drop_last()) * 10 + (b.last() - 48) as nat
    }
}

/// The digits of an unsigned decimal: the text after an optional leading
/// `+`.
pub open spec fn unsigned_digits(b: Seq<u8>) -> Seq<u8> {
    if b.len() > 0 && b[0] == 43 {
        b.drop_first()
    } else {
        b
    }
}

/// The `u64` that a header value writes the way `str::parse::<u64>` reads
/// one: an optional `+`, then at least one ASCII digit and nothing else, of
/// a value that fits in 64 bits.
pub open spec fn retry_after_value(b: Seq<u8>) -> Option<u64> {
    let d = unsigned_digits(b);
    if d.len() > 0 && all_ascii_digits(d) && digits_value(d) <= u64::MAX {
        Some(digits_value(d) as u64)
    } else {
        None
    }
}

proof fn lemma_digits_value_grows(b: Seq<u8>, i: int)
    requires
        0 <= i <= b.len(),
        all_ascii_digits(b),
    ensures
        digits_value(b.take(i)) <= digits_value(b),
    decreases b.len() - i,
{
    if i < b.len() {
        lemma_digits_value_grows(b, i + 1);
        assert(b.take(i + 1).drop_last() =~= b.take(i));
        assert(b.take(i + 1).last() == b[i]);
    } else {
        assert(b.take(i) =~= b);
    }
}

/// The retry guidance of a `Retry-After` header: the seconds it states, when
/// its value is an unsigned decimal that fits in 64 bits; an HTTP date or any
/// other value gives none.
pub fn retry_after_seconds(header: Option<&[u8]>) -> (r: Option<u64>)
    ensures
        match header {
            None => r is None,
            Some(b) => r == retry_after_value(b@),
        },
{
    match header {
        None => None,
        Some(b) => parse_unsigned(b),
    }
}

/// Reads an unsigned decimal as `str::parse::<u64>` does.
fn parse_unsigned(b: &[u8]) -> (r: Option<u64>)
    ensures
        r == retry_after_value(b@),
{
    let start: usize = if b.len() > 0 && b[0] == 43u8 {
        1
    } else {
        0
    };
    let ghost d = unsigned_digits(b@);
    assert(d =~= b@.skip(start as int));
    if start == b.len() {
        return None;
    }
    let mut value: u64 = 0;
    let mut i: usize = start;
    while i < b.len()
        invariant
            start <= i <= b.len(),
            d == b@.skip(start as int),
            d == unsigned_digits(b@),
            all_ascii_digits(d.take(i - start)),
            value == digits_value(d.take(i - start)),
        decreases b.len() - i,
    {
        let c = b[i];
        let ghost k = i - start;
        assert(d[k] == c);
        if c < 48u8 || c > 57u8 {
            assert(!all_ascii_digits(d));
            return None;
        }
        assert(d.take(k + 1).drop_last() =~= d.take(k));
        assert(d.take(k + 1).last() == c);
        let digit = (c - 48u8) as u64;
        match value.checked_mul(10) {
            None => {
                proof {
                    assert(all_ascii_digits(d.take(k + 1)));
                    if all_ascii_digits(d) {
                        lemma_digits_value_grows(d, k + 1);
                    }
                }
                return None;
            },
            Some(scaled) => match scaled.checked_add(digit) {
                None => {
                    proof {
                        assert(all_ascii_digits(d.take(k + 1)));
                        if all_ascii_digits(d) {
                            lemma_digits_value_grows(d, k + 1);
                        }
                    }
                    return None;
                },
                Some(next) => {
                    value = next;
                },
            },
        }
        i = i + 1;
    }
    assert(d.take(d.len() as int) =~= d);
    Some(value)
}

/// What one call to the Threads API came back with.
pub enum ApiReply {
    /// The API base cannot take path segments, so nothing was sent.
    UnusableBase,
    /// No response arrived: the request could not be sent or the connection
    /// failed.
    NoResponse,
    /// A response arrived, but its body could not be read.
    UnreadableBody,
    /// A response with a readable body.
    Received {
        /// The HTTP status.
        status: u16,
        /// The retry guidance of its `Retry-After` header.
        retry_after_seconds: Option<u64>,
        /// The `id` of the body, when the body is a JSON object whose `id`
        /// is a string.
        id: Option<String>,
        /// Meta's error metadata in the body, the defaults when there is
        /// none.
        meta: MetaError,
    },
}

/// Whether an HTTP status reports success.
pub open spec fn success_status(status: u16) -> bool {
    200 <= status <= 299
}

/// Whether an error is the one a transport reports with this kind and code,
/// without retry guidance.
pub open spec fn plain_transport_error(e: ThreadsTransportError, kind: ThreadsTransportErrorKind, code: Seq<char>) -> bool {
    e.kind == kind && e.code@ == code && e.retry_after_seconds is None
}

/// Interprets what a call to the Threads API came back with: the object
/// identifier of a successful response, or a redacted transport error.
/// Nothing of an error body but Meta's numeric metadata is carried over.
pub fn interpret_reply(reply: ApiReply) -> (r: Result<ThreadsObjectId, ThreadsTransportError>)
    ensures
        match reply {
            ApiReply::UnusableBase => r matches Err(e) && plain_transport_error(
                e,
                ThreadsTransportErrorKind::InvalidResponse,
                "threads.transport.invalid_base_url"@,
            ),
            ApiReply::NoResponse => r matches Err(e) && plain_transport_error(
                e,
                ThreadsTransportErrorKind::Transient,
                "threads.transport"@,
            ),
            ApiReply::UnreadableBody => r matches Err(e) && plain_transport_error(
                e,
                ThreadsTransportErrorKind::InvalidResponse,
                "threads.response.unreadable"@,
            ),
            ApiReply::Received { status, retry_after_seconds, id, meta } => if success_status(status) {
                match id {
                    None => r matches Err(e) && plain_transport_error(
                        e,
                        ThreadsTransportErrorKind::InvalidResponse,
                        "threads.response.invalid_json"@,
                    ),
                    Some(i) => if bad_object_id(i@) {
                        r matches Err(e) && plain_transport_error(
                            e,
                            ThreadsTransportErrorKind::InvalidResponse,
                            "threads.response.invalid_object_id"@,
                        )
                    } else {
                        r matches Ok(x) && x@ == i@
                    },
                }
            } else {
                r matches Err(e) && e.kind == api_error_kind(status, meta) && e.code@ == api_error_code(
                    status,
                    meta,
                ) && e.retry_after_seconds == retry_after_seconds
            },
        },
{
    match reply {
        ApiReply::UnusableBase => Err(
            ThreadsTransportError::new(
                ThreadsTransportErrorKind::InvalidResponse,
                "threads.transport.invalid_base_url",
            ),
        ),
        ApiReply::NoResponse => Err(
            ThreadsTransportError::new(ThreadsTransportErrorKind::Transient, "threads.transport"),
        ),
        ApiReply::UnreadableBody => Err(
            ThreadsTransportError::new(
                ThreadsTransportErrorKind::InvalidResponse,
                "threads.response.unreadable",
            ),
        ),
        ApiReply::Received { status, retry_after_seconds, id, meta } => {
            if 200 <= status && status <= 299 {
                match id {
                    None => Err(
                        ThreadsTransportError::new(
                            ThreadsTransportErrorKind::InvalidResponse,
                            "threads.response.invalid_json",
                        ),
                    ),
                    Some(i) => match ThreadsObjectId::new(i.as_str()) {
                        Ok(x) => Ok(x),
                        Err(e) => Err(invalid_object_id(e)),
                    },
                }
            } else {
                Err(classify_api_error(status, meta, retry_after_seconds))
            }
        },
    }
}

/// Invalid Threads HTTP transport configuration.
#[derive(Clone, Copy, Debug, PartialEq, Eq, Structural)]
pub enum ThreadsTransportConfigError {
    /// Base URL is malformed or cannot safely accept path segments.
    InvalidBaseUrl,
    /// Provider credentials must never be sent over plaintext HTTP.
    InsecureBaseUrl,
}

/// The parts of a parsed URL that decide whether it may serve as an API base.
pub struct UrlParts {
    /// The scheme, in lowercase.
    pub scheme: String,
    /// Whether the URL cannot take path segments.
    pub cannot_be_a_base: bool,
    /// The user name, empty when absent.
    pub username: String,
    /// The password, when present.
    pub password: Option<String>,
    /// The query, when present.
    pub query: Option<String>,
    /// The fragment, when present.
    pub fragment: Option<String>,
}

/// The text of an optional string.
pub open spec fn opt_view(o: Option<String>) -> Option<Seq<char>> {
    match o {
        Some(s) => Some(s@),
        None => None,
    }
}

/// What `url::Url::parse` yields for an input: `None` when the input is not
/// a URL, else the scheme, whether it cannot be a base, the user name, and the
/// password, query and fragment when present.
pub uninterp spec fn url_parse(input: Seq<char>) -> Option<
    (Seq<char>, bool, Seq<char>, Option<Seq<char>>, Option<Seq<char>>, Option<Seq<char>>),
>;

/// `reqwest::Url` (the `url` crate's `Url`): a parsed URL, carried through
/// unread.
#[verifier::external_type_specification]
#[verifier::external_body]
pub struct ExUrl(reqwest::Url);

/// Parses a URL with `reqwest::Url::parse` (the `url` crate) and reads the
/// parts Prism checks. Trusted: the parts are those the crate computes for
/// the input, named by `url_parse`; the URL grammar itself is not stated, and
/// nothing is stated of the parsed value beyond its parts.
#[verifier::external_body]
fn parse_url(input: &str) -> (r: Option<(reqwest::Url, UrlParts)>)
    ensures
        match r {
            None => url_parse(input@) is None,
            Some((_, p)) => url_parse(input@) == Some(
                (p.scheme@, p.cannot_be_a_base, p.username@, opt_view(p.password), opt_view(p.query), opt_view(p.fragment)),
            ),
        },
{
    match reqwest::Url::parse(input) {
        Ok(url) => {
            let parts = UrlParts {
                scheme: url.scheme().to_owned(),
                cannot_be_a_base: url.cannot_be_a_base(),
                username: url.username().to_owned(),
                password: url.password().map(str::to_owned),
                query: url.query().map(str::to_owned),
                fragment: url.fragment().map(str::to_owned),
            };
            Some((url, parts))
        },
        Err(_) => None,
    }
}

/// How a parsed URL fares as an API base.
pub open spec fn api_base_verdict(parts: Option<
    (Seq<char>, bool, Seq<char>, Option<Seq<char>>, Option<Seq<char>>, Option<Seq<char>>),
>) -> Result<(), ThreadsTransportConfigError> {
    match parts {
        None => Err(ThreadsTransportConfigError::InvalidBaseUrl),
        Some((scheme, cannot_be_a_base, username, password, query, fragment)) => if scheme
            != "https"@ {
            Err(ThreadsTransportConfigError::InsecureBaseUrl)
        } else if cannot_be_a_base || username.len() > 0 || password is Some || query is Some
            || fragment is Some {
            Err(ThreadsTransportConfigError::InvalidBaseUrl)
        } else {
            Ok(())
        },
    }
}

/// Judges parsed URL parts as an API base: HTTPS only, able to take path
/// segments, and without credentials, query or fragment.
pub fn check_api_base(parts: Option<UrlParts>) -> (r: Result<(), ThreadsTransportConfigError>)
    ensures
        r == api_base_verdict(match parts {
            None => None,
            Some(p) => Some(
                (p.scheme@, p.cannot_be_a_base, p.username@, opt_view(p.password), opt_view(p.query), opt_view(p.fragment)),
            ),
        }),
{
    match parts {
        None => Err(ThreadsTransportConfigError::InvalidBaseUrl),
        Some(p) => {
            if !chars_eq(&chars_of(p.scheme.as_str()), &chars_of("https")) {
                return Err(ThreadsTransportConfigError::InsecureBaseUrl);
            }
            if p.cannot_be_a_base || p.username.as_str().is_empty() == false || p.password.is_some()
                || p.query.is_some() || p.fragment.is_some() {
                return Err(ThreadsTransportConfigError::InvalidBaseUrl);
            }
            Ok(())
        },
    }
}

/// Checks an API base URL for the HTTPS transport and gives back the parsed
/// URL it accepts.
pub fn validate_api_base(api_base: &str) -> (r: Result<reqwest::Url, ThreadsTransportConfigError>)
    ensures
        api_base_verdict(url_parse(api_base@)) is Ok <==> r is Ok,
        api_base_verdict(url_parse(api_base@)) matches Err(e) ==> r == Err::<reqwest::Url, ThreadsTransportConfigError>(e),
{
    match parse_url(api_base) {
        None => Err(ThreadsTransportConfigError::InvalidBaseUrl),
        Some((url, parts)) => match check_api_base(Some(parts)) {
            Ok(()) => Ok(url),
            Err(e) => Err(e),
        },
    }
}

} // verus!
