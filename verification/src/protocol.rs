//! Versioned language-neutral execution envelopes.

use vstd::prelude::*;

use crate::capabilities::ProviderCapabilities;
use crate::content::{Extensions, is_blank};
use crate::ids::{
    ChannelRef, CredentialRef, ProviderId, RequestId, dotted_problem, lemma_plain_dotted_valid,
    reference_problem,
};
use crate::provider::ProviderTargetContext;
use crate::request::PublishRequest;
use crate::result::ExecutionReport;
use crate::text::{blank, decimal, owned, push_decimal, push_str};
use crate::validation::ValidationIssue;

verus! {

/// Exact wire protocol identifier. It is independent from crate versions.
pub const PROTOCOL_VERSION: &'static str = "prism-execution.v1";

/// Capability discovery input for one provider/channel context.
#[derive(Clone, Debug)]
pub struct CapabilitiesRequest {
    /// Provider adapter identifier.
    pub provider_id: ProviderId,
    /// Opaque channel reference.
    pub channel: ChannelRef,
    /// Optional credential reference resolved by the adapter.
    pub credential: Option<CredentialRef>,
    /// Provider-scoped capability context.
    pub options: Extensions,
}

impl CapabilitiesRequest {
    /// The provider context the request asks about.
    pub fn into_context(self) -> (r: ProviderTargetContext)
        ensures
            r.provider_id == self.provider_id,
            r.channel == self.channel,
            r.credential == self.credential,
            r.options == self.options,
    {
        ProviderTargetContext {
            provider_id: self.provider_id,
            channel: self.channel,
            credential: self.credential,
            options: self.options,
        }
    }
}

/// Operation embedded in a request envelope.
#[derive(Clone, Debug)]
pub enum ExecutionCommand {
    /// Discover current provider capabilities.
    Capabilities(CapabilitiesRequest),
    /// Run all preflight stages with no publish action.
    Validate(PublishRequest),
    /// Run preflight and explicitly dispatch according to policy.
    Publish(PublishRequest),
}

impl ExecutionCommand {
    /// Stable operation label used in metadata-only diagnostics.
    pub fn name(&self) -> (r: &'static str)
        ensures
            r@ == match self {
                ExecutionCommand::Capabilities(_) => "capabilities"@,
                ExecutionCommand::Validate(_) => "validate"@,
                ExecutionCommand::Publish(_) => "publish"@,
            },
    {
        match self {
            ExecutionCommand::Capabilities(_) => "capabilities",
            ExecutionCommand::Validate(_) => "validate",
            ExecutionCommand::Publish(_) => "publish",
        }
    }
}

/// One `prism-execution.v1` request.
#[derive(Clone, Debug)]
pub struct RequestEnvelope {
    /// Must equal [`PROTOCOL_VERSION`].
    pub protocol_version: String,
    /// Caller correlation identifier.
    pub request_id: RequestId,
    /// Requested operation and payload.
    pub command: ExecutionCommand,
}

/// Successful operation result.
#[derive(Clone, Debug)]
pub enum ExecutionResult {
    /// Capability snapshot.
    Capabilities(ProviderCapabilities),
    /// Validation or publication report.
    Execution(ExecutionReport),
}

/// Stable request-level protocol error code.
#[derive(Clone, Copy, Debug, PartialEq, Eq, Structural)]
pub enum ProtocolErrorCode {
    /// Input is not a valid JSON protocol envelope.
    InvalidEnvelope,
    /// The requested protocol version is unsupported.
    UnsupportedProtocol,
    /// The envelope is valid but domain structure is not.
    InvalidRequest,
    /// No adapter is registered for the requested provider.
    ProviderNotFound,
    /// Adapter returned a request-level capability failure.
    CapabilityDiscoveryFailed,
    /// Unexpected internal failure that is safe to expose.
    Internal,
}

/// Safe request-level error. It never echoes the source payload.
#[derive(Clone, Debug, PartialEq, Eq)]
pub struct ProtocolError {
    /// Machine-stable error code.
    pub code: ProtocolErrorCode,
    /// Redacted human-readable explanation.
    pub message: String,
    /// Structured domain issues when available.
    pub issues: Vec<ValidationIssue>,
}

impl ProtocolError {
    /// Creates a protocol error without validation issues.
    pub fn new(code: ProtocolErrorCode, message: &str) -> (r: Self)
        ensures
            r.code == code,
            r.message@ == message@,
            r.issues@.len() == 0,
    {
        ProtocolError { code, message: owned(message), issues: Vec::new() }
    }

    /// Creates an invalid-request error with structured issues.
    pub fn invalid_request(issues: Vec<ValidationIssue>) -> (r: Self)
        ensures
            r.code == ProtocolErrorCode::InvalidRequest,
            r.message@ == "request failed deterministic structural validation"@,
            r.issues == issues,
    {
        ProtocolError {
            code: ProtocolErrorCode::InvalidRequest,
            message: owned("request failed deterministic structural validation"),
            issues,
        }
    }
}

/// Mutually exclusive successful or failed response body.
#[derive(Clone, Debug)]
pub enum ResponseBody {
    /// Successful operation (`ok` on the wire).
    Success {
        /// Typed operation result.
        result: ExecutionResult,
    },
    /// Request-level failure.
    Error {
        /// Typed safe error.
        error: ProtocolError,
    },
}

/// One `prism-execution.v1` response.
#[derive(Clone, Debug)]
pub struct ResponseEnvelope {
    /// Protocol version used by the runtime.
    pub protocol_version: String,
    /// Correlation identifier copied from a parsed request, or a safe fallback.
    pub request_id: RequestId,
    /// Exactly one success result or error.
    pub body: ResponseBody,
}

impl ResponseEnvelope {
    /// Creates a successful response.
    pub fn ok(request_id: RequestId, result: ExecutionResult) -> (r: Self)
        ensures
            r.protocol_version@ == PROTOCOL_VERSION@,
            r.request_id == request_id,
            r.body == (ResponseBody::Success { result }),
    {
        ResponseEnvelope {
            protocol_version: owned(PROTOCOL_VERSION),
            request_id,
            body: ResponseBody::Success { result },
        }
    }

    /// Creates a failed response.
    pub fn error(request_id: RequestId, error: ProtocolError) -> (r: Self)
        ensures
            r.protocol_version@ == PROTOCOL_VERSION@,
            r.request_id == request_id,
            r.body == (ResponseBody::Error { error }),
    {
        ResponseEnvelope {
            protocol_version: owned(PROTOCOL_VERSION),
            request_id,
            body: ResponseBody::Error { error },
        }
    }
}

/// The identifier a response carries for an envelope that could not be
/// parsed: the caller's fallback when it is a valid request identifier, else
/// `unparsed`.
pub open spec fn unparsed_request_id(fallback: Seq<char>) -> Seq<char> {
    if reference_problem(fallback) is None {
        fallback
    } else {
        "unparsed"@
    }
}

/// The fallback identifier for the envelope on a numbered input line:
/// `unparsed-{line}`.
pub fn line_fallback_id(line_number: u64) -> (r: String)
    ensures
        r@ == "unparsed-"@ + decimal(line_number as nat),
{
    let mut s = owned("unparsed-");
    push_decimal(&mut s, line_number);
    s
}

/// The response to an input that is not a protocol envelope: an
/// invalid-envelope error that locates the parse failure, under the fallback
/// identifier.
pub fn malformed_envelope_response(fallback_request_id: &str, line: u64, column: u64) -> (r:
    ResponseEnvelope)
    ensures
        r.protocol_version@ == PROTOCOL_VERSION@,
        r.request_id@ == unparsed_request_id(fallback_request_id@),
        r.body matches ResponseBody::Error { error } && error.code == ProtocolErrorCode::InvalidEnvelope
            && error.issues@.len() == 0 && error.message@ == "invalid JSON protocol envelope at line "@
            + decimal(line as nat) + " column "@ + decimal(column as nat),
{
    let request_id = match RequestId::new(fallback_request_id) {
        Ok(id) => id,
        Err(_) => {
            proof {
                reveal_strlit("unparsed");
                lemma_plain_dotted_valid("unparsed"@, false);
                assert(dotted_problem("unparsed"@, false) is None);
            }
            RequestId::from_valid("unparsed")
        },
    };
    let mut message = owned("invalid JSON protocol envelope at line ");
    push_decimal(&mut message, line);
    push_str(&mut message, " column ");
    push_decimal(&mut message, column);
    ResponseEnvelope::error(
        request_id,
        ProtocolError::new(ProtocolErrorCode::InvalidEnvelope, message.as_str()),
    )
}

/// Line bookkeeping of the NDJSON transport: every input line is counted,
/// blank lines carry no envelope, and every other line gets the fallback
/// identifier that names its number.
pub struct LineCounter {
    line_number: u64,
}

impl LineCounter {
    /// The number of lines counted so far, saturating at `u64::MAX`.
    pub closed spec fn count(self) -> u64 {
        self.line_number
    }

    /// A counter before the first line.
    pub fn new() -> (r: Self)
        ensures
            r.count() == 0,
    {
        LineCounter { line_number: 0 }
    }

    /// Counts one input line. A blank line, of white space only, carries no
    /// envelope and yields nothing; any other yields the fallback identifier
    /// for its envelope.
    pub fn next_line(&mut self, line: &str) -> (r: Option<String>)
        ensures
            final(self).count() == (if old(self).count() == u64::MAX {
                u64::MAX
            } else {
                (old(self).count() + 1) as u64
            }),
            blank(line@) ==> r is None,
            !blank(line@) ==> (r matches Some(id) && id@ == "unparsed-"@ + decimal(
                final(self).count() as nat,
            )),
    {
        self.line_number = self.line_number.saturating_add(1);
        if is_blank(line) {
            None
        } else {
            Some(line_fallback_id(self.line_number))
        }
    }
}

} // verus!
