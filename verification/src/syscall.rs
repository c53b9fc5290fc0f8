//! The syscall boundary as typed messages: serializable syscall errors that
//! carry kernel errors across it and back, and the framing checks of the
//! syscall codec.

use vstd::prelude::*;
use crate::ipc::{version_text, MessageEnvelope, MessageId, MessagePayload, SchemaVersion, ServiceId};
use crate::kernel_error::{KernelError, KernelFault};
use crate::text::push_str;

verus! {

/// Envelope action of syscall requests.
pub const SYSCALL_REQUEST_ACTION: &'static str = "kernel.syscall.request";

/// Envelope action of syscall responses.
pub const SYSCALL_RESPONSE_ACTION: &'static str = "kernel.syscall.response";

/// The schema version of syscall messages (v1.0).
pub open spec fn syscall_schema() -> SchemaVersion {
    SchemaVersion { major: 1, minor: 0 }
}

/// Kinds of syscall errors, one per kind of kernel error.
#[derive(Debug, Clone, Copy, PartialEq, Eq, Structural)]
pub enum SyscallErrorKind {
    SpawnFailed,
    ChannelError,
    SendFailed,
    ReceiveFailed,
    Timeout,
    ServiceNotFound,
    ServiceAlreadyRegistered,
    InsufficientAuthority,
    InvalidCapability,
    ResourceExhausted,
    ResourceBudgetExceeded,
    ResourceBudgetExhausted,
    Unknown,
}

/// A syscall error as it crosses the boundary.
#[derive(Debug, Clone)]
pub struct SyscallError {
    pub kind: SyscallErrorKind,
    pub message: String,
    pub resource_type: Option<String>,
    pub limit: Option<u64>,
    pub usage: Option<u64>,
    pub identity: Option<String>,
    pub operation: Option<String>,
}

/// A syscall error, as plain values.
pub struct SyscallFault {
    pub kind: SyscallErrorKind,
    pub message: Seq<char>,
    pub resource_type: Option<Seq<char>>,
    pub limit: Option<u64>,
    pub usage: Option<u64>,
    pub identity: Option<Seq<char>>,
    pub operation: Option<Seq<char>>,
}

/// The plain value of optional text.
pub open spec fn opt_view(s: Option<String>) -> Option<Seq<char>> {
    match s {
        Some(t) => Some(t@),
        None => None,
    }
}

impl View for SyscallError {
    type V = SyscallFault;

    open spec fn view(&self) -> SyscallFault {
        SyscallFault {
            kind: self.kind,
            message: self.message@,
            resource_type: opt_view(self.resource_type),
            limit: self.limit,
            usage: self.usage,
            identity: opt_view(self.identity),
            operation: opt_view(self.operation),
        }
    }
}

/// A syscall error with a kind and a message and no budget details.
pub open spec fn plain_fault(kind: SyscallErrorKind, message: Seq<char>) -> SyscallFault {
    SyscallFault {
        kind,
        message,
        resource_type: None,
        limit: None,
        usage: None,
        identity: None,
        operation: None,
    }
}

/// The syscall error a kernel error crosses the boundary as.
pub open spec fn fault_of_kernel(e: KernelFault) -> SyscallFault {
    match e {
        KernelFault::SpawnFailed(m) => plain_fault(SyscallErrorKind::SpawnFailed, m),
        KernelFault::ChannelError(m) => plain_fault(SyscallErrorKind::ChannelError, m),
        KernelFault::SendFailed(m) => plain_fault(SyscallErrorKind::SendFailed, m),
        KernelFault::ReceiveFailed(m) => plain_fault(SyscallErrorKind::ReceiveFailed, m),
        KernelFault::Timeout => plain_fault(SyscallErrorKind::Timeout, "Operation timed out"@),
        KernelFault::ServiceNotFound(m) => plain_fault(SyscallErrorKind::ServiceNotFound, m),
        KernelFault::ServiceAlreadyRegistered(m) => plain_fault(SyscallErrorKind::ServiceAlreadyRegistered, m),
        KernelFault::InsufficientAuthority(m) => plain_fault(SyscallErrorKind::InsufficientAuthority, m),
        KernelFault::InvalidCapability(m) => plain_fault(SyscallErrorKind::InvalidCapability, m),
        KernelFault::ResourceExhausted(m) => plain_fault(SyscallErrorKind::ResourceExhausted, m),
        KernelFault::ResourceBudgetExceeded { resource_type, limit, usage, identity, operation } =>
            SyscallFault {
            kind: SyscallErrorKind::ResourceBudgetExceeded,
            message: "Resource budget exceeded"@,
            resource_type: Some(resource_type),
            limit: Some(limit),
            usage: Some(usage),
            identity: Some(identity),
            operation: Some(operation),
        },
        KernelFault::ResourceBudgetExhausted { resource_type, limit, usage, identity, operation } =>
            SyscallFault {
            kind: SyscallErrorKind::ResourceBudgetExhausted,
            message: "Resource budget exhausted"@,
            resource_type: Some(resource_type),
            limit: Some(limit),
            usage: Some(usage),
            identity: Some(identity),
            operation: Some(operation),
        },
    }
}

/// Optional text, or a default.
pub open spec fn text_or(s: Option<Seq<char>>, default: Seq<char>) -> Seq<char> {
    match s {
        Some(t) => t,
        None => default,
    }
}

/// The kernel error a syscall error stands for: by its kind, with missing
/// budget details defaulted; an unknown kind is a failed receive.
pub open spec fn kernel_of_fault(s: SyscallFault) -> KernelFault {
    match s.kind {
        SyscallErrorKind::SpawnFailed => KernelFault::SpawnFailed(s.message),
        SyscallErrorKind::ChannelError => KernelFault::ChannelError(s.message),
        SyscallErrorKind::SendFailed => KernelFault::SendFailed(s.message),
        SyscallErrorKind::ReceiveFailed => KernelFault::ReceiveFailed(s.message),
        SyscallErrorKind::Timeout => KernelFault::Timeout,
        SyscallErrorKind::ServiceNotFound => KernelFault::ServiceNotFound(s.message),
        SyscallErrorKind::ServiceAlreadyRegistered => KernelFault::ServiceAlreadyRegistered(s.message),
        SyscallErrorKind::InsufficientAuthority => KernelFault::InsufficientAuthority(s.message),
        SyscallErrorKind::InvalidCapability => KernelFault::InvalidCapability(s.message),
        SyscallErrorKind::ResourceExhausted => KernelFault::ResourceExhausted(s.message),
        SyscallErrorKind::ResourceBudgetExceeded => KernelFault::ResourceBudgetExceeded {
            resource_type: text_or(s.resource_type, "Unknown"@),
            limit: match s.limit {
                Some(v) => v,
                None => 0,
            },
            usage: match s.usage {
                Some(v) => v,
                None => 0,
            },
            identity: text_or(s.identity, "unknown"@),
            operation: text_or(s.operation, "unknown"@),
        },
        SyscallErrorKind::ResourceBudgetExhausted => KernelFault::ResourceBudgetExhausted {
            resource_type: text_or(s.resource_type, "Unknown"@),
            limit: match s.limit {
                Some(v) => v,
                None => 0,
            },
            usage: match s.usage {
                Some(v) => v,
                None => 0,
            },
            identity: text_or(s.identity, "unknown"@),
            operation: text_or(s.operation, "unknown"@),
        },
        SyscallErrorKind::Unknown => KernelFault::ReceiveFailed(s.message),
    }
}

/// A kernel error that crosses the syscall boundary comes back as itself.
pub proof fn lemma_kernel_error_round_trip(e: KernelFault)
    ensures
        kernel_of_fault(fault_of_kernel(e)) == e,
{
}

/// Optional text, copied.
fn copy_opt(s: &Option<String>) -> (r: Option<String>)
    ensures
        opt_view(r) == opt_view(*s),
{
    match s {
        Some(t) => Some(t.clone()),
        None => None,
    }
}

/// Optional text, or a default.
fn unwrap_text(s: Option<String>, default: &str) -> (r: String)
    ensures
        r@ == text_or(opt_view(s), default@),
{
    match s {
        Some(t) => t,
        None => default.to_owned(),
    }
}

impl SyscallError {
    /// A syscall error with a kind and a message and no budget details.
    pub fn new(kind: SyscallErrorKind, message: String) -> (r: Self)
        ensures
            r@ == plain_fault(kind, message@),
    {
        SyscallError {
            kind,
            message,
            resource_type: None,
            limit: None,
            usage: None,
            identity: None,
            operation: None,
        }
    }

    /// The syscall error a kernel error crosses the boundary as.
    pub fn from(error: KernelError) -> (r: Self)
        ensures
            r@ == fault_of_kernel(error@),
    {
        match error {
            KernelError::SpawnFailed(m) => SyscallError::new(SyscallErrorKind::SpawnFailed, m),
            KernelError::ChannelError(m) => SyscallError::new(SyscallErrorKind::ChannelError, m),
            KernelError::SendFailed(m) => SyscallError::new(SyscallErrorKind::SendFailed, m),
            KernelError::ReceiveFailed(m) => SyscallError::new(SyscallErrorKind::ReceiveFailed, m),
            KernelError::Timeout => SyscallError::new(
                SyscallErrorKind::Timeout,
                "Operation timed out".to_owned(),
            ),
            KernelError::ServiceNotFound(m) => SyscallError::new(SyscallErrorKind::ServiceNotFound, m),
            KernelError::ServiceAlreadyRegistered(m) => SyscallError::new(
                SyscallErrorKind::ServiceAlreadyRegistered,
                m,
            ),
            KernelError::InsufficientAuthority(m) => SyscallError::new(
                SyscallErrorKind::InsufficientAuthority,
                m,
            ),
            KernelError::InvalidCapability(m) => SyscallError::new(SyscallErrorKind::InvalidCapability, m),
            KernelError::ResourceExhausted(m) => SyscallError::new(SyscallErrorKind::ResourceExhausted, m),
            KernelError::ResourceBudgetExceeded { resource_type, limit, usage, identity, operation } =>
                SyscallError {
                kind: SyscallErrorKind::ResourceBudgetExceeded,
                message: "Resource budget exceeded".to_owned(),
                resource_type: Some(resource_type),
                limit: Some(limit),
                usage: Some(usage),
                identity: Some(identity),
                operation: Some(operation),
            },
            KernelError::ResourceBudgetExhausted { resource_type, limit, usage, identity, operation } =>
                SyscallError {
                kind: SyscallErrorKind::ResourceBudgetExhausted,
                message: "Resource budget exhausted".to_owned(),
                resource_type: Some(resource_type),
                limit: Some(limit),
                usage: Some(usage),
                identity: Some(identity),
                operation: Some(operation),
            },
        }
    }

    /// The kernel error this syscall error stands for.
    pub fn into_kernel_error(self) -> (r: KernelError)
        ensures
            r@ == kernel_of_fault(self@),
    {
        match self.kind {
            SyscallErrorKind::SpawnFailed => KernelError::SpawnFailed(self.message),
            SyscallErrorKind::ChannelError => KernelError::ChannelError(self.message),
            SyscallErrorKind::SendFailed => KernelError::SendFailed(self.message),
            SyscallErrorKind::ReceiveFailed => KernelError::ReceiveFailed(self.message),
            SyscallErrorKind::Timeout => KernelError::Timeout,
            SyscallErrorKind::ServiceNotFound => KernelError::ServiceNotFound(self.message),
            SyscallErrorKind::ServiceAlreadyRegistered => KernelError::ServiceAlreadyRegistered(self.message),
            SyscallErrorKind::InsufficientAuthority => KernelError::InsufficientAuthority(self.message),
            SyscallErrorKind::InvalidCapability => KernelError::InvalidCapability(self.message),
            SyscallErrorKind::ResourceExhausted => KernelError::ResourceExhausted(self.message),
            SyscallErrorKind::ResourceBudgetExceeded => KernelError::ResourceBudgetExceeded {
                resource_type: unwrap_text(self.resource_type, "Unknown"),
                limit: match self.limit {
                    Some(v) => v,
                    None => 0,
                },
                usage: match self.usage {
                    Some(v) => v,
                    None => 0,
                },
                identity: unwrap_text(self.identity, "unknown"),
                operation: unwrap_text(self.operation, "unknown"),
            },
            SyscallErrorKind::ResourceBudgetExhausted => KernelError::ResourceBudgetExhausted {
                resource_type: unwrap_text(self.resource_type, "Unknown"),
                limit: match self.limit {
                    Some(v) => v,
                    None => 0,
                },
                usage: match self.usage {
                    Some(v) => v,
                    None => 0,
                },
                identity: unwrap_text(self.identity, "unknown"),
                operation: unwrap_text(self.operation, "unknown"),
            },
            SyscallErrorKind::Unknown => KernelError::ReceiveFailed(self.message),
        }
    }
}

/// Why a syscall message does not decode.
#[derive(Debug)]
pub enum SyscallCodecError {
    /// The envelope's action is not the expected one.
    UnexpectedAction(String),
    /// The envelope's schema version is not compatible.
    SchemaMismatch { expected: SchemaVersion, actual: SchemaVersion },
    /// The payload does not decode.
    Payload(String),
}

/// The message of a codec error.
pub open spec fn codec_error_text(e: SyscallCodecError) -> Seq<char> {
    match e {
        SyscallCodecError::UnexpectedAction(a) => "Unexpected syscall action: "@ + a@,
        SyscallCodecError::SchemaMismatch { expected, actual } => "Schema mismatch: expected "@ + version_text(
            expected,
        ) + ", got "@ + version_text(actual),
        SyscallCodecError::Payload(m) => "Payload error: "@ + m@,
    }
}

impl SyscallCodecError {
    /// The error's message.
    pub fn to_string(&self) -> (r: String)
        ensures
            r@ == codec_error_text(*self),
    {
        let mut s = String::new();
        match self {
            SyscallCodecError::UnexpectedAction(a) => {
                push_str(&mut s, "Unexpected syscall action: ");
                push_str(&mut s, a.as_str());
            },
            SyscallCodecError::SchemaMismatch { expected, actual } => {
                push_str(&mut s, "Schema mismatch: expected ");
                push_str(&mut s, expected.to_string().as_str());
                push_str(&mut s, ", got ");
                push_str(&mut s, actual.to_string().as_str());
            },
            SyscallCodecError::Payload(m) => {
                push_str(&mut s, "Payload error: ");
                push_str(&mut s, m.as_str());
            },
        }
        s
    }
}

/// Frames and checks syscall messages for the kernel service.
#[derive(Debug, Clone, Copy)]
pub struct SyscallCodec {
    service_id: ServiceId,
}

impl View for SyscallCodec {
    type V = ServiceId;

    /// The kernel service the codec frames messages for.
    closed spec fn view(&self) -> ServiceId {
        self.service_id
    }
}

impl SyscallCodec {
    /// A codec for the kernel service.
    pub fn new(service_id: ServiceId) -> (r: Self)
        ensures
            r@ == service_id,
    {
        SyscallCodec { service_id }
    }

    /// The kernel service.
    pub fn service_id(&self) -> (r: ServiceId)
        ensures
            r == self@,
    {
        self.service_id
    }

    /// The envelope of a serialized request to the kernel service.
    pub fn request_envelope(&self, payload: MessagePayload) -> (r: MessageEnvelope)
        ensures
            r.destination == self@,
            r.action@ == SYSCALL_REQUEST_ACTION@,
            r.schema_version == syscall_schema(),
            r.source is None,
            r.correlation_id is None,
            r.payload@ == payload@,
    {
        MessageEnvelope::new(
            self.service_id,
            SYSCALL_REQUEST_ACTION.to_owned(),
            SchemaVersion::new(1, 0),
            payload,
        )
    }

    /// The envelope of a serialized response, correlated to its request.
    pub fn response_envelope(&self, payload: MessagePayload, correlation_id: MessageId) -> (r:
        MessageEnvelope)
        ensures
            r.destination == self@,
            r.action@ == SYSCALL_RESPONSE_ACTION@,
            r.schema_version == syscall_schema(),
            r.source is None,
            r.correlation_id == Some(correlation_id),
            r.payload@ == payload@,
    {
        MessageEnvelope::new(
            self.service_id,
            SYSCALL_RESPONSE_ACTION.to_owned(),
            SchemaVersion::new(1, 0),
            payload,
        ).with_correlation(correlation_id)
    }

    /// Checks that an envelope carries a request: its action, then its
    /// schema version.
    pub fn check_request(&self, message: &MessageEnvelope) -> (r: Result<(), SyscallCodecError>)
        ensures
            message.action@ != SYSCALL_REQUEST_ACTION@ ==> (r matches Err(
                SyscallCodecError::UnexpectedAction(a),
            ) && a@ == message.action@),
            message.action@ == SYSCALL_REQUEST_ACTION@ && message.schema_version.major != 1 ==> (r matches Err(
                SyscallCodecError::SchemaMismatch { expected, actual },
            ) && expected == syscall_schema() && actual == message.schema_version),
            message.action@ == SYSCALL_REQUEST_ACTION@ && message.schema_version.major == 1 ==> r is Ok,
    {
        check_envelope(message, SYSCALL_REQUEST_ACTION)
    }

    /// Checks that an envelope carries a response: its action, then its
    /// schema version.
    pub fn check_response(&self, message: &MessageEnvelope) -> (r: Result<(), SyscallCodecError>)
        ensures
            message.action@ != SYSCALL_RESPONSE_ACTION@ ==> (r matches Err(
                SyscallCodecError::UnexpectedAction(a),
            ) && a@ == message.action@),
            message.action@ == SYSCALL_RESPONSE_ACTION@ && message.schema_version.major != 1 ==> (r matches Err(
                SyscallCodecError::SchemaMismatch { expected, actual },
            ) && expected == syscall_schema() && actual == message.schema_version),
            message.action@ == SYSCALL_RESPONSE_ACTION@ && message.schema_version.major == 1 ==> r is Ok,
    {
        check_envelope(message, SYSCALL_RESPONSE_ACTION)
    }
}

/// Checks an envelope's action, then its schema version.
fn check_envelope(message: &MessageEnvelope, action: &str) -> (r: Result<(), SyscallCodecError>)
    ensures
        message.action@ != action@ ==> (r matches Err(SyscallCodecError::UnexpectedAction(a)) && a@
            == message.action@),
        message.action@ == action@ && message.schema_version.major != 1 ==> (r matches Err(
            SyscallCodecError::SchemaMismatch { expected, actual },
        ) && expected == syscall_schema() && actual == message.schema_version),
        message.action@ == action@ && message.schema_version.major == 1 ==> r is Ok,
{
    let expected_action = action.to_owned();
    if message.action != expected_action {
        return Err(SyscallCodecError::UnexpectedAction(message.action.clone()));
    }
    let expected = SchemaVersion::new(1, 0);
    if !message.schema_version.is_compatible_with(&expected) {
        return Err(SyscallCodecError::SchemaMismatch { expected, actual: message.schema_version });
    }
    Ok(())
}

} // verus!
