//! Errors that can occur when interacting with the kernel.

use vstd::prelude::*;
use crate::text::{decimal, owned, push_decimal, push_str};

verus! {

/// Errors that can occur when interacting with the kernel.
#[derive(Debug, Clone, PartialEq, Eq)]
pub enum KernelError {
    /// Task spawn failed
    SpawnFailed(String),
    /// Channel operation failed
    ChannelError(String),
    /// Message send failed
    SendFailed(String),
    /// Message receive failed
    ReceiveFailed(String),
    /// Timeout occurred
    Timeout,
    /// Service not found
    ServiceNotFound(String),
    /// Service already registered
    ServiceAlreadyRegistered(String),
    /// Insufficient authority
    InsufficientAuthority(String),
    /// Invalid capability
    InvalidCapability(String),
    /// Resource exhausted
    ResourceExhausted(String),
    /// Resource budget exceeded (pre-exhaustion warning)
    ResourceBudgetExceeded {
        resource_type: String,
        limit: u64,
        usage: u64,
        identity: String,
        operation: String,
    },
    /// Resource budget exhausted (hard limit reached)
    ResourceBudgetExhausted {
        resource_type: String,
        limit: u64,
        usage: u64,
        identity: String,
        operation: String,
    },
}

/// "<resource> limit=<limit>, usage=<usage>, identity=<identity>, operation=<operation>".
pub open spec fn budget_detail(
    resource_type: Seq<char>,
    limit: u64,
    usage: u64,
    identity: Seq<char>,
    operation: Seq<char>,
) -> Seq<char> {
    resource_type + " limit="@ + decimal(limit as nat) + ", usage="@ + decimal(usage as nat)
        + ", identity="@ + identity + ", operation="@ + operation
}

/// A kernel error, as plain values.
pub enum KernelFault {
    SpawnFailed(Seq<char>),
    ChannelError(Seq<char>),
    SendFailed(Seq<char>),
    ReceiveFailed(Seq<char>),
    Timeout,
    ServiceNotFound(Seq<char>),
    ServiceAlreadyRegistered(Seq<char>),
    InsufficientAuthority(Seq<char>),
    InvalidCapability(Seq<char>),
    ResourceExhausted(Seq<char>),
    ResourceBudgetExceeded {
        resource_type: Seq<char>,
        limit: u64,
        usage: u64,
        identity: Seq<char>,
        operation: Seq<char>,
    },
    ResourceBudgetExhausted {
        resource_type: Seq<char>,
        limit: u64,
        usage: u64,
        identity: Seq<char>,
        operation: Seq<char>,
    },
}

impl View for KernelError {
    type V = KernelFault;

    open spec fn view(&self) -> KernelFault {
        match self {
            KernelError::SpawnFailed(m) => KernelFault::SpawnFailed(m@),
            KernelError::ChannelError(m) => KernelFault::ChannelError(m@),
            KernelError::SendFailed(m) => KernelFault::SendFailed(m@),
            KernelError::ReceiveFailed(m) => KernelFault::ReceiveFailed(m@),
            KernelError::Timeout => KernelFault::Timeout,
            KernelError::ServiceNotFound(m) => KernelFault::ServiceNotFound(m@),
            KernelError::ServiceAlreadyRegistered(m) => KernelFault::ServiceAlreadyRegistered(m@),
            KernelError::InsufficientAuthority(m) => KernelFault::InsufficientAuthority(m@),
            KernelError::InvalidCapability(m) => KernelFault::InvalidCapability(m@),
            KernelError::ResourceExhausted(m) => KernelFault::ResourceExhausted(m@),
            KernelError::ResourceBudgetExceeded { resource_type, limit, usage, identity, operation } =>
                KernelFault::ResourceBudgetExceeded {
                resource_type: resource_type@,
                limit: *limit,
                usage: *usage,
                identity: identity@,
                operation: operation@,
            },
            KernelError::ResourceBudgetExhausted { resource_type, limit, usage, identity, operation } =>
                KernelFault::ResourceBudgetExhausted {
                resource_type: resource_type@,
                limit: *limit,
                usage: *usage,
                identity: identity@,
                operation: operation@,
            },
        }
    }
}

/// The message that describes a kernel error.
pub open spec fn kernel_error_text(e: KernelError) -> Seq<char> {
    match e {
        KernelError::SpawnFailed(m) => "Failed to spawn task: "@ + m@,
        KernelError::ChannelError(m) => "Channel error: "@ + m@,
        KernelError::SendFailed(m) => "Failed to send message: "@ + m@,
        KernelError::ReceiveFailed(m) => "Failed to receive message: "@ + m@,
        KernelError::Timeout => "Operation timed out"@,
        KernelError::ServiceNotFound(m) => "Service not found: "@ + m@,
        KernelError::ServiceAlreadyRegistered(m) => "Service already registered: "@ + m@,
        KernelError::InsufficientAuthority(m) => "Insufficient authority: "@ + m@,
        KernelError::InvalidCapability(m) => "Invalid capability: "@ + m@,
        KernelError::ResourceExhausted(m) => "Resource exhausted: "@ + m@,
        KernelError::ResourceBudgetExceeded { resource_type, limit, usage, identity, operation } =>
            "Resource budget exceeded: "@ + budget_detail(
            resource_type@,
            limit,
            usage,
            identity@,
            operation@,
        ),
        KernelError::ResourceBudgetExhausted { resource_type, limit, usage, identity, operation } =>
            "Resource budget exhausted: "@ + budget_detail(
            resource_type@,
            limit,
            usage,
            identity@,
            operation@,
        ),
    }
}

fn prefixed(prefix: &str, msg: &String) -> (r: String)
    ensures
        r@ == prefix@ + msg@,
{
    let mut s = owned(prefix);
    push_str(&mut s, msg.as_str());
    s
}

fn budget_message(
    head: &str,
    resource_type: &String,
    limit: u64,
    usage: u64,
    identity: &String,
    operation: &String,
) -> (r: String)
    ensures
        r@ == head@ + budget_detail(resource_type@, limit, usage, identity@, operation@),
{
    let mut s = owned(head);
    push_str(&mut s, resource_type.as_str());
    push_str(&mut s, " limit=");
    push_decimal(&mut s, limit);
    push_str(&mut s, ", usage=");
    push_decimal(&mut s, usage);
    push_str(&mut s, ", identity=");
    push_str(&mut s, identity.as_str());
    push_str(&mut s, ", operation=");
    push_str(&mut s, operation.as_str());
    s
}

impl KernelError {
    /// Human-readable rendering of the error.
    pub fn to_string(&self) -> (r: String)
        ensures
            r@ == kernel_error_text(*self),
    {
        match self {
            KernelError::SpawnFailed(m) => prefixed("Failed to spawn task: ", m),
            KernelError::ChannelError(m) => prefixed("Channel error: ", m),
            KernelError::SendFailed(m) => prefixed("Failed to send message: ", m),
            KernelError::ReceiveFailed(m) => prefixed("Failed to receive message: ", m),
            KernelError::Timeout => owned("Operation timed out"),
            KernelError::ServiceNotFound(m) => prefixed("Service not found: ", m),
            KernelError::ServiceAlreadyRegistered(m) => prefixed("Service already registered: ", m),
            KernelError::InsufficientAuthority(m) => prefixed("Insufficient authority: ", m),
            KernelError::InvalidCapability(m) => prefixed("Invalid capability: ", m),
            KernelError::ResourceExhausted(m) => prefixed("Resource exhausted: ", m),
            KernelError::ResourceBudgetExceeded {
                resource_type,
                limit,
                usage,
                identity,
                operation,
            } => budget_message(
                "Resource budget exceeded: ",
                resource_type,
                *limit,
                *usage,
                identity,
                operation,
            ),
            KernelError::ResourceBudgetExhausted {
                resource_type,
                limit,
                usage,
                identity,
                operation,
            } => budget_message(
                "Resource budget exhausted: ",
                resource_type,
                *limit,
                *usage,
                identity,
                operation,
            ),
        }
    }
}

} // verus!
