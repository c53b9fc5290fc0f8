//! Execution identity: who runs, in which trust domain, under whose
//! supervision, with which resource budget. Identity is structural
//! information for supervision and audit; it grants no authority.

use vstd::prelude::*;
use crate::text::hex_char;
use crate::resources::{ResourceBudget, ResourceUsage};
use crate::text::{owned, push_str};

verus! {

/// The `width` low hexadecimal digits of `n`, most significant first.
pub open spec fn hex_fixed(n: nat, width: nat) -> Seq<char>
    decreases width,
{
    if width == 0 {
        Seq::empty()
    } else {
        hex_fixed(n / 16, (width - 1) as nat).push(hex_char(n % 16))
    }
}

/// The hyphenated lowercase rendering of a 128-bit UUID value:
/// 8-4-4-4-12 hexadecimal digits, most significant first.
pub open spec fn uuid_hyphenated(v: u128) -> Seq<char> {
    let n = v as nat;
    hex_fixed(n / 0x1_0000_0000_0000_0000_0000_0000, 8) + "-"@ + hex_fixed(
        n / 0x1_0000_0000_0000_0000_0000,
        4,
    ) + "-"@ + hex_fixed(n / 0x1_0000_0000_0000_0000, 4) + "-"@ + hex_fixed(
        n / 0x1_0000_0000_0000,
        4,
    ) + "-"@ + hex_fixed(n, 12)
}

/// Whether a 128-bit value is a version 4 UUID of the RFC 4122 variant:
/// the version field holds 4 and the two variant bits are `10`.
pub open spec fn is_v4(v: u128) -> bool {
    &&& (v >> 76u128) & 0xFu128 == 4u128
    &&& (v >> 62u128) & 0x3u128 == 2u128
}

/// Calls `uuid::Uuid::new_v4` and hands back its 128-bit value: random
/// bits, except that the version field is 4 and the variant bits are
/// `10`, which `new_v4` sets on every value.
#[verifier::external_body]
pub(crate) fn random_uuid_value() -> (r: u128)
    ensures
        is_v4(r),
{
    uuid::Uuid::new_v4().as_u128()
}

/// Renders a UUID value through `uuid::Uuid`'s `Display`, which writes the
/// hyphenated lowercase form.
#[verifier::external_body]
pub(crate) fn uuid_text(value: u128) -> (r: String)
    ensures
        r@ == uuid_hyphenated(value),
{
    uuid::Uuid::from_u128(value).to_string()
}

/// Unique identifier for an execution context; never reused.
#[derive(Debug, Clone, Copy, PartialEq, Eq, Hash, Structural)]
pub struct ExecutionId(u128);

impl View for ExecutionId {
    type V = u128;

    closed spec fn view(&self) -> u128 {
        self.0
    }
}

impl ExecutionId {
    /// Creates a new random execution id.
    pub fn new() -> (r: Self)
        ensures
            is_v4(r@),
    {
        ExecutionId(random_uuid_value())
    }

    /// Returns the 128-bit UUID value of this id.
    pub fn as_uuid(&self) -> (r: u128)
        ensures
            r == self@,
    {
        self.0
    }

    /// Human-readable rendering: "exec:" followed by the hyphenated UUID.
    pub fn to_string(&self) -> (r: String)
        ensures
            r@ == "exec:"@ + uuid_hyphenated(self@),
    {
        let mut s = owned("exec:");
        let t = uuid_text(self.0);
        push_str(&mut s, t.as_str());
        s
    }
}

/// Identifier of a task in the kernel.
#[derive(Debug, Clone, Copy, PartialEq, Eq, Hash, Structural)]
pub struct TaskId(u128);

impl View for TaskId {
    type V = u128;

    closed spec fn view(&self) -> u128 {
        self.0
    }
}

impl TaskId {
    /// Creates a new random task id.
    pub fn new() -> (r: Self)
        ensures
            is_v4(r@),
    {
        TaskId(random_uuid_value())
    }

    /// Creates a task id from a 128-bit UUID value.
    pub fn from_uuid(value: u128) -> (r: Self)
        ensures
            r@ == value,
    {
        TaskId(value)
    }

    /// Returns the 128-bit UUID value of this id.
    pub fn as_uuid(&self) -> (r: u128)
        ensures
            r == self@,
    {
        self.0
    }
}

/// Type of execution context: structural information, not authority.
#[derive(Debug, Clone, Copy, PartialEq, Eq, Hash, Structural)]
pub enum IdentityKind {
    /// Core system component (kernel, scheduler)
    System,
    /// User-space service (storage, logger, registry)
    Service,
    /// Application component
    Component,
    /// Pipeline stage execution
    PipelineStage,
}

impl IdentityKind {
    /// The name of the kind, as its variant is spelled.
    pub fn to_string(&self) -> (r: String)
        ensures
            r@ == (match *self {
                IdentityKind::System => "System"@,
                IdentityKind::Service => "Service"@,
                IdentityKind::Component => "Component"@,
                IdentityKind::PipelineStage => "PipelineStage"@,
            }),
    {
        match self {
            IdentityKind::System => owned("System"),
            IdentityKind::Service => owned("Service"),
            IdentityKind::Component => owned("Component"),
            IdentityKind::PipelineStage => owned("PipelineStage"),
        }
    }
}

/// Trust domain tag: the boundary for capability delegation.
#[derive(Debug, Clone, PartialEq, Eq, Hash)]
pub struct TrustDomain(String);

impl View for TrustDomain {
    type V = Seq<char>;

    closed spec fn view(&self) -> Seq<char> {
        self.0@
    }
}

impl TrustDomain {
    /// Creates a trust domain with the given name.
    pub fn new(name: &str) -> (r: Self)
        ensures
            r@ == name@,
    {
        TrustDomain(owned(name))
    }

    /// Core system trust domain.
    pub fn core_domain() -> (r: Self)
        ensures
            r@ == "core"@,
    {
        TrustDomain(owned("core"))
    }

    /// User application trust domain.
    pub fn user() -> (r: Self)
        ensures
            r@ == "user"@,
    {
        TrustDomain(owned("user"))
    }

    /// Sandboxed execution trust domain.
    pub fn sandbox() -> (r: Self)
        ensures
            r@ == "sandbox"@,
    {
        TrustDomain(owned("sandbox"))
    }

    /// Returns the domain name.
    pub fn name(&self) -> (r: &str)
        ensures
            r@ == self@,
    {
        self.0.as_str()
    }

    /// Whether two domains have the same name.
    pub fn same_as(&self, other: &TrustDomain) -> (r: bool)
        ensures
            r == (self@ == other@),
    {
        self.0 == other.0
    }

    /// Human-readable rendering: the domain name.
    pub fn to_string(&self) -> (r: String)
        ensures
            r@ == self@,
    {
        self.0.clone()
    }
}

/// Metadata of an execution identity: lineage, trust domain, optional
/// resource budget and current usage.
#[derive(Debug, Clone, PartialEq, Eq)]
pub struct IdentityMetadata {
    /// Unique execution identifier
    pub execution_id: ExecutionId,
    /// Type of execution
    pub kind: IdentityKind,
    /// Associated task id (if any)
    pub task_id: Option<TaskId>,
    /// Parent execution (supervisor)
    pub parent_id: Option<ExecutionId>,
    /// Creator execution (who spawned this)
    pub creator_id: Option<ExecutionId>,
    /// Time of creation (nanoseconds since epoch)
    pub created_at_nanos: u64,
    /// Trust domain
    pub trust_domain: TrustDomain,
    /// Human-readable name
    pub name: String,
    /// Optional resource budget
    pub budget: Option<ResourceBudget>,
    /// Current resource usage
    pub usage: ResourceUsage,
}

/// A child's budget is inherited from a parent's when both have one and
/// the child's fits under the parent's, or when either has none.
pub open spec fn budget_inherits(child: Option<ResourceBudget>, parent: Option<ResourceBudget>) -> bool {
    match (child, parent) {
        (Some(c), Some(p)) => c.within(p),
        _ => true,
    }
}

impl IdentityMetadata {
    /// Creates identity metadata with a fresh execution id, no lineage, no
    /// budget and zero usage.
    pub fn new(kind: IdentityKind, trust_domain: TrustDomain, name: &str, created_at_nanos: u64) -> (r: Self)
        ensures
            r.kind == kind,
            r.trust_domain == trust_domain,
            r.name@ == name@,
            r.created_at_nanos == created_at_nanos,
            r.task_id is None,
            r.parent_id is None,
            r.creator_id is None,
            r.budget is None,
            r.usage == ResourceUsage::zero_spec(),
    {
        IdentityMetadata {
            execution_id: ExecutionId::new(),
            kind,
            task_id: None,
            parent_id: None,
            creator_id: None,
            created_at_nanos,
            trust_domain,
            name: owned(name),
            budget: None,
            usage: ResourceUsage::zero(),
        }
    }

    /// Sets the task id.
    pub fn with_task_id(self, task_id: TaskId) -> (r: Self)
        ensures
            r == (IdentityMetadata { task_id: Some(task_id), ..self }),
    {
        let mut m = self;
        m.task_id = Some(task_id);
        m
    }

    /// Sets the parent id.
    pub fn with_parent(self, parent_id: ExecutionId) -> (r: Self)
        ensures
            r == (IdentityMetadata { parent_id: Some(parent_id), ..self }),
    {
        let mut m = self;
        m.parent_id = Some(parent_id);
        m
    }

    /// Sets the creator id.
    pub fn with_creator(self, creator_id: ExecutionId) -> (r: Self)
        ensures
            r == (IdentityMetadata { creator_id: Some(creator_id), ..self }),
    {
        let mut m = self;
        m.creator_id = Some(creator_id);
        m
    }

    /// Whether both identities are in the same trust domain.
    pub fn same_domain(&self, other: &IdentityMetadata) -> (r: bool)
        ensures
            r == (self.trust_domain@ == other.trust_domain@),
    {
        self.trust_domain.same_as(&other.trust_domain)
    }

    /// Whether this identity's parent is `parent_id`.
    pub fn is_child_of(&self, parent_id: ExecutionId) -> (r: bool)
        ensures
            r == (self.parent_id == Some(parent_id)),
    {
        match self.parent_id {
            Some(p) => p == parent_id,
            None => false,
        }
    }

    /// Attaches a resource budget.
    pub fn with_budget(self, budget: ResourceBudget) -> (r: Self)
        ensures
            r == (IdentityMetadata { budget: Some(budget), ..self }),
    {
        let mut m = self;
        m.budget = Some(budget);
        m
    }

    /// Whether a budget is attached.
    pub fn has_budget(&self) -> (r: bool)
        ensures
            r == (self.budget is Some),
    {
        self.budget.is_some()
    }

    /// Whether this identity's budget fits under the parent's (no
    /// constraint when either has no budget).
    pub fn budget_inherits_from(&self, parent: &IdentityMetadata) -> (r: bool)
        ensures
            r == budget_inherits(self.budget, parent.budget),
    {
        match (&self.budget, &parent.budget) {
            (Some(child_budget), Some(parent_budget)) => child_budget.is_subset_of(parent_budget),
            _ => true,
        }
    }
}

/// Why an execution terminated.
#[derive(Debug, Clone, PartialEq, Eq)]
pub enum ExitReason {
    /// Normal successful exit
    Normal,
    /// Failed with error
    Failure { error: String },
    /// Cancelled by supervisor or user
    Cancelled { reason: String },
    /// Timed out
    Timeout,
}

impl ExitReason {
    /// Human-readable rendering of the exit reason.
    pub fn to_string(&self) -> (r: String)
        ensures
            r@ == (match *self {
                ExitReason::Normal => "normal exit"@,
                ExitReason::Failure { error } => "failed: "@ + error@,
                ExitReason::Cancelled { reason } => "cancelled: "@ + reason@,
                ExitReason::Timeout => "timeout"@,
            }),
    {
        match self {
            ExitReason::Normal => owned("normal exit"),
            ExitReason::Failure { error } => {
                let mut s = owned("failed: ");
                push_str(&mut s, error.as_str());
                s
            },
            ExitReason::Cancelled { reason } => {
                let mut s = owned("cancelled: ");
                push_str(&mut s, reason.as_str());
                s
            },
            ExitReason::Timeout => owned("timeout"),
        }
    }
}

/// Sent to a supervisor when a child execution terminates.
#[derive(Debug, Clone, PartialEq, Eq)]
pub struct ExitNotification {
    /// Execution that terminated
    pub execution_id: ExecutionId,
    /// Task id (if applicable)
    pub task_id: Option<TaskId>,
    /// Why it terminated
    pub reason: ExitReason,
    /// When it terminated (nanoseconds since epoch)
    pub terminated_at_nanos: u64,
}

/// Identity-related errors.
#[derive(Debug, Clone, PartialEq, Eq)]
pub enum IdentityError {
    NotFound(ExecutionId),
    AlreadyExists(ExecutionId),
    ParentNotFound(ExecutionId),
    SupervisorMismatch { child: ExecutionId, supervisor: ExecutionId },
    UnrelatedIdentity(ExecutionId),
}

/// An identity whose budget equals its parent's inherits it, and an
/// identity without budget, or under a parent without budget, always
/// inherits.
pub proof fn lemma_budget_inheritance(child: Option<ResourceBudget>, parent: Option<ResourceBudget>)
    ensures
        budget_inherits(parent, parent),
        child is None ==> budget_inherits(child, parent),
        parent is None ==> budget_inherits(child, parent),
{
    if let Some(p) = parent {
        crate::resources::lemma_budget_within_reflexive(p);
    }
}

} // verus!
