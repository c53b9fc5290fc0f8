//! Resource budget primitives: explicit, finite resources whose consumption
//! is accounted deterministically.
//!
//! A `ResourceBudget` holds optional limits (no limit means unconstrained),
//! a `ResourceUsage` holds current consumption, and a `ResourceDelta` the
//! change between two usage snapshots.

use vstd::prelude::*;
use crate::text::{decimal, join, owned, push_decimal, push_joined_decimal, push_str, u64_to_string};

verus! {

/// `a + b` when it fits in 64 bits.
pub open spec fn checked_add_spec(a: u64, b: u64) -> Option<u64> {
    if a + b <= u64::MAX {
        Some((a + b) as u64)
    } else {
        None
    }
}

/// `a - b` when `b` is not larger than `a`.
pub open spec fn checked_sub_spec(a: u64, b: u64) -> Option<u64> {
    if a >= b {
        Some((a - b) as u64)
    } else {
        None
    }
}

/// `a + b`, clamped at `u64::MAX`.
pub open spec fn sat_add(a: u64, b: u64) -> u64 {
    if a + b <= u64::MAX {
        (a + b) as u64
    } else {
        u64::MAX
    }
}

/// `a - b`, clamped at zero.
pub open spec fn sat_sub(a: u64, b: u64) -> u64 {
    if a >= b {
        (a - b) as u64
    } else {
        0
    }
}

/// A child limit fits under a parent limit: an absent limit on either side
/// constrains nothing.
pub open spec fn limit_within(child: Option<u64>, parent: Option<u64>) -> bool {
    match (child, parent) {
        (Some(c), Some(p)) => c <= p,
        _ => true,
    }
}

/// The more restrictive of two optional limits.
pub open spec fn limit_min(a: Option<u64>, b: Option<u64>) -> Option<u64> {
    match (a, b) {
        (Some(x), Some(y)) => Some(if x <= y { x } else { y }),
        (Some(x), None) => Some(x),
        (None, Some(y)) => Some(y),
        (None, None) => None,
    }
}

/// Usage `u` stays within an optional limit.
pub open spec fn usage_within(u: u64, limit: Option<u64>) -> bool {
    match limit {
        Some(l) => u <= l,
        None => true,
    }
}

/// What remains of an optional limit after consuming `u`.
pub open spec fn limit_remaining(limit: Option<u64>, u: u64) -> Option<u64> {
    match limit {
        Some(l) => Some(sat_sub(l, u)),
        None => None,
    }
}

/// Simulated execution steps: abstract computational work units, not real CPU cycles.
#[derive(Debug, Clone, Copy, PartialEq, Eq, PartialOrd, Ord, Hash, Structural)]
pub struct CpuTicks(pub u64);

impl CpuTicks {
    /// Creates a counter holding `value`.
    pub fn new(value: u64) -> (r: Self)
        ensures
            r.0 == value,
    {
        CpuTicks(value)
    }

    /// The zero amount.
    pub fn zero() -> (r: Self)
        ensures
            r.0 == 0,
    {
        CpuTicks(0)
    }

    /// Whether the amount is zero.
    pub fn is_zero(&self) -> (r: bool)
        ensures
            r == (self.0 == 0),
    {
        self.0 == 0
    }

    /// Sum of two amounts, or `None` when it does not fit in 64 bits.
    pub fn checked_add(&self, other: Self) -> (r: Option<Self>)
        ensures
            r == (match checked_add_spec(self.0, other.0) {
                Some(v) => Some(CpuTicks(v)),
                None => None,
            }),
    {
        match self.0.checked_add(other.0) {
            Some(v) => Some(CpuTicks(v)),
            None => None,
        }
    }

    /// Difference of two amounts, or `None` when `other` is larger.
    pub fn checked_sub(&self, other: Self) -> (r: Option<Self>)
        ensures
            r == (match checked_sub_spec(self.0, other.0) {
                Some(v) => Some(CpuTicks(v)),
                None => None,
            }),
    {
        match self.0.checked_sub(other.0) {
            Some(v) => Some(CpuTicks(v)),
            None => None,
        }
    }

    /// Sum of two amounts, clamped at `u64::MAX`.
    pub fn saturating_add(&self, other: Self) -> (r: Self)
        ensures
            r.0 == sat_add(self.0, other.0),
    {
        CpuTicks(self.0.saturating_add(other.0))
    }

    /// Difference of two amounts, clamped at zero.
    pub fn saturating_sub(&self, other: Self) -> (r: Self)
        ensures
            r.0 == sat_sub(self.0, other.0),
    {
        CpuTicks(self.0.saturating_sub(other.0))
    }

    /// Human-readable rendering, such as "100 CPU ticks".
    pub fn to_string(&self) -> (r: String)
        ensures
            r@ == decimal(self.0 as nat) + " CPU ticks"@,
    {
        let mut s = u64_to_string(self.0);
        push_str(&mut s, " CPU ticks");
        s
    }
}

/// Abstract memory allocation units, not bytes.
#[derive(Debug, Clone, Copy, PartialEq, Eq, PartialOrd, Ord, Hash, Structural)]
pub struct MemoryUnits(pub u64);

impl MemoryUnits {
    /// Creates a counter holding `value`.
    pub fn new(value: u64) -> (r: Self)
        ensures
            r.0 == value,
    {
        MemoryUnits(value)
    }

    /// The zero amount.
    pub fn zero() -> (r: Self)
        ensures
            r.0 == 0,
    {
        MemoryUnits(0)
    }

    /// Whether the amount is zero.
    pub fn is_zero(&self) -> (r: bool)
        ensures
            r == (self.0 == 0),
    {
        self.0 == 0
    }

    /// Sum of two amounts, or `None` when it does not fit in 64 bits.
    pub fn checked_add(&self, other: Self) -> (r: Option<Self>)
        ensures
            r == (match checked_add_spec(self.0, other.0) {
                Some(v) => Some(MemoryUnits(v)),
                None => None,
            }),
    {
        match self.0.checked_add(other.0) {
            Some(v) => Some(MemoryUnits(v)),
            None => None,
        }
    }

    /// Difference of two amounts, or `None` when `other` is larger.
    pub fn checked_sub(&self, other: Self) -> (r: Option<Self>)
        ensures
            r == (match checked_sub_spec(self.0, other.0) {
                Some(v) => Some(MemoryUnits(v)),
                None => None,
            }),
    {
        match self.0.checked_sub(other.0) {
            Some(v) => Some(MemoryUnits(v)),
            None => None,
        }
    }

    /// Sum of two amounts, clamped at `u64::MAX`.
    pub fn saturating_add(&self, other: Self) -> (r: Self)
        ensures
            r.0 == sat_add(self.0, other.0),
    {
        MemoryUnits(self.0.saturating_add(other.0))
    }

    /// Difference of two amounts, clamped at zero.
    pub fn saturating_sub(&self, other: Self) -> (r: Self)
        ensures
            r.0 == sat_sub(self.0, other.0),
    {
        MemoryUnits(self.0.saturating_sub(other.0))
    }

    /// Human-readable rendering, such as "100 memory units".
    pub fn to_string(&self) -> (r: String)
        ensures
            r@ == decimal(self.0 as nat) + " memory units"@,
    {
        let mut s = u64_to_string(self.0);
        push_str(&mut s, " memory units");
        s
    }
}

/// Number of messages sent or received.
#[derive(Debug, Clone, Copy, PartialEq, Eq, PartialOrd, Ord, Hash, Structural)]
pub struct MessageCount(pub u64);

impl MessageCount {
    /// Creates a counter holding `value`.
    pub fn new(value: u64) -> (r: Self)
        ensures
            r.0 == value,
    {
        MessageCount(value)
    }

    /// The zero amount.
    pub fn zero() -> (r: Self)
        ensures
            r.0 == 0,
    {
        MessageCount(0)
    }

    /// Whether the amount is zero.
    pub fn is_zero(&self) -> (r: bool)
        ensures
            r == (self.0 == 0),
    {
        self.0 == 0
    }

    /// Sum of two amounts, or `None` when it does not fit in 64 bits.
    pub fn checked_add(&self, other: Self) -> (r: Option<Self>)
        ensures
            r == (match checked_add_spec(self.0, other.0) {
                Some(v) => Some(MessageCount(v)),
                None => None,
            }),
    {
        match self.0.checked_add(other.0) {
            Some(v) => Some(MessageCount(v)),
            None => None,
        }
    }

    /// Difference of two amounts, or `None` when `other` is larger.
    pub fn checked_sub(&self, other: Self) -> (r: Option<Self>)
        ensures
            r == (match checked_sub_spec(self.0, other.0) {
                Some(v) => Some(MessageCount(v)),
                None => None,
            }),
    {
        match self.0.checked_sub(other.0) {
            Some(v) => Some(MessageCount(v)),
            None => None,
        }
    }

    /// Sum of two amounts, clamped at `u64::MAX`.
    pub fn saturating_add(&self, other: Self) -> (r: Self)
        ensures
            r.0 == sat_add(self.0, other.0),
    {
        MessageCount(self.0.saturating_add(other.0))
    }

    /// Difference of two amounts, clamped at zero.
    pub fn saturating_sub(&self, other: Self) -> (r: Self)
        ensures
            r.0 == sat_sub(self.0, other.0),
    {
        MessageCount(self.0.saturating_sub(other.0))
    }

    /// Human-readable rendering, such as "100 messages".
    pub fn to_string(&self) -> (r: String)
        ensures
            r@ == decimal(self.0 as nat) + " messages"@,
    {
        let mut s = u64_to_string(self.0);
        push_str(&mut s, " messages");
        s
    }
}

/// Number of storage read/write operations.
#[derive(Debug, Clone, Copy, PartialEq, Eq, PartialOrd, Ord, Hash, Structural)]
pub struct StorageOps(pub u64);

impl StorageOps {
    /// Creates a counter holding `value`.
    pub fn new(value: u64) -> (r: Self)
        ensures
            r.0 == value,
    {
        StorageOps(value)
    }

    /// The zero amount.
    pub fn zero() -> (r: Self)
        ensures
            r.0 == 0,
    {
        StorageOps(0)
    }

    /// Whether the amount is zero.
    pub fn is_zero(&self) -> (r: bool)
        ensures
            r == (self.0 == 0),
    {
        self.0 == 0
    }

    /// Sum of two amounts, or `None` when it does not fit in 64 bits.
    pub fn checked_add(&self, other: Self) -> (r: Option<Self>)
        ensures
            r == (match checked_add_spec(self.0, other.0) {
                Some(v) => Some(StorageOps(v)),
                None => None,
            }),
    {
        match self.0.checked_add(other.0) {
            Some(v) => Some(StorageOps(v)),
            None => None,
        }
    }

    /// Difference of two amounts, or `None` when `other` is larger.
    pub fn checked_sub(&self, other: Self) -> (r: Option<Self>)
        ensures
            r == (match checked_sub_spec(self.0, other.0) {
                Some(v) => Some(StorageOps(v)),
                None => None,
            }),
    {
        match self.0.checked_sub(other.0) {
            Some(v) => Some(StorageOps(v)),
            None => None,
        }
    }

    /// Sum of two amounts, clamped at `u64::MAX`.
    pub fn saturating_add(&self, other: Self) -> (r: Self)
        ensures
            r.0 == sat_add(self.0, other.0),
    {
        StorageOps(self.0.saturating_add(other.0))
    }

    /// Difference of two amounts, clamped at zero.
    pub fn saturating_sub(&self, other: Self) -> (r: Self)
        ensures
            r.0 == sat_sub(self.0, other.0),
    {
        StorageOps(self.0.saturating_sub(other.0))
    }

    /// Human-readable rendering, such as "100 storage ops".
    pub fn to_string(&self) -> (r: String)
        ensures
            r@ == decimal(self.0 as nat) + " storage ops"@,
    {
        let mut s = u64_to_string(self.0);
        push_str(&mut s, " storage ops");
        s
    }
}

/// Number of pipeline stages executed.
#[derive(Debug, Clone, Copy, PartialEq, Eq, PartialOrd, Ord, Hash, Structural)]
pub struct PipelineStages(pub u64);

impl PipelineStages {
    /// Creates a counter holding `value`.
    pub fn new(value: u64) -> (r: Self)
        ensures
            r.0 == value,
    {
        PipelineStages(value)
    }

    /// The zero amount.
    pub fn zero() -> (r: Self)
        ensures
            r.0 == 0,
    {
        PipelineStages(0)
    }

    /// Whether the amount is zero.
    pub fn is_zero(&self) -> (r: bool)
        ensures
            r == (self.0 == 0),
    {
        self.0 == 0
    }

    /// Sum of two amounts, or `None` when it does not fit in 64 bits.
    pub fn checked_add(&self, other: Self) -> (r: Option<Self>)
        ensures
            r == (match checked_add_spec(self.0, other.0) {
                Some(v) => Some(PipelineStages(v)),
                None => None,
            }),
    {
        match self.0.checked_add(other.0) {
            Some(v) => Some(PipelineStages(v)),
            None => None,
        }
    }

    /// Difference of two amounts, or `None` when `other` is larger.
    pub fn checked_sub(&self, other: Self) -> (r: Option<Self>)
        ensures
            r == (match checked_sub_spec(self.0, other.0) {
                Some(v) => Some(PipelineStages(v)),
                None => None,
            }),
    {
        match self.0.checked_sub(other.0) {
            Some(v) => Some(PipelineStages(v)),
            None => None,
        }
    }

    /// Sum of two amounts, clamped at `u64::MAX`.
    pub fn saturating_add(&self, other: Self) -> (r: Self)
        ensures
            r.0 == sat_add(self.0, other.0),
    {
        PipelineStages(self.0.saturating_add(other.0))
    }

    /// Difference of two amounts, clamped at zero.
    pub fn saturating_sub(&self, other: Self) -> (r: Self)
        ensures
            r.0 == sat_sub(self.0, other.0),
    {
        PipelineStages(self.0.saturating_sub(other.0))
    }

    /// Human-readable rendering, such as "100 pipeline stages".
    pub fn to_string(&self) -> (r: String)
        ensures
            r@ == decimal(self.0 as nat) + " pipeline stages"@,
    {
        let mut s = u64_to_string(self.0);
        push_str(&mut s, " pipeline stages");
        s
    }
}

/// The raw limit of an optional CPU tick limit.
pub open spec fn cpu_limit(o: Option<CpuTicks>) -> Option<u64> {
    match o {
        Some(v) => Some(v.0),
        None => None,
    }
}

/// The raw limit of an optional memory limit.
pub open spec fn mem_limit(o: Option<MemoryUnits>) -> Option<u64> {
    match o {
        Some(v) => Some(v.0),
        None => None,
    }
}

/// The raw limit of an optional message limit.
pub open spec fn msg_limit(o: Option<MessageCount>) -> Option<u64> {
    match o {
        Some(v) => Some(v.0),
        None => None,
    }
}

/// The raw limit of an optional storage operation limit.
pub open spec fn storage_limit(o: Option<StorageOps>) -> Option<u64> {
    match o {
        Some(v) => Some(v.0),
        None => None,
    }
}

/// The raw limit of an optional pipeline stage limit.
pub open spec fn stages_limit(o: Option<PipelineStages>) -> Option<u64> {
    match o {
        Some(v) => Some(v.0),
        None => None,
    }
}

/// Resource budget: optional limits on each resource. `None` means the
/// resource is not constrained.
#[derive(Debug, Clone, Copy, PartialEq, Eq, Structural)]
pub struct ResourceBudget {
    pub cpu_ticks: Option<CpuTicks>,
    pub memory_units: Option<MemoryUnits>,
    pub message_count: Option<MessageCount>,
    pub storage_ops: Option<StorageOps>,
    pub pipeline_stages: Option<PipelineStages>,
}

impl ResourceBudget {
    /// Every limit of `self` fits under the corresponding limit of `other`.
    pub open spec fn within(self, other: ResourceBudget) -> bool {
        &&& limit_within(cpu_limit(self.cpu_ticks), cpu_limit(other.cpu_ticks))
        &&& limit_within(mem_limit(self.memory_units), mem_limit(other.memory_units))
        &&& limit_within(msg_limit(self.message_count), msg_limit(other.message_count))
        &&& limit_within(storage_limit(self.storage_ops), storage_limit(other.storage_ops))
        &&& limit_within(stages_limit(self.pipeline_stages), stages_limit(other.pipeline_stages))
    }

    /// The budget that has no limit at all.
    pub open spec fn unlimited_spec() -> ResourceBudget {
        ResourceBudget {
            cpu_ticks: None,
            memory_units: None,
            message_count: None,
            storage_ops: None,
            pipeline_stages: None,
        }
    }

    /// The budget that limits every resource to zero.
    pub open spec fn zero_spec() -> ResourceBudget {
        ResourceBudget {
            cpu_ticks: Some(CpuTicks(0)),
            memory_units: Some(MemoryUnits(0)),
            message_count: Some(MessageCount(0)),
            storage_ops: Some(StorageOps(0)),
            pipeline_stages: Some(PipelineStages(0)),
        }
    }

    /// The field-wise most restrictive combination of two budgets.
    pub open spec fn min_spec(self, other: ResourceBudget) -> ResourceBudget {
        ResourceBudget {
            cpu_ticks: match limit_min(cpu_limit(self.cpu_ticks), cpu_limit(other.cpu_ticks)) {
                Some(v) => Some(CpuTicks(v)),
                None => None,
            },
            memory_units: match limit_min(mem_limit(self.memory_units), mem_limit(other.memory_units)) {
                Some(v) => Some(MemoryUnits(v)),
                None => None,
            },
            message_count: match limit_min(msg_limit(self.message_count), msg_limit(other.message_count)) {
                Some(v) => Some(MessageCount(v)),
                None => None,
            },
            storage_ops: match limit_min(storage_limit(self.storage_ops), storage_limit(other.storage_ops)) {
                Some(v) => Some(StorageOps(v)),
                None => None,
            },
            pipeline_stages: match limit_min(stages_limit(self.pipeline_stages), stages_limit(other.pipeline_stages)) {
                Some(v) => Some(PipelineStages(v)),
                None => None,
            },
        }
    }

    /// Creates a budget with no limits.
    pub fn unlimited() -> (r: Self)
        ensures
            r == Self::unlimited_spec(),
    {
        ResourceBudget {
            cpu_ticks: None,
            memory_units: None,
            message_count: None,
            storage_ops: None,
            pipeline_stages: None,
        }
    }

    /// Creates a budget with every resource limited to zero.
    pub fn zero() -> (r: Self)
        ensures
            r == Self::zero_spec(),
    {
        ResourceBudget {
            cpu_ticks: Some(CpuTicks::zero()),
            memory_units: Some(MemoryUnits::zero()),
            message_count: Some(MessageCount::zero()),
            storage_ops: Some(StorageOps::zero()),
            pipeline_stages: Some(PipelineStages::zero()),
        }
    }

    /// Builder: sets the CPU ticks limit.
    pub fn with_cpu_ticks(self, limit: CpuTicks) -> (r: Self)
        ensures
            r == (ResourceBudget { cpu_ticks: Some(limit), ..self }),
    {
        let mut b = self;
        b.cpu_ticks = Some(limit);
        b
    }

    /// Builder: sets the memory units limit.
    pub fn with_memory_units(self, limit: MemoryUnits) -> (r: Self)
        ensures
            r == (ResourceBudget { memory_units: Some(limit), ..self }),
    {
        let mut b = self;
        b.memory_units = Some(limit);
        b
    }

    /// Builder: sets the message count limit.
    pub fn with_message_count(self, limit: MessageCount) -> (r: Self)
        ensures
            r == (ResourceBudget { message_count: Some(limit), ..self }),
    {
        let mut b = self;
        b.message_count = Some(limit);
        b
    }

    /// Builder: sets the storage operations limit.
    pub fn with_storage_ops(self, limit: StorageOps) -> (r: Self)
        ensures
            r == (ResourceBudget { storage_ops: Some(limit), ..self }),
    {
        let mut b = self;
        b.storage_ops = Some(limit);
        b
    }

    /// Builder: sets the pipeline stages limit.
    pub fn with_pipeline_stages(self, limit: PipelineStages) -> (r: Self)
        ensures
            r == (ResourceBudget { pipeline_stages: Some(limit), ..self }),
    {
        let mut b = self;
        b.pipeline_stages = Some(limit);
        b
    }

    /// Whether every limit of this budget is at most the corresponding limit
    /// of `other`. A resource without a limit on either side is not
    /// constrained.
    pub fn is_subset_of(&self, other: &ResourceBudget) -> (r: bool)
        ensures
            r == self.within(*other),
    {
        if let Some(self_cpu) = self.cpu_ticks {
            if let Some(other_cpu) = other.cpu_ticks {
                if self_cpu.0 > other_cpu.0 {
                    return false;
                }
            }
        }
        if let Some(self_mem) = self.memory_units {
            if let Some(other_mem) = other.memory_units {
                if self_mem.0 > other_mem.0 {
                    return false;
                }
            }
        }
        if let Some(self_msg) = self.message_count {
            if let Some(other_msg) = other.message_count {
                if self_msg.0 > other_msg.0 {
                    return false;
                }
            }
        }
        if let Some(self_storage) = self.storage_ops {
            if let Some(other_storage) = other.storage_ops {
                if self_storage.0 > other_storage.0 {
                    return false;
                }
            }
        }
        if let Some(self_stages) = self.pipeline_stages {
            if let Some(other_stages) = other.pipeline_stages {
                if self_stages.0 > other_stages.0 {
                    return false;
                }
            }
        }
        true
    }

    /// The most restrictive combination of two budgets: each resource takes
    /// the smaller of the two limits, or the one limit that exists.
    pub fn min(&self, other: &ResourceBudget) -> (r: ResourceBudget)
        ensures
            r == self.min_spec(*other),
    {
        ResourceBudget {
            cpu_ticks: match (self.cpu_ticks, other.cpu_ticks) {
                (Some(a), Some(b)) => Some(if a.0 <= b.0 { a } else { b }),
                (Some(a), None) => Some(a),
                (None, Some(b)) => Some(b),
                (None, None) => None,
            },
            memory_units: match (self.memory_units, other.memory_units) {
                (Some(a), Some(b)) => Some(if a.0 <= b.0 { a } else { b }),
                (Some(a), None) => Some(a),
                (None, Some(b)) => Some(b),
                (None, None) => None,
            },
            message_count: match (self.message_count, other.message_count) {
                (Some(a), Some(b)) => Some(if a.0 <= b.0 { a } else { b }),
                (Some(a), None) => Some(a),
                (None, Some(b)) => Some(b),
                (None, None) => None,
            },
            storage_ops: match (self.storage_ops, other.storage_ops) {
                (Some(a), Some(b)) => Some(if a.0 <= b.0 { a } else { b }),
                (Some(a), None) => Some(a),
                (None, Some(b)) => Some(b),
                (None, None) => None,
            },
            pipeline_stages: match (self.pipeline_stages, other.pipeline_stages) {
                (Some(a), Some(b)) => Some(if a.0 <= b.0 { a } else { b }),
                (Some(a), None) => Some(a),
                (None, Some(b)) => Some(b),
                (None, None) => None,
            },
        }
    }
}

impl Default for ResourceBudget {
    fn default() -> (r: Self)
        ensures
            r == Self::unlimited_spec(),
    {
        Self::unlimited()
    }
}

/// Current resource consumption.
#[derive(Debug, Clone, Copy, PartialEq, Eq, Structural)]
pub struct ResourceUsage {
    pub cpu_ticks: CpuTicks,
    pub memory_units: MemoryUnits,
    pub message_count: MessageCount,
    pub storage_ops: StorageOps,
    pub pipeline_stages: PipelineStages,
}

/// Which resource exceeded its limit, with the limit and the usage.
#[derive(Debug, Clone, Copy, PartialEq, Eq, Structural)]
pub enum ResourceExceeded {
    CpuTicks { limit: CpuTicks, usage: CpuTicks },
    MemoryUnits { limit: MemoryUnits, usage: MemoryUnits },
    MessageCount { limit: MessageCount, usage: MessageCount },
    StorageOps { limit: StorageOps, usage: StorageOps },
    PipelineStages { limit: PipelineStages, usage: PipelineStages },
}

impl ResourceUsage {
    /// Usage with every counter at zero.
    pub open spec fn zero_spec() -> ResourceUsage {
        ResourceUsage {
            cpu_ticks: CpuTicks(0),
            memory_units: MemoryUnits(0),
            message_count: MessageCount(0),
            storage_ops: StorageOps(0),
            pipeline_stages: PipelineStages(0),
        }
    }

    /// Every counter stays within the corresponding limit of `budget`.
    pub open spec fn within_budget(self, budget: ResourceBudget) -> bool {
        &&& usage_within(self.cpu_ticks.0, cpu_limit(budget.cpu_ticks))
        &&& usage_within(self.memory_units.0, mem_limit(budget.memory_units))
        &&& usage_within(self.message_count.0, msg_limit(budget.message_count))
        &&& usage_within(self.storage_ops.0, storage_limit(budget.storage_ops))
        &&& usage_within(self.pipeline_stages.0, stages_limit(budget.pipeline_stages))
    }

    /// The first resource, in the order CPU ticks, memory units, messages,
    /// storage operations, pipeline stages, whose usage is above its limit.
    pub open spec fn exceeds_spec(self, budget: ResourceBudget) -> Option<ResourceExceeded> {
        if budget.cpu_ticks is Some && self.cpu_ticks.0 > (budget.cpu_ticks->0).0 {
            Some(ResourceExceeded::CpuTicks { limit: budget.cpu_ticks->0, usage: self.cpu_ticks })
        } else if budget.memory_units is Some && self.memory_units.0 > (budget.memory_units->0).0 {
            Some(
                ResourceExceeded::MemoryUnits {
                    limit: budget.memory_units->0,
                    usage: self.memory_units,
                },
            )
        } else if budget.message_count is Some && self.message_count.0
            > (budget.message_count->0).0 {
            Some(
                ResourceExceeded::MessageCount {
                    limit: budget.message_count->0,
                    usage: self.message_count,
                },
            )
        } else if budget.storage_ops is Some && self.storage_ops.0 > (budget.storage_ops->0).0 {
            Some(
                ResourceExceeded::StorageOps {
                    limit: budget.storage_ops->0,
                    usage: self.storage_ops,
                },
            )
        } else if budget.pipeline_stages is Some && self.pipeline_stages.0
            > (budget.pipeline_stages->0).0 {
            Some(
                ResourceExceeded::PipelineStages {
                    limit: budget.pipeline_stages->0,
                    usage: self.pipeline_stages,
                },
            )
        } else {
            None
        }
    }

    /// The budget left over after this usage: each limit minus the usage,
    /// clamped at zero; unlimited resources stay unlimited.
    pub open spec fn remaining_spec(self, budget: ResourceBudget) -> ResourceBudget {
        ResourceBudget {
            cpu_ticks: match limit_remaining(cpu_limit(budget.cpu_ticks), self.cpu_ticks.0) {
                Some(v) => Some(CpuTicks(v)),
                None => None,
            },
            memory_units: match limit_remaining(mem_limit(budget.memory_units), self.memory_units.0) {
                Some(v) => Some(MemoryUnits(v)),
                None => None,
            },
            message_count: match limit_remaining(msg_limit(budget.message_count), self.message_count.0) {
                Some(v) => Some(MessageCount(v)),
                None => None,
            },
            storage_ops: match limit_remaining(storage_limit(budget.storage_ops), self.storage_ops.0) {
                Some(v) => Some(StorageOps(v)),
                None => None,
            },
            pipeline_stages: match limit_remaining(stages_limit(budget.pipeline_stages), self.pipeline_stages.0) {
                Some(v) => Some(PipelineStages(v)),
                None => None,
            },
        }
    }

    /// Creates a usage tracker with every counter at zero.
    pub fn zero() -> (r: Self)
        ensures
            r == Self::zero_spec(),
    {
        ResourceUsage {
            cpu_ticks: CpuTicks::zero(),
            memory_units: MemoryUnits::zero(),
            message_count: MessageCount::zero(),
            storage_ops: StorageOps::zero(),
            pipeline_stages: PipelineStages::zero(),
        }
    }

    /// Consumes CPU ticks (saturating).
    pub fn consume_cpu_ticks(&mut self, amount: CpuTicks)
        ensures
            *final(self) == (ResourceUsage {
                cpu_ticks: CpuTicks(sat_add(old(self).cpu_ticks.0, amount.0)),
                ..*old(self)
            }),
    {
        self.cpu_ticks = self.cpu_ticks.saturating_add(amount);
    }

    /// Consumes memory units (saturating).
    pub fn consume_memory_units(&mut self, amount: MemoryUnits)
        ensures
            *final(self) == (ResourceUsage {
                memory_units: MemoryUnits(sat_add(old(self).memory_units.0, amount.0)),
                ..*old(self)
            }),
    {
        self.memory_units = self.memory_units.saturating_add(amount);
    }

    /// Consumes one message (saturating).
    pub fn consume_message(&mut self)
        ensures
            *final(self) == (ResourceUsage {
                message_count: MessageCount(sat_add(old(self).message_count.0, 1)),
                ..*old(self)
            }),
    {
        self.message_count = self.message_count.saturating_add(MessageCount::new(1));
    }

    /// Consumes one storage operation (saturating).
    pub fn consume_storage_op(&mut self)
        ensures
            *final(self) == (ResourceUsage {
                storage_ops: StorageOps(sat_add(old(self).storage_ops.0, 1)),
                ..*old(self)
            }),
    {
        self.storage_ops = self.storage_ops.saturating_add(StorageOps::new(1));
    }

    /// Consumes one pipeline stage (saturating).
    pub fn consume_pipeline_stage(&mut self)
        ensures
            *final(self) == (ResourceUsage {
                pipeline_stages: PipelineStages(sat_add(old(self).pipeline_stages.0, 1)),
                ..*old(self)
            }),
    {
        self.pipeline_stages = self.pipeline_stages.saturating_add(PipelineStages::new(1));
    }

    /// Returns the first resource whose usage exceeds its limit, if any.
    pub fn exceeds(&self, budget: &ResourceBudget) -> (r: Option<ResourceExceeded>)
        ensures
            r == self.exceeds_spec(*budget),
    {
        if let Some(limit) = budget.cpu_ticks {
            if self.cpu_ticks.0 > limit.0 {
                return Some(ResourceExceeded::CpuTicks { limit, usage: self.cpu_ticks });
            }
        }
        if let Some(limit) = budget.memory_units {
            if self.memory_units.0 > limit.0 {
                return Some(ResourceExceeded::MemoryUnits { limit, usage: self.memory_units });
            }
        }
        if let Some(limit) = budget.message_count {
            if self.message_count.0 > limit.0 {
                return Some(ResourceExceeded::MessageCount { limit, usage: self.message_count });
            }
        }
        if let Some(limit) = budget.storage_ops {
            if self.storage_ops.0 > limit.0 {
                return Some(ResourceExceeded::StorageOps { limit, usage: self.storage_ops });
            }
        }
        if let Some(limit) = budget.pipeline_stages {
            if self.pipeline_stages.0 > limit.0 {
                return Some(
                    ResourceExceeded::PipelineStages { limit, usage: self.pipeline_stages },
                );
            }
        }
        None
    }

    /// Returns the budget remaining after this usage.
    pub fn remaining(&self, budget: &ResourceBudget) -> (r: ResourceBudget)
        ensures
            r == self.remaining_spec(*budget),
    {
        ResourceBudget {
            cpu_ticks: match budget.cpu_ticks {
                Some(limit) => Some(limit.saturating_sub(self.cpu_ticks)),
                None => None,
            },
            memory_units: match budget.memory_units {
                Some(limit) => Some(limit.saturating_sub(self.memory_units)),
                None => None,
            },
            message_count: match budget.message_count {
                Some(limit) => Some(limit.saturating_sub(self.message_count)),
                None => None,
            },
            storage_ops: match budget.storage_ops {
                Some(limit) => Some(limit.saturating_sub(self.storage_ops)),
                None => None,
            },
            pipeline_stages: match budget.pipeline_stages {
                Some(limit) => Some(limit.saturating_sub(self.pipeline_stages)),
                None => None,
            },
        }
    }
}

impl Default for ResourceUsage {
    fn default() -> (r: Self)
        ensures
            r == Self::zero_spec(),
    {
        Self::zero()
    }
}

/// Change of resource consumption between two usage snapshots.
#[derive(Debug, Clone, Copy, PartialEq, Eq, Structural)]
pub struct ResourceDelta {
    pub cpu_ticks: CpuTicks,
    pub memory_units: MemoryUnits,
    pub message_count: MessageCount,
    pub storage_ops: StorageOps,
    pub pipeline_stages: PipelineStages,
}

impl ResourceDelta {
    /// The delta with every counter at zero.
    pub open spec fn zero_spec() -> ResourceDelta {
        ResourceDelta {
            cpu_ticks: CpuTicks(0),
            memory_units: MemoryUnits(0),
            message_count: MessageCount(0),
            storage_ops: StorageOps(0),
            pipeline_stages: PipelineStages(0),
        }
    }

    /// The counter-wise difference `after - before`, clamped at zero.
    pub open spec fn from_spec(before: ResourceUsage, after: ResourceUsage) -> ResourceDelta {
        ResourceDelta {
            cpu_ticks: CpuTicks(sat_sub(after.cpu_ticks.0, before.cpu_ticks.0)),
            memory_units: MemoryUnits(sat_sub(after.memory_units.0, before.memory_units.0)),
            message_count: MessageCount(sat_sub(after.message_count.0, before.message_count.0)),
            storage_ops: StorageOps(sat_sub(after.storage_ops.0, before.storage_ops.0)),
            pipeline_stages: PipelineStages(
                sat_sub(after.pipeline_stages.0, before.pipeline_stages.0),
            ),
        }
    }

    /// Creates a delta with every counter at zero.
    pub fn zero() -> (r: Self)
        ensures
            r == Self::zero_spec(),
    {
        ResourceDelta {
            cpu_ticks: CpuTicks::zero(),
            memory_units: MemoryUnits::zero(),
            message_count: MessageCount::zero(),
            storage_ops: StorageOps::zero(),
            pipeline_stages: PipelineStages::zero(),
        }
    }

    /// Computes the delta between two usage snapshots.
    pub fn from(before: &ResourceUsage, after: &ResourceUsage) -> (r: Self)
        ensures
            r == Self::from_spec(*before, *after),
    {
        ResourceDelta {
            cpu_ticks: after.cpu_ticks.saturating_sub(before.cpu_ticks),
            memory_units: after.memory_units.saturating_sub(before.memory_units),
            message_count: after.message_count.saturating_sub(before.message_count),
            storage_ops: after.storage_ops.saturating_sub(before.storage_ops),
            pipeline_stages: after.pipeline_stages.saturating_sub(before.pipeline_stages),
        }
    }
}

impl Default for ResourceDelta {
    fn default() -> (r: Self)
        ensures
            r == Self::zero_spec(),
    {
        Self::zero()
    }
}

impl ResourceBudget {
    /// The "key=value" pieces of the rendering, in resource order, for the
    /// resources that carry a limit.
    pub open spec fn display_parts(self) -> Seq<Seq<char>> {
        let p0 = Seq::<Seq<char>>::empty();
        let p1 = if self.cpu_ticks is Some {
            p0.push("cpu="@ + decimal((self.cpu_ticks->0).0 as nat))
        } else {
            p0
        };
        let p2 = if self.memory_units is Some {
            p1.push("mem="@ + decimal((self.memory_units->0).0 as nat))
        } else {
            p1
        };
        let p3 = if self.message_count is Some {
            p2.push("msg="@ + decimal((self.message_count->0).0 as nat))
        } else {
            p2
        };
        let p4 = if self.storage_ops is Some {
            p3.push("storage="@ + decimal((self.storage_ops->0).0 as nat))
        } else {
            p3
        };
        if self.pipeline_stages is Some {
            p4.push("stages="@ + decimal((self.pipeline_stages->0).0 as nat))
        } else {
            p4
        }
    }

    /// Human-readable rendering: "ResourceBudget[cpu=1000, msg=50]", or
    /// "ResourceBudget[unlimited]" when no resource is limited.
    pub fn to_string(&self) -> (r: String)
        ensures
            r@ == "ResourceBudget["@ + (if self.display_parts().len() == 0 {
                "unlimited"@
            } else {
                join(self.display_parts(), ", "@)
            }) + "]"@,
    {
        let mut s = owned("ResourceBudget[");
        let ghost prefix = s@;
        let ghost mut parts = Seq::<Seq<char>>::empty();
        let mut count: usize = 0;
        assert(s@ == prefix + join(parts, ", "@));
        if let Some(cpu) = self.cpu_ticks {
            push_joined_decimal(&mut s, Ghost(prefix), Ghost(parts), count, ", ", "cpu=", cpu.0);
            proof { parts = parts.push("cpu="@ + decimal(cpu.0 as nat)); }
            count = count + 1;
        }
        if let Some(mem) = self.memory_units {
            push_joined_decimal(&mut s, Ghost(prefix), Ghost(parts), count, ", ", "mem=", mem.0);
            proof { parts = parts.push("mem="@ + decimal(mem.0 as nat)); }
            count = count + 1;
        }
        if let Some(msg) = self.message_count {
            push_joined_decimal(&mut s, Ghost(prefix), Ghost(parts), count, ", ", "msg=", msg.0);
            proof { parts = parts.push("msg="@ + decimal(msg.0 as nat)); }
            count = count + 1;
        }
        if let Some(storage) = self.storage_ops {
            push_joined_decimal(
                &mut s,
                Ghost(prefix),
                Ghost(parts),
                count,
                ", ",
                "storage=",
                storage.0,
            );
            proof { parts = parts.push("storage="@ + decimal(storage.0 as nat)); }
            count = count + 1;
        }
        if let Some(stages) = self.pipeline_stages {
            push_joined_decimal(
                &mut s,
                Ghost(prefix),
                Ghost(parts),
                count,
                ", ",
                "stages=",
                stages.0,
            );
            proof { parts = parts.push("stages="@ + decimal(stages.0 as nat)); }
            count = count + 1;
        }
        assert(parts == self.display_parts());
        if count == 0 {
            push_str(&mut s, "unlimited");
            assert(join(parts, ", "@) == Seq::<char>::empty());
        }
        push_str(&mut s, "]");
        s
    }
}

impl ResourceUsage {
    /// Human-readable rendering:
    /// "ResourceUsage[cpu=1, mem=2, msg=3, storage=4, stages=5]".
    pub fn to_string(&self) -> (r: String)
        ensures
            r@ == "ResourceUsage[cpu="@ + decimal(self.cpu_ticks.0 as nat) + ", mem="@ + decimal(
                self.memory_units.0 as nat,
            ) + ", msg="@ + decimal(self.message_count.0 as nat) + ", storage="@ + decimal(
                self.storage_ops.0 as nat,
            ) + ", stages="@ + decimal(self.pipeline_stages.0 as nat) + "]"@,
    {
        let mut s = owned("ResourceUsage[cpu=");
        push_decimal(&mut s, self.cpu_ticks.0);
        push_str(&mut s, ", mem=");
        push_decimal(&mut s, self.memory_units.0);
        push_str(&mut s, ", msg=");
        push_decimal(&mut s, self.message_count.0);
        push_str(&mut s, ", storage=");
        push_decimal(&mut s, self.storage_ops.0);
        push_str(&mut s, ", stages=");
        push_decimal(&mut s, self.pipeline_stages.0);
        push_str(&mut s, "]");
        s
    }
}

impl ResourceDelta {
    /// Human-readable rendering:
    /// "ResourceDelta[cpu=+1, mem=+2, msg=+3, storage=+4, stages=+5]".
    pub fn to_string(&self) -> (r: String)
        ensures
            r@ == "ResourceDelta[cpu=+"@ + decimal(self.cpu_ticks.0 as nat) + ", mem=+"@ + decimal(
                self.memory_units.0 as nat,
            ) + ", msg=+"@ + decimal(self.message_count.0 as nat) + ", storage=+"@ + decimal(
                self.storage_ops.0 as nat,
            ) + ", stages=+"@ + decimal(self.pipeline_stages.0 as nat) + "]"@,
    {
        let mut s = owned("ResourceDelta[cpu=+");
        push_decimal(&mut s, self.cpu_ticks.0);
        push_str(&mut s, ", mem=+");
        push_decimal(&mut s, self.memory_units.0);
        push_str(&mut s, ", msg=+");
        push_decimal(&mut s, self.message_count.0);
        push_str(&mut s, ", storage=+");
        push_decimal(&mut s, self.storage_ops.0);
        push_str(&mut s, ", stages=+");
        push_decimal(&mut s, self.pipeline_stages.0);
        push_str(&mut s, "]");
        s
    }
}

/// The title, limit and usage of an exceeded resource.
pub open spec fn exceeded_parts(e: ResourceExceeded) -> (Seq<char>, u64, u64) {
    match e {
        ResourceExceeded::CpuTicks { limit, usage } => ("CPU ticks"@, limit.0, usage.0),
        ResourceExceeded::MemoryUnits { limit, usage } => ("Memory units"@, limit.0, usage.0),
        ResourceExceeded::MessageCount { limit, usage } => ("Message count"@, limit.0, usage.0),
        ResourceExceeded::StorageOps { limit, usage } => ("Storage ops"@, limit.0, usage.0),
        ResourceExceeded::PipelineStages { limit, usage } => (
            "Pipeline stages"@,
            limit.0,
            usage.0,
        ),
    }
}

/// "<title> exceeded: limit=<limit>, usage=<usage>".
pub open spec fn exceeded_text(e: ResourceExceeded) -> Seq<char> {
    let (title, limit, usage) = exceeded_parts(e);
    title + " exceeded: limit="@ + decimal(limit as nat) + ", usage="@ + decimal(usage as nat)
}

impl ResourceExceeded {
    /// Human-readable rendering, such as
    /// "CPU ticks exceeded: limit=1000, usage=1001".
    pub fn to_string(&self) -> (r: String)
        ensures
            r@ == exceeded_text(*self),
    {
        let (title, limit, usage) = match self {
            ResourceExceeded::CpuTicks { limit, usage } => ("CPU ticks", limit.0, usage.0),
            ResourceExceeded::MemoryUnits { limit, usage } => ("Memory units", limit.0, usage.0),
            ResourceExceeded::MessageCount { limit, usage } => ("Message count", limit.0, usage.0),
            ResourceExceeded::StorageOps { limit, usage } => ("Storage ops", limit.0, usage.0),
            ResourceExceeded::PipelineStages { limit, usage } => (
                "Pipeline stages",
                limit.0,
                usage.0,
            ),
        };
        let mut s = owned(title);
        push_str(&mut s, " exceeded: limit=");
        push_decimal(&mut s, limit);
        push_str(&mut s, ", usage=");
        push_decimal(&mut s, usage);
        s
    }
}

/// Resource-related errors.
#[derive(Debug, Clone, PartialEq, Eq)]
pub enum ResourceError {
    BudgetExceeded(ResourceExceeded),
    BudgetMissing { operation: String },
    InvalidBudgetDerivation { reason: String },
    BudgetInheritanceViolation,
}

impl ResourceError {
    /// Human-readable rendering of the error.
    pub fn to_string(&self) -> (r: String)
        ensures
            r@ == (match self {
                ResourceError::BudgetExceeded(e) => "Resource budget exceeded: "@ + exceeded_text(
                    *e,
                ),
                ResourceError::BudgetMissing { operation } => "Resource budget missing: required for "@
                    + operation@,
                ResourceError::InvalidBudgetDerivation { reason } => "Invalid budget derivation: "@
                    + reason@,
                ResourceError::BudgetInheritanceViolation => "Budget inheritance violation: child budget exceeds parent"@,
            }),
    {
        match self {
            ResourceError::BudgetExceeded(e) => {
                let mut s = owned("Resource budget exceeded: ");
                let t = e.to_string();
                push_str(&mut s, t.as_str());
                s
            },
            ResourceError::BudgetMissing { operation } => {
                let mut s = owned("Resource budget missing: required for ");
                push_str(&mut s, operation.as_str());
                s
            },
            ResourceError::InvalidBudgetDerivation { reason } => {
                let mut s = owned("Invalid budget derivation: ");
                push_str(&mut s, reason.as_str());
                s
            },
            ResourceError::BudgetInheritanceViolation => owned(
                "Budget inheritance violation: child budget exceeds parent",
            ),
        }
    }
}

/// A budget fits under itself.
pub proof fn lemma_budget_within_reflexive(b: ResourceBudget)
    ensures
        b.within(b),
{
}

/// Every budget fits under the unlimited budget, and the unlimited budget
/// fits under every budget (an absent limit constrains nothing).
pub proof fn lemma_budget_unlimited_top(b: ResourceBudget)
    ensures
        b.within(ResourceBudget::unlimited_spec()),
        ResourceBudget::unlimited_spec().within(b),
{
}

/// The zero budget fits under every budget.
pub proof fn lemma_budget_zero_bottom(b: ResourceBudget)
    ensures
        ResourceBudget::zero_spec().within(b),
{
}

/// The most restrictive combination of two budgets fits under both, does
/// not depend on their order, and combining a budget with itself changes
/// nothing.
pub proof fn lemma_budget_min(a: ResourceBudget, b: ResourceBudget)
    ensures
        a.min_spec(b).within(a),
        a.min_spec(b).within(b),
        a.min_spec(b) == b.min_spec(a),
        a.min_spec(a) == a,
{
}

/// Fitting under a budget is transitive when the middle budget limits every
/// resource that the outer budget limits.
pub proof fn lemma_budget_within_transitive(a: ResourceBudget, b: ResourceBudget, c: ResourceBudget)
    requires
        a.within(b),
        b.within(c),
        c.cpu_ticks is Some ==> b.cpu_ticks is Some,
        c.memory_units is Some ==> b.memory_units is Some,
        c.message_count is Some ==> b.message_count is Some,
        c.storage_ops is Some ==> b.storage_ops is Some,
        c.pipeline_stages is Some ==> b.pipeline_stages is Some,
    ensures
        a.within(c),
{
}

/// A usage exceeds nothing exactly when it stays within every limit, and
/// whatever is reported exceeded really is above its limit.
pub proof fn lemma_exceeds_iff_not_within(u: ResourceUsage, b: ResourceBudget)
    ensures
        (u.exceeds_spec(b) is None) <==> u.within_budget(b),
{
}

/// The remaining budget keeps exactly the limited resources and fits under
/// the original budget; zero usage leaves the budget unchanged.
pub proof fn lemma_remaining_within(u: ResourceUsage, b: ResourceBudget)
    ensures
        u.remaining_spec(b).within(b),
        u.remaining_spec(b).cpu_ticks is Some <==> b.cpu_ticks is Some,
        u.remaining_spec(b).memory_units is Some <==> b.memory_units is Some,
        u.remaining_spec(b).message_count is Some <==> b.message_count is Some,
        u.remaining_spec(b).storage_ops is Some <==> b.storage_ops is Some,
        u.remaining_spec(b).pipeline_stages is Some <==> b.pipeline_stages is Some,
        ResourceUsage::zero_spec().remaining_spec(b) == b,
{
}

/// The delta between a snapshot and itself is zero, and when consumption
/// only grows, the earlier usage plus the delta is the later usage.
pub proof fn lemma_delta_from(before: ResourceUsage, after: ResourceUsage)
    ensures
        ResourceDelta::from_spec(before, before) == ResourceDelta::zero_spec(),
        before.cpu_ticks.0 <= after.cpu_ticks.0 ==> before.cpu_ticks.0
            + ResourceDelta::from_spec(before, after).cpu_ticks.0 == after.cpu_ticks.0,
        before.memory_units.0 <= after.memory_units.0 ==> before.memory_units.0
            + ResourceDelta::from_spec(before, after).memory_units.0 == after.memory_units.0,
        before.message_count.0 <= after.message_count.0 ==> before.message_count.0
            + ResourceDelta::from_spec(before, after).message_count.0 == after.message_count.0,
        before.storage_ops.0 <= after.storage_ops.0 ==> before.storage_ops.0
            + ResourceDelta::from_spec(before, after).storage_ops.0 == after.storage_ops.0,
        before.pipeline_stages.0 <= after.pipeline_stages.0 ==> before.pipeline_stages.0
            + ResourceDelta::from_spec(before, after).pipeline_stages.0
            == after.pipeline_stages.0,
{
}

/// Checked addition and subtraction undo each other when they succeed, and
/// saturating arithmetic agrees with checked arithmetic whenever the latter
/// succeeds.
pub proof fn lemma_checked_arith(a: u64, b: u64)
    ensures
        checked_add_spec(a, b) matches Some(s) ==> checked_sub_spec(s, b) == Some(a),
        checked_add_spec(a, b) matches Some(s) ==> sat_add(a, b) == s,
        checked_add_spec(a, b) is None ==> sat_add(a, b) == u64::MAX,
        checked_sub_spec(a, b) matches Some(d) ==> sat_sub(a, b) == d,
        checked_sub_spec(a, b) is None ==> sat_sub(a, b) == 0,
{
}

/// Consuming resources never lowers a counter.
pub proof fn lemma_consumption_monotone(u: u64, amount: u64)
    ensures
        sat_add(u, amount) >= u,
{
}

/// One budget fits under another exactly when, for each of the five
/// resources that both limit, the first limit is at most the second: a
/// child that asks for more CPU ticks, memory units, messages, storage
/// operations or pipeline stages than its parent allows is not a subset.
pub proof fn lemma_within_each_resource(a: ResourceBudget, b: ResourceBudget)
    ensures
        a.within(b) <==> {
            &&& (a.cpu_ticks is Some && b.cpu_ticks is Some ==> (a.cpu_ticks->0).0 <= (b.cpu_ticks->0).0)
            &&& (a.memory_units is Some && b.memory_units is Some ==> (a.memory_units->0).0 <= (b.memory_units->0).0)
            &&& (a.message_count is Some && b.message_count is Some ==> (a.message_count->0).0
                <= (b.message_count->0).0)
            &&& (a.storage_ops is Some && b.storage_ops is Some ==> (a.storage_ops->0).0 <= (b.storage_ops->0).0)
            &&& (a.pipeline_stages is Some && b.pipeline_stages is Some ==> (a.pipeline_stages->0).0
                <= (b.pipeline_stages->0).0)
        },
{
}

/// The more restrictive combination of two budgets fits under each of
/// them, and a budget fits under the combination exactly when it fits
/// under both.
pub proof fn lemma_min_is_meet(a: ResourceBudget, b: ResourceBudget, c: ResourceBudget)
    ensures
        a.min_spec(b).within(a),
        a.min_spec(b).within(b),
        c.within(a.min_spec(b)) ==> c.within(a) && c.within(b),
{
}

/// What an excess reports is a resource whose usage is above its limit:
/// the budget's own limit and the usage's own counter.
pub proof fn lemma_exceeds_reports(u: ResourceUsage, b: ResourceBudget)
    ensures
        u.exceeds_spec(b) matches Some(e) ==> match e {
            ResourceExceeded::CpuTicks { limit, usage } => b.cpu_ticks == Some(limit) && usage == u.cpu_ticks
                && usage.0 > limit.0,
            ResourceExceeded::MemoryUnits { limit, usage } => b.memory_units == Some(limit) && usage
                == u.memory_units && usage.0 > limit.0,
            ResourceExceeded::MessageCount { limit, usage } => b.message_count == Some(limit) && usage
                == u.message_count && usage.0 > limit.0,
            ResourceExceeded::StorageOps { limit, usage } => b.storage_ops == Some(limit) && usage == u.storage_ops
                && usage.0 > limit.0,
            ResourceExceeded::PipelineStages { limit, usage } => b.pipeline_stages == Some(limit) && usage
                == u.pipeline_stages && usage.0 > limit.0,
        },
{
}

} // verus!
