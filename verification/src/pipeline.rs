//! Typed pipelines: pipeline and stage identifiers, payload schemas and
//! versions, typed payloads, stage results, bounded retry policies, the
//! schema chaining check of a pipeline specification, and execution traces.

use vstd::prelude::*;
use crate::identity::{is_v4, random_uuid_value};
use crate::ipc::ServiceId;
use vstd::arithmetic::power::pow;
use crate::text::owned;

verus! {

/// Unique identifier of a pipeline.
#[derive(Debug, Clone, Copy, PartialEq, Eq, Hash, Structural)]
pub struct PipelineId(u128);

impl View for PipelineId {
    type V = u128;

    closed spec fn view(&self) -> u128 {
        self.0
    }
}

impl PipelineId {
    /// Creates a new random pipeline id.
    pub fn new() -> (r: Self)
        ensures
            is_v4(r@),
    {
        PipelineId(random_uuid_value())
    }
}

/// Unique identifier of a stage within a pipeline.
#[derive(Debug, Clone, Copy, PartialEq, Eq, Hash, Structural)]
pub struct StageId(u128);

impl View for StageId {
    type V = u128;

    closed spec fn view(&self) -> u128 {
        self.0
    }
}

impl StageId {
    /// Creates a new random stage id.
    pub fn new() -> (r: Self)
        ensures
            is_v4(r@),
    {
        StageId(random_uuid_value())
    }
}

/// Schema id of a typed payload.
#[derive(Debug, Clone, PartialEq, Eq, Hash)]
pub struct PayloadSchemaId(String);

impl View for PayloadSchemaId {
    type V = Seq<char>;

    closed spec fn view(&self) -> Seq<char> {
        self.0@
    }
}

impl PayloadSchemaId {
    /// Creates a schema id.
    pub fn new(id: &str) -> (r: Self)
        ensures
            r@ == id@,
    {
        PayloadSchemaId(owned(id))
    }

    /// Returns the schema id as a string slice.
    pub fn as_str(&self) -> (r: &str)
        ensures
            r@ == self@,
    {
        self.0.as_str()
    }

    /// Whether two schema ids are the same.
    pub fn same_as(&self, other: &PayloadSchemaId) -> (r: bool)
        ensures
            r == (self@ == other@),
    {
        self.0 == other.0
    }
}

/// Version of a payload schema.
#[derive(Debug, Clone, Copy, PartialEq, Eq, Structural)]
pub struct PayloadSchemaVersion {
    pub major: u32,
    pub minor: u32,
}

impl PayloadSchemaVersion {
    /// Creates a schema version.
    pub fn new(major: u32, minor: u32) -> (r: Self)
        ensures
            r == (PayloadSchemaVersion { major, minor }),
    {
        PayloadSchemaVersion { major, minor }
    }
}

/// Payload tagged with its schema and version.
#[derive(Debug, Clone, PartialEq, Eq)]
pub struct TypedPayload {
    pub schema_id: PayloadSchemaId,
    pub schema_version: PayloadSchemaVersion,
    pub data: Vec<u8>,
}

impl TypedPayload {
    /// Creates a typed payload.
    pub fn new(schema_id: PayloadSchemaId, schema_version: PayloadSchemaVersion, data: Vec<u8>) -> (r: Self)
        ensures
            r == (TypedPayload { schema_id, schema_version, data }),
    {
        TypedPayload { schema_id, schema_version, data }
    }
}

/// Result of a stage execution.
#[derive(Debug, Clone, PartialEq, Eq)]
pub enum StageResult {
    /// Stage succeeded with output and the capability ids it produced
    Success { output: TypedPayload, capabilities: Vec<u64> },
    /// Stage failed permanently
    Failure { error: String },
    /// Stage failed but can be retried
    Retryable { error: String },
}

/// Errors of pipeline operations.
#[derive(Debug, Clone, PartialEq, Eq)]
pub enum PipelineError {
    EmptyPipeline,
    SchemaMismatch { stage_name: String, expected: PayloadSchemaId, actual: PayloadSchemaId },
    StageExecutionFailed(String),
    MissingCapability(u64),
    InvalidSchema(String),
}

/// Result of a stage execution in a trace.
#[derive(Debug, Clone, PartialEq, Eq)]
pub enum StageExecutionResult {
    Success,
    Failure { error: String },
    Retrying { error: String },
}

/// Overall result of a pipeline execution.
#[derive(Debug, Clone, PartialEq, Eq)]
pub enum PipelineExecutionResult {
    InProgress,
    Success,
    Failed { stage_name: String, error: String },
}


impl PayloadSchemaId {
    /// A copy of the schema id.
    pub fn duplicate(&self) -> (r: Self)
        ensures
            r@ == self@,
    {
        PayloadSchemaId::new(self.as_str())
    }
}

/// Retry policy of a stage: how many retries, the first backoff, and the
/// whole factor by which each further backoff grows.
#[derive(Debug, Clone, Copy, PartialEq, Eq, Structural)]
pub struct RetryPolicy {
    /// Maximum number of retry attempts (0 = no retries)
    pub max_retries: u32,
    /// Backoff before the first retry, in milliseconds
    pub initial_backoff_ms: u64,
    /// Factor by which each further backoff grows
    pub backoff_multiplier: u64,
}

/// The backoff before an attempt: none before the first attempt, then the
/// initial backoff times the factor once per earlier retry, at most
/// `u64::MAX`.
pub open spec fn backoff_spec(p: RetryPolicy, attempt: u32) -> u64 {
    if attempt == 0 {
        0
    } else {
        let full = p.initial_backoff_ms * pow(p.backoff_multiplier as int, (attempt - 1) as nat);
        if full <= u64::MAX {
            full as u64
        } else {
            u64::MAX
        }
    }
}

/// A power of a non-negative base is non-negative.
proof fn lemma_pow_nonneg(b: int, e: nat)
    requires
        b >= 0,
    ensures
        pow(b, e) >= 0,
    decreases e,
{
    reveal(pow);
    if e > 0 {
        lemma_pow_nonneg(b, (e - 1) as nat);
        assert(b * pow(b, (e - 1) as nat) >= 0) by (nonlinear_arith)
            requires
                b >= 0,
                pow(b, (e - 1) as nat) >= 0,
        ;
    }
}

/// Growing a capped product by a further factor caps the longer product.
proof fn lemma_capped_step(p: int, m: int)
    requires
        p >= 0,
        m >= 0,
    ensures
        ({
            let capped = if p <= u64::MAX {
                p
            } else {
                u64::MAX as int
            };
            let stepped = capped * m;
            let full = p * m;
            (if stepped <= u64::MAX {
                stepped
            } else {
                u64::MAX as int
            }) == (if full <= u64::MAX {
                full
            } else {
                u64::MAX as int
            })
        }),
{
    if p > u64::MAX && m > 0 {
        assert(p * m >= p) by (nonlinear_arith)
            requires
                p > 0,
                m >= 1,
        ;
        assert((u64::MAX as int) * m >= u64::MAX) by (nonlinear_arith)
            requires
                m >= 1,
        ;
    }
}

impl RetryPolicy {
    /// No retries: fail at once.
    pub fn none() -> (r: Self)
        ensures
            r == (RetryPolicy { max_retries: 0, initial_backoff_ms: 0, backoff_multiplier: 1 }),
    {
        RetryPolicy { max_retries: 0, initial_backoff_ms: 0, backoff_multiplier: 1 }
    }

    /// A fixed number of retries with the same backoff each time.
    pub fn fixed_retries(max_retries: u32, backoff_ms: u64) -> (r: Self)
        ensures
            r == (RetryPolicy { max_retries, initial_backoff_ms: backoff_ms, backoff_multiplier: 1 }),
    {
        RetryPolicy { max_retries, initial_backoff_ms: backoff_ms, backoff_multiplier: 1 }
    }

    /// Retries whose backoff doubles each time.
    pub fn exponential_backoff(max_retries: u32, initial_backoff_ms: u64) -> (r: Self)
        ensures
            r == (RetryPolicy { max_retries, initial_backoff_ms, backoff_multiplier: 2 }),
    {
        RetryPolicy { max_retries, initial_backoff_ms, backoff_multiplier: 2 }
    }

    /// The backoff before an attempt; attempt 0 is the first execution.
    pub fn backoff_duration(&self, attempt: u32) -> (r: u64)
        ensures
            r == backoff_spec(*self, attempt),
    {
        if attempt == 0 {
            return 0;
        }
        let m = self.backoff_multiplier;
        let mut acc = self.initial_backoff_ms;
        let mut k: u32 = 0;
        assert(pow(m as int, 0) == 1) by {
            reveal(pow);
        }
        assert(self.initial_backoff_ms * 1 == self.initial_backoff_ms);
        while k < attempt - 1
            invariant
                k <= attempt - 1,
                attempt > 0,
                m == self.backoff_multiplier,
                ({
                    let full = self.initial_backoff_ms * pow(m as int, k as nat);
                    acc == if full <= u64::MAX {
                        full
                    } else {
                        u64::MAX as int
                    }
                }),
            decreases attempt - 1 - k,
        {
            let ghost full = self.initial_backoff_ms * pow(m as int, k as nat);
            proof {
                assert(pow(m as int, (k + 1) as nat) == m * pow(m as int, k as nat)) by {
                    reveal(pow);
                }
                lemma_pow_nonneg(m as int, k as nat);
                assert(full >= 0) by (nonlinear_arith)
                    requires
                        full == self.initial_backoff_ms * pow(m as int, k as nat),
                        pow(m as int, k as nat) >= 0,
                ;
                lemma_capped_step(full, m as int);
                assert(self.initial_backoff_ms * pow(m as int, (k + 1) as nat) == full * m) by (nonlinear_arith)
                    requires
                        full == self.initial_backoff_ms * pow(m as int, k as nat),
                        pow(m as int, (k + 1) as nat) == m * pow(m as int, k as nat),
                ;
            }
            acc = match acc.checked_mul(m) {
                Some(v) => v,
                None => u64::MAX,
            };
            k = k + 1;
        }
        acc
    }
}

impl Default for RetryPolicy {
    fn default() -> (r: Self)
        ensures
            r == (RetryPolicy { max_retries: 0, initial_backoff_ms: 0, backoff_multiplier: 1 }),
    {
        RetryPolicy::none()
    }
}

/// A stage of a pipeline.
#[derive(Debug)]
pub struct StageSpec {
    /// Unique identifier of the stage
    pub id: StageId,
    /// Name, for debugging
    pub name: String,
    /// Service that handles the stage
    pub handler: ServiceId,
    /// Action invoked on the handler
    pub action: String,
    /// Expected input schema
    pub input_schema: PayloadSchemaId,
    /// Produced output schema
    pub output_schema: PayloadSchemaId,
    /// Retry policy of the stage
    pub retry_policy: RetryPolicy,
    /// Capability ids the stage needs at its start
    pub required_capabilities: Vec<u64>,
}

impl StageSpec {
    /// A stage with a fresh id, no retries and no required capabilities.
    pub fn new(
        name: String,
        handler: ServiceId,
        action: String,
        input_schema: PayloadSchemaId,
        output_schema: PayloadSchemaId,
    ) -> (r: Self)
        ensures
            r.name == name,
            r.handler == handler,
            r.action == action,
            r.input_schema == input_schema,
            r.output_schema == output_schema,
            r.retry_policy == (RetryPolicy { max_retries: 0, initial_backoff_ms: 0, backoff_multiplier: 1 }),
            r.required_capabilities@.len() == 0,
    {
        StageSpec {
            id: StageId::new(),
            name,
            handler,
            action,
            input_schema,
            output_schema,
            retry_policy: RetryPolicy::none(),
            required_capabilities: Vec::new(),
        }
    }

    /// The stage with another retry policy.
    pub fn with_retry_policy(self, policy: RetryPolicy) -> (r: Self)
        ensures
            r == (StageSpec { retry_policy: policy, ..self }),
    {
        StageSpec { retry_policy: policy, ..self }
    }

    /// The stage with other required capabilities.
    pub fn with_capabilities(self, cap_ids: Vec<u64>) -> (r: Self)
        ensures
            r == (StageSpec { required_capabilities: cap_ids, ..self }),
    {
        StageSpec { required_capabilities: cap_ids, ..self }
    }
}

/// A pipeline: a linear sequence of stages.
#[derive(Debug)]
pub struct PipelineSpec {
    /// Unique identifier of the pipeline
    pub id: PipelineId,
    /// Name of the pipeline
    pub name: String,
    /// The stages, in order
    pub stages: Vec<StageSpec>,
    /// Input schema of the first stage
    pub initial_input_schema: PayloadSchemaId,
    /// Output schema of the last stage
    pub final_output_schema: PayloadSchemaId,
}

/// Whether each stage's output feeds the next stage's input.
pub open spec fn links_hold(stages: Seq<StageSpec>, upto: int) -> bool {
    forall|i: int| 0 <= i < upto ==> #[trigger] stages[i].output_schema@ == stages[i + 1].input_schema@
}

/// A pipeline is well formed: it has stages, the first takes the
/// pipeline's input, each feeds the next, and the last gives the
/// pipeline's output.
pub open spec fn pipeline_valid(p: PipelineSpec) -> bool {
    let s = p.stages@;
    &&& s.len() > 0
    &&& s[0].input_schema@ == p.initial_input_schema@
    &&& links_hold(s, s.len() - 1)
    &&& s.last().output_schema@ == p.final_output_schema@
}

/// A schema mismatch naming a stage, the schema expected and the one found.
pub open spec fn mismatch(r: Result<(), PipelineError>, stage: Seq<char>, expected: Seq<char>, actual: Seq<char>) -> bool {
    r matches Err(PipelineError::SchemaMismatch { stage_name, expected: e, actual: a }) && stage_name@ == stage
        && e@ == expected && a@ == actual
}

impl PipelineSpec {
    /// A pipeline with a fresh id and no stages.
    pub fn new(name: String, initial_input_schema: PayloadSchemaId, final_output_schema: PayloadSchemaId) -> (r: Self)
        ensures
            r.name == name,
            r.stages@.len() == 0,
            r.initial_input_schema == initial_input_schema,
            r.final_output_schema == final_output_schema,
    {
        PipelineSpec { id: PipelineId::new(), name, stages: Vec::new(), initial_input_schema, final_output_schema }
    }

    /// The pipeline with one more stage at its end.
    pub fn add_stage(self, stage: StageSpec) -> (r: Self)
        ensures
            r.id == self.id,
            r.name == self.name,
            r.stages@ == self.stages@.push(stage),
            r.initial_input_schema == self.initial_input_schema,
            r.final_output_schema == self.final_output_schema,
    {
        let mut p = self;
        p.stages.push(stage);
        p
    }

    /// Checks that the pipeline is well formed, and names the first
    /// mismatch: the first stage's input, then each link in order, then
    /// the last stage's output.
    pub fn validate(&self) -> (r: Result<(), PipelineError>)
        ensures
            r is Ok <==> pipeline_valid(*self),
            self.stages@.len() == 0 <==> r == Err::<(), PipelineError>(PipelineError::EmptyPipeline),
            self.stages@.len() > 0 && self.stages@[0].input_schema@ != self.initial_input_schema@ ==> mismatch(
                r,
                self.stages@[0].name@,
                self.initial_input_schema@,
                self.stages@[0].input_schema@,
            ),
            forall|i: int|
                0 <= i < self.stages@.len() - 1 && self.stages@[0].input_schema@ == self.initial_input_schema@
                    && links_hold(self.stages@, i) && #[trigger] self.stages@[i].output_schema@
                    != self.stages@[i + 1].input_schema@ ==> mismatch(
                    r,
                    self.stages@[i + 1].name@,
                    self.stages@[i].output_schema@,
                    self.stages@[i + 1].input_schema@,
                ),
            self.stages@.len() > 0 && self.stages@[0].input_schema@ == self.initial_input_schema@ && links_hold(
                self.stages@,
                self.stages@.len() - 1,
            ) && self.stages@.last().output_schema@ != self.final_output_schema@ ==> mismatch(
                r,
                self.stages@.last().name@,
                self.final_output_schema@,
                self.stages@.last().output_schema@,
            ),
    {
        let n = self.stages.len();
        if n == 0 {
            return Err(PipelineError::EmptyPipeline);
        }
        if !self.stages[0].input_schema.same_as(&self.initial_input_schema) {
            return Err(
                PipelineError::SchemaMismatch {
                    stage_name: owned(self.stages[0].name.as_str()),
                    expected: self.initial_input_schema.duplicate(),
                    actual: self.stages[0].input_schema.duplicate(),
                },
            );
        }
        let mut i: usize = 0;
        while i + 1 < n
            invariant
                n == self.stages@.len(),
                n > 0,
                i < n,
                links_hold(self.stages@, i as int),
                self.stages@[0].input_schema@ == self.initial_input_schema@,
            decreases n - i,
        {
            if !self.stages[i].output_schema.same_as(&self.stages[i + 1].input_schema) {
                let r = Err(
                    PipelineError::SchemaMismatch {
                        stage_name: owned(self.stages[i + 1].name.as_str()),
                        expected: self.stages[i].output_schema.duplicate(),
                        actual: self.stages[i + 1].input_schema.duplicate(),
                    },
                );
                assert forall|j: int|
                    0 <= j < self.stages@.len() - 1 && links_hold(self.stages@, j) && #[trigger] self.stages@[j].output_schema@
                        != self.stages@[j + 1].input_schema@ implies j == i by {
                    if j < i {
                        assert(self.stages@[j].output_schema@ == self.stages@[j + 1].input_schema@);
                    } else if j > i {
                        assert(self.stages@[i as int].output_schema@ == self.stages@[i + 1].input_schema@);
                    }
                }
                return r;
            }
            i = i + 1;
        }
        let last = &self.stages[n - 1];
        if !last.output_schema.same_as(&self.final_output_schema) {
            return Err(
                PipelineError::SchemaMismatch {
                    stage_name: owned(last.name.as_str()),
                    expected: self.final_output_schema.duplicate(),
                    actual: last.output_schema.duplicate(),
                },
            );
        }
        Ok(())
    }
}

/// One execution of a stage, in a trace.
#[derive(Debug)]
pub struct StageTraceEntry {
    /// The stage
    pub stage_id: StageId,
    /// The stage's name
    pub stage_name: String,
    /// Start, in simulated milliseconds
    pub start_time_ms: u64,
    /// End, in simulated milliseconds
    pub end_time_ms: u64,
    /// Attempt number: 0 first, then one more per retry
    pub attempt: u32,
    /// How the execution ended
    pub result: StageExecutionResult,
    /// Capability ids handed to the stage
    pub capabilities_in: Vec<u64>,
    /// Capability ids the stage produced
    pub capabilities_out: Vec<u64>,
}

/// The trace of a pipeline run.
#[derive(Debug)]
pub struct ExecutionTrace {
    /// The pipeline
    pub pipeline_id: PipelineId,
    /// The stage executions, in order
    pub entries: Vec<StageTraceEntry>,
    /// How the run ended
    pub final_result: PipelineExecutionResult,
}

/// The entries of one stage, in order.
pub open spec fn entries_of(entries: Seq<StageTraceEntry>, stage_id: StageId) -> Seq<StageTraceEntry>
    decreases entries.len(),
{
    if entries.len() == 0 {
        Seq::empty()
    } else {
        let init = entries_of(entries.drop_last(), stage_id);
        if entries.last().stage_id == stage_id {
            init.push(entries.last())
        } else {
            init
        }
    }
}

/// The entries behind references.
pub open spec fn derefs(v: Seq<&StageTraceEntry>) -> Seq<StageTraceEntry> {
    v.map_values(|e: &StageTraceEntry| *e)
}

impl ExecutionTrace {
    /// An empty trace of a run in progress.
    pub fn new(pipeline_id: PipelineId) -> (r: Self)
        ensures
            r.pipeline_id == pipeline_id,
            r.entries@.len() == 0,
            r.final_result == PipelineExecutionResult::InProgress,
    {
        ExecutionTrace { pipeline_id, entries: Vec::new(), final_result: PipelineExecutionResult::InProgress }
    }

    /// Adds an entry at the end.
    pub fn add_entry(&mut self, entry: StageTraceEntry)
        ensures
            final(self).entries@ == old(self).entries@.push(entry),
            final(self).pipeline_id == old(self).pipeline_id,
            final(self).final_result == old(self).final_result,
    {
        self.entries.push(entry);
    }

    /// Sets how the run ended.
    pub fn set_final_result(&mut self, result: PipelineExecutionResult)
        ensures
            final(self).final_result == result,
            final(self).entries@ == old(self).entries@,
            final(self).pipeline_id == old(self).pipeline_id,
    {
        self.final_result = result;
    }

    /// The entries of one stage, in order.
    pub fn entries_for_stage(&self, stage_id: StageId) -> (r: Vec<&StageTraceEntry>)
        ensures
            derefs(r@) == entries_of(self.entries@, stage_id),
    {
        let mut r: Vec<&StageTraceEntry> = Vec::new();
        let mut i: usize = 0;
        while i < self.entries.len()
            invariant
                i <= self.entries@.len(),
                derefs(r@) == entries_of(self.entries@.take(i as int), stage_id),
            decreases self.entries@.len() - i,
        {
            let e = &self.entries[i];
            assert(self.entries@.take(i + 1).drop_last() =~= self.entries@.take(i as int));
            if e.stage_id == stage_id {
                r.push(e);
            }
            assert(derefs(r@) =~= entries_of(self.entries@.take(i + 1), stage_id));
            i = i + 1;
        }
        assert(self.entries@.take(self.entries@.len() as int) =~= self.entries@);
        r
    }
}

} // verus!
