use pandagen::ipc::ServiceId;
use pandagen::pipeline::{
    ExecutionTrace, PayloadSchemaId, PipelineError, PipelineExecutionResult, PipelineId, PipelineSpec,
    RetryPolicy, StageExecutionResult, StageId, StageSpec, StageTraceEntry,
};

#[test]
fn test_pipeline_id_uniqueness() {
    let id1 = PipelineId::new();
    let id2 = PipelineId::new();
    assert_ne!(id1, id2);
}

#[test]
fn test_stage_id_uniqueness() {
    let id1 = StageId::new();
    let id2 = StageId::new();
    assert_ne!(id1, id2);
}

#[test]
fn test_retry_policy_none() {
    let policy = RetryPolicy::none();
    assert_eq!(policy.max_retries, 0);
}

#[test]
fn test_retry_policy_fixed() {
    let policy = RetryPolicy::fixed_retries(3, 100);
    assert_eq!(policy.max_retries, 3);
    assert_eq!(policy.backoff_duration(0), 0); // First attempt, no backoff
    assert_eq!(policy.backoff_duration(1), 100); // First retry
    assert_eq!(policy.backoff_duration(2), 100); // Second retry
}

#[test]
fn test_retry_policy_exponential() {
    let policy = RetryPolicy::exponential_backoff(3, 100);
    assert_eq!(policy.backoff_duration(0), 0); // First attempt, no backoff
    assert_eq!(policy.backoff_duration(1), 100); // First retry: 100 * 2^0
    assert_eq!(policy.backoff_duration(2), 200); // Second retry: 100 * 2^1
    assert_eq!(policy.backoff_duration(3), 400); // Third retry: 100 * 2^2
}

#[test]
fn test_pipeline_validation_empty() {
    let pipeline = PipelineSpec::new(
        "test".to_string(),
        PayloadSchemaId::new("in"),
        PayloadSchemaId::new("out"),
    );
    assert!(pipeline.validate().is_err());
}

#[test]
fn test_pipeline_validation_single_stage() {
    let stage = StageSpec::new(
        "stage1".to_string(),
        ServiceId::new(),
        "action".to_string(),
        PayloadSchemaId::new("in"),
        PayloadSchemaId::new("out"),
    );

    let pipeline = PipelineSpec::new(
        "test".to_string(),
        PayloadSchemaId::new("in"),
        PayloadSchemaId::new("out"),
    )
    .add_stage(stage);

    assert!(pipeline.validate().is_ok());
}

#[test]
fn test_pipeline_validation_chained_stages() {
    let stage1 = StageSpec::new(
        "stage1".to_string(),
        ServiceId::new(),
        "action1".to_string(),
        PayloadSchemaId::new("in"),
        PayloadSchemaId::new("mid"),
    );

    let stage2 = StageSpec::new(
        "stage2".to_string(),
        ServiceId::new(),
        "action2".to_string(),
        PayloadSchemaId::new("mid"),
        PayloadSchemaId::new("out"),
    );

    let pipeline = PipelineSpec::new(
        "test".to_string(),
        PayloadSchemaId::new("in"),
        PayloadSchemaId::new("out"),
    )
    .add_stage(stage1)
    .add_stage(stage2);

    assert!(pipeline.validate().is_ok());
}

#[test]
fn test_pipeline_validation_schema_mismatch() {
    let stage1 = StageSpec::new(
        "stage1".to_string(),
        ServiceId::new(),
        "action1".to_string(),
        PayloadSchemaId::new("in"),
        PayloadSchemaId::new("mid1"),
    );

    let stage2 = StageSpec::new(
        "stage2".to_string(),
        ServiceId::new(),
        "action2".to_string(),
        PayloadSchemaId::new("mid2"), // Wrong! Should be mid1
        PayloadSchemaId::new("out"),
    );

    let pipeline = PipelineSpec::new(
        "test".to_string(),
        PayloadSchemaId::new("in"),
        PayloadSchemaId::new("out"),
    )
    .add_stage(stage1)
    .add_stage(stage2);

    assert!(pipeline.validate().is_err());
}

#[test]
fn test_execution_trace() {
    let mut trace = ExecutionTrace::new(PipelineId::new());
    let stage_id = StageId::new();

    trace.add_entry(StageTraceEntry {
        stage_id,
        stage_name: "test_stage".to_string(),
        start_time_ms: 0,
        end_time_ms: 100,
        attempt: 0,
        result: StageExecutionResult::Success,
        capabilities_in: vec![1],
        capabilities_out: vec![2],
    });

    assert_eq!(trace.entries.len(), 1);
    assert_eq!(trace.entries_for_stage(stage_id).len(), 1);
}

fn stage(name: &str, input: &str, output: &str) -> StageSpec {
    StageSpec::new(
        name.to_string(),
        ServiceId::from_uuid(7),
        "act".to_string(),
        PayloadSchemaId::new(input),
        PayloadSchemaId::new(output),
    )
}

#[test]
fn pipeline_validation_names_each_mismatch() {
    let p = PipelineSpec::new("p".to_string(), PayloadSchemaId::new("in"), PayloadSchemaId::new("out"));
    assert_eq!(p.validate(), Err(PipelineError::EmptyPipeline));

    let p = PipelineSpec::new("p".to_string(), PayloadSchemaId::new("in"), PayloadSchemaId::new("out"))
        .add_stage(stage("first", "other", "out"));
    assert_eq!(
        p.validate(),
        Err(PipelineError::SchemaMismatch {
            stage_name: "first".to_string(),
            expected: PayloadSchemaId::new("in"),
            actual: PayloadSchemaId::new("other"),
        })
    );

    let p = PipelineSpec::new("p".to_string(), PayloadSchemaId::new("in"), PayloadSchemaId::new("out"))
        .add_stage(stage("a", "in", "x"))
        .add_stage(stage("b", "y", "z"))
        .add_stage(stage("c", "w", "out"));
    assert_eq!(
        p.validate(),
        Err(PipelineError::SchemaMismatch {
            stage_name: "b".to_string(),
            expected: PayloadSchemaId::new("x"),
            actual: PayloadSchemaId::new("y"),
        })
    );

    let p = PipelineSpec::new("p".to_string(), PayloadSchemaId::new("in"), PayloadSchemaId::new("out"))
        .add_stage(stage("a", "in", "mid"))
        .add_stage(stage("b", "mid", "end"));
    assert_eq!(
        p.validate(),
        Err(PipelineError::SchemaMismatch {
            stage_name: "b".to_string(),
            expected: PayloadSchemaId::new("out"),
            actual: PayloadSchemaId::new("end"),
        })
    );
}

#[test]
fn retry_backoff_saturates() {
    let policy = RetryPolicy::exponential_backoff(100, 1u64 << 62);
    assert_eq!(policy.backoff_duration(2), 1u64 << 63);
    assert_eq!(policy.backoff_duration(3), u64::MAX);
    assert_eq!(policy.backoff_duration(70), u64::MAX);
    let stopped = RetryPolicy { max_retries: 1, initial_backoff_ms: 5, backoff_multiplier: 0 };
    assert_eq!(stopped.backoff_duration(1), 5);
    assert_eq!(stopped.backoff_duration(2), 0);
}

#[test]
fn trace_filters_by_stage_and_keeps_result() {
    let mut trace = ExecutionTrace::new(PipelineId::new());
    let a = StageId::new();
    let b = StageId::new();
    for (i, id) in [a, b, a].iter().enumerate() {
        trace.add_entry(StageTraceEntry {
            stage_id: *id,
            stage_name: format!("s{}", i),
            start_time_ms: i as u64,
            end_time_ms: i as u64 + 1,
            attempt: i as u32,
            result: StageExecutionResult::Success,
            capabilities_in: vec![],
            capabilities_out: vec![],
        });
    }
    let of_a = trace.entries_for_stage(a);
    assert_eq!(of_a.len(), 2);
    assert_eq!(of_a[0].stage_name, "s0");
    assert_eq!(of_a[1].stage_name, "s2");
    assert_eq!(trace.final_result, PipelineExecutionResult::InProgress);
    trace.set_final_result(PipelineExecutionResult::Success);
    assert_eq!(trace.final_result, PipelineExecutionResult::Success);
}
