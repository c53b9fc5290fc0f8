use pandagen::identity::{
    ExecutionId, ExitNotification, ExitReason, IdentityKind, IdentityMetadata, TaskId, TrustDomain,
};
use pandagen::resources::{CpuTicks, MessageCount, ResourceBudget};

#[test]
fn test_execution_id_unique() {
    let id1 = ExecutionId::new();
    let id2 = ExecutionId::new();
    assert_ne!(id1, id2);
}

#[test]
fn test_execution_id_display() {
    let id = ExecutionId::new();
    let display = id.to_string();
    assert!(display.starts_with("exec:"));
}

#[test]
fn test_identity_kind() {
    assert_eq!(IdentityKind::System.to_string(), "System");
    assert_eq!(IdentityKind::Service.to_string(), "Service");
    assert_eq!(IdentityKind::Component.to_string(), "Component");
    assert_eq!(IdentityKind::PipelineStage.to_string(), "PipelineStage");
}

#[test]
fn test_trust_domain_predefined() {
    let core_dom = TrustDomain::core_domain();
    let user = TrustDomain::user();
    let sandbox = TrustDomain::sandbox();

    assert_eq!(core_dom.name(), "core");
    assert_eq!(user.name(), "user");
    assert_eq!(sandbox.name(), "sandbox");

    assert_ne!(core_dom, user);
    assert_ne!(user, sandbox);
}

#[test]
fn test_trust_domain_custom() {
    let custom = TrustDomain::new("custom-domain");
    assert_eq!(custom.name(), "custom-domain");
}

#[test]
fn test_identity_metadata_creation() {
    let now = 1000u64;
    let metadata = IdentityMetadata::new(
        IdentityKind::Service,
        TrustDomain::core_domain(),
        "test-service",
        now,
    );

    assert_eq!(metadata.kind, IdentityKind::Service);
    assert_eq!(metadata.trust_domain, TrustDomain::core_domain());
    assert_eq!(metadata.name, "test-service");
    assert_eq!(metadata.created_at_nanos, now);
    assert_eq!(metadata.task_id, None);
    assert_eq!(metadata.parent_id, None);
    assert_eq!(metadata.creator_id, None);
}

#[test]
fn test_identity_metadata_with_builder() {
    let now = 1000u64;
    let task_id = TaskId::new();
    let parent_id = ExecutionId::new();
    let creator_id = ExecutionId::new();

    let metadata = IdentityMetadata::new(
        IdentityKind::Component,
        TrustDomain::user(),
        "test-component",
        now,
    )
    .with_task_id(task_id)
    .with_parent(parent_id)
    .with_creator(creator_id);

    assert_eq!(metadata.task_id, Some(task_id));
    assert_eq!(metadata.parent_id, Some(parent_id));
    assert_eq!(metadata.creator_id, Some(creator_id));
}

#[test]
fn test_identity_metadata_immutability() {
    let now = 1000u64;
    let metadata = IdentityMetadata::new(
        IdentityKind::Service,
        TrustDomain::core_domain(),
        "test-service",
        now,
    );

    // Clone to simulate "modification attempt"
    let metadata2 = metadata.clone();
    assert_eq!(metadata.execution_id, metadata2.execution_id);
    assert_eq!(metadata.created_at_nanos, metadata2.created_at_nanos);
}

#[test]
fn test_same_domain_check() {
    let now = 1000u64;
    let id1 =
        IdentityMetadata::new(IdentityKind::Service, TrustDomain::core_domain(), "service1", now);
    let id2 =
        IdentityMetadata::new(IdentityKind::Service, TrustDomain::core_domain(), "service2", now);
    let id3 = IdentityMetadata::new(
        IdentityKind::Component,
        TrustDomain::user(),
        "component",
        now,
    );

    assert!(id1.same_domain(&id2));
    assert!(!id1.same_domain(&id3));
    assert!(!id2.same_domain(&id3));
}

#[test]
fn test_parent_child_relationship() {
    let now = 1000u64;
    let parent_id = ExecutionId::new();

    let parent =
        IdentityMetadata::new(IdentityKind::Service, TrustDomain::core_domain(), "parent", now)
            .with_task_id(TaskId::new());

    let child =
        IdentityMetadata::new(IdentityKind::Component, TrustDomain::core_domain(), "child", now)
            .with_parent(parent.execution_id);

    assert!(child.is_child_of(parent.execution_id));
    assert!(!parent.is_child_of(child.execution_id));
    assert!(!child.is_child_of(parent_id)); // Different parent
}

#[test]
fn test_exit_reason_display() {
    assert_eq!(ExitReason::Normal.to_string(), "normal exit");
    assert_eq!(
        ExitReason::Failure {
            error: "test error".to_string()
        }
        .to_string(),
        "failed: test error"
    );
    assert_eq!(
        ExitReason::Cancelled {
            reason: "user cancelled".to_string()
        }
        .to_string(),
        "cancelled: user cancelled"
    );
    assert_eq!(ExitReason::Timeout.to_string(), "timeout");
}

#[test]
fn test_exit_notification() {
    let now = 1000u64;
    let exec_id = ExecutionId::new();
    let task_id = TaskId::new();

    let notification = ExitNotification {
        execution_id: exec_id,
        task_id: Some(task_id),
        reason: ExitReason::Normal,
        terminated_at_nanos: now,
    };

    assert_eq!(notification.execution_id, exec_id);
    assert_eq!(notification.task_id, Some(task_id));
    assert_eq!(notification.reason, ExitReason::Normal);
    assert_eq!(notification.terminated_at_nanos, now);
}

// ============================================================================
// Phase 11: Resource Budget Tests
// ============================================================================

#[test]
fn test_identity_with_budget() {

    let now = 1000u64;
    let budget = ResourceBudget::unlimited()
        .with_cpu_ticks(CpuTicks::new(1000))
        .with_message_count(MessageCount::new(50));

    let identity = IdentityMetadata::new(
        IdentityKind::Component,
        TrustDomain::user(),
        "test-component",
        now,
    )
    .with_budget(budget);

    assert!(identity.has_budget());
    assert_eq!(identity.budget, Some(budget));
    assert!(identity.usage.cpu_ticks.is_zero());
}

#[test]
fn test_identity_without_budget() {
    let now = 1000u64;
    let identity =
        IdentityMetadata::new(IdentityKind::Component, TrustDomain::user(), "test", now);

    assert!(!identity.has_budget());
    assert_eq!(identity.budget, None);
}

#[test]
fn test_budget_inheritance_valid() {

    let now = 1000u64;
    let parent_budget = ResourceBudget::unlimited().with_cpu_ticks(CpuTicks::new(1000));

    let parent =
        IdentityMetadata::new(IdentityKind::Service, TrustDomain::core_domain(), "parent", now)
            .with_budget(parent_budget);

    // Child with smaller budget - valid
    let child_budget = ResourceBudget::unlimited().with_cpu_ticks(CpuTicks::new(500));
    let child =
        IdentityMetadata::new(IdentityKind::Component, TrustDomain::core_domain(), "child", now)
            .with_parent(parent.execution_id)
            .with_budget(child_budget);

    assert!(child.budget_inherits_from(&parent));
}

#[test]
fn test_budget_inheritance_equal() {

    let now = 1000u64;
    let budget = ResourceBudget::unlimited().with_cpu_ticks(CpuTicks::new(1000));

    let parent =
        IdentityMetadata::new(IdentityKind::Service, TrustDomain::core_domain(), "parent", now)
            .with_budget(budget);

    // Child with equal budget - valid
    let child =
        IdentityMetadata::new(IdentityKind::Component, TrustDomain::core_domain(), "child", now)
            .with_parent(parent.execution_id)
            .with_budget(budget);

    assert!(child.budget_inherits_from(&parent));
}

#[test]
fn test_budget_inheritance_violates() {

    let now = 1000u64;
    let parent_budget = ResourceBudget::unlimited().with_cpu_ticks(CpuTicks::new(500));

    let parent =
        IdentityMetadata::new(IdentityKind::Service, TrustDomain::core_domain(), "parent", now)
            .with_budget(parent_budget);

    // Child with larger budget - invalid
    let child_budget = ResourceBudget::unlimited().with_cpu_ticks(CpuTicks::new(1000));
    let child =
        IdentityMetadata::new(IdentityKind::Component, TrustDomain::core_domain(), "child", now)
            .with_parent(parent.execution_id)
            .with_budget(child_budget);

    assert!(!child.budget_inherits_from(&parent));
}

#[test]
fn test_budget_inheritance_no_parent_budget() {

    let now = 1000u64;
    let parent =
        IdentityMetadata::new(IdentityKind::Service, TrustDomain::core_domain(), "parent", now);

    // Child has budget, parent doesn't - valid (no constraint)
    let child_budget = ResourceBudget::unlimited().with_cpu_ticks(CpuTicks::new(1000));
    let child =
        IdentityMetadata::new(IdentityKind::Component, TrustDomain::core_domain(), "child", now)
            .with_parent(parent.execution_id)
            .with_budget(child_budget);

    assert!(child.budget_inherits_from(&parent));
}

#[test]
fn test_budget_inheritance_no_child_budget() {

    let now = 1000u64;
    let parent_budget = ResourceBudget::unlimited().with_cpu_ticks(CpuTicks::new(1000));

    let parent =
        IdentityMetadata::new(IdentityKind::Service, TrustDomain::core_domain(), "parent", now)
            .with_budget(parent_budget);

    // Child has no budget - valid (no constraint)
    let child =
        IdentityMetadata::new(IdentityKind::Component, TrustDomain::core_domain(), "child", now)
            .with_parent(parent.execution_id);

    assert!(child.budget_inherits_from(&parent));
}

#[test]
fn new_ids_are_version_4_uuids() {
    let values = [
        pandagen::identity::TaskId::new().as_uuid(),
        pandagen::identity::ExecutionId::new().as_uuid(),
        pandagen::channel::ChannelId::new().as_uuid(),
        pandagen::ipc::MessageId::new().as_uuid(),
        pandagen::ipc::ServiceId::new().as_uuid(),
    ];
    for v in values {
        assert_eq!((v >> 76) & 0xF, 4);
        assert_eq!((v >> 62) & 0x3, 2);
    }
}
