use pandagen::identity::{IdentityKind, IdentityMetadata, TrustDomain};
use pandagen::pipeline::PipelineId;
use pandagen::policy::{
    CapabilityDelta, CapabilitySet, ComposedPolicy, DerivedAuthority, NoOpPolicy,
    PipelineSafetyPolicy, PolicyContext, PolicyDecision, PolicyDecisionReport, PolicyEngine,
    PolicyEvent, TrustDomainPolicy,
};

#[test]
fn test_policy_decision_allow() {
    let decision = PolicyDecision::allow();
    assert!(decision.is_allow());
    assert!(!decision.is_deny());
    assert!(!decision.is_require());
}

#[test]
fn test_policy_decision_deny() {
    let decision = PolicyDecision::deny("test reason");
    assert!(!decision.is_allow());
    assert!(decision.is_deny());
    assert!(!decision.is_require());
    assert_eq!(decision.to_string(), "Deny: test reason");
}

#[test]
fn test_policy_decision_require() {
    let decision = PolicyDecision::require("test action");
    assert!(!decision.is_allow());
    assert!(!decision.is_deny());
    assert!(decision.is_require());
    assert_eq!(decision.to_string(), "Require: test action");
}

#[test]
fn test_noop_policy() {
    let policy = NoOpPolicy;
    let context = PolicyContext::for_spawn(
        IdentityMetadata::new(IdentityKind::Service, TrustDomain::core_domain(), "test", 0),
        IdentityMetadata::new(IdentityKind::Service, TrustDomain::core_domain(), "target", 0),
    );

    let decision = policy.evaluate(PolicyEvent::OnSpawn, &context);
    assert!(decision.is_allow());
}

#[test]
fn test_trust_domain_policy_sandbox_cannot_spawn_system() {
    let policy = TrustDomainPolicy;
    let context = PolicyContext::for_spawn(
        IdentityMetadata::new(
            IdentityKind::Component,
            TrustDomain::sandbox(),
            "sandboxed",
            0,
        ),
        IdentityMetadata::new(IdentityKind::System, TrustDomain::core_domain(), "system", 0),
    );

    let decision = policy.evaluate(PolicyEvent::OnSpawn, &context);
    assert!(decision.is_deny());
}

#[test]
fn test_trust_domain_policy_sandbox_cannot_spawn_core() {
    let policy = TrustDomainPolicy;
    let context = PolicyContext::for_spawn(
        IdentityMetadata::new(
            IdentityKind::Component,
            TrustDomain::sandbox(),
            "sandboxed",
            0,
        ),
        IdentityMetadata::new(
            IdentityKind::Service,
            TrustDomain::core_domain(),
            "core-service",
            0,
        ),
    );

    let decision = policy.evaluate(PolicyEvent::OnSpawn, &context);
    assert!(decision.is_deny());
}

#[test]
fn test_trust_domain_policy_cross_domain_delegation_requires() {
    let policy = TrustDomainPolicy;
    let context = PolicyContext::for_capability_delegation(
        IdentityMetadata::new(IdentityKind::Service, TrustDomain::core_domain(), "service1", 0),
        IdentityMetadata::new(
            IdentityKind::Component,
            TrustDomain::user(),
            "user-component",
            0,
        ),
        42,
    );

    let decision = policy.evaluate(PolicyEvent::OnCapabilityDelegate, &context);
    assert!(decision.is_require());
}

#[test]
fn test_trust_domain_policy_same_domain_delegation_allowed() {
    let policy = TrustDomainPolicy;
    let context = PolicyContext::for_capability_delegation(
        IdentityMetadata::new(IdentityKind::Service, TrustDomain::core_domain(), "service1", 0),
        IdentityMetadata::new(IdentityKind::Service, TrustDomain::core_domain(), "service2", 0),
        42,
    );

    let decision = policy.evaluate(PolicyEvent::OnCapabilityDelegate, &context);
    assert!(decision.is_allow());
}

#[test]
fn test_pipeline_safety_policy_user_domain_requires_timeout() {
    let policy = PipelineSafetyPolicy::new();
    let context = PolicyContext::for_pipeline(
        IdentityMetadata::new(
            IdentityKind::Component,
            TrustDomain::user(),
            "user-pipeline",
            0,
        ),
        PipelineId::new(),
    );

    let decision = policy.evaluate(PolicyEvent::OnPipelineStart, &context);
    assert!(decision.is_require());
}

#[test]
fn test_pipeline_safety_policy_user_domain_with_timeout_allowed() {
    let policy = PipelineSafetyPolicy::new();
    let context = PolicyContext::for_pipeline(
        IdentityMetadata::new(
            IdentityKind::Component,
            TrustDomain::user(),
            "user-pipeline",
            0,
        ),
        PipelineId::new(),
    )
    .with_metadata("timeout_ms", "5000");

    let decision = policy.evaluate(PolicyEvent::OnPipelineStart, &context);
    assert!(decision.is_allow());
}

#[test]
fn test_pipeline_safety_policy_too_many_stages() {
    let policy = PipelineSafetyPolicy::with_max_stages(3);
    let context = PolicyContext::for_pipeline(
        IdentityMetadata::new(
            IdentityKind::Component,
            TrustDomain::core_domain(),
            "large-pipeline",
            0,
        ),
        PipelineId::new(),
    )
    .with_metadata("stage_count", "5")
    .with_metadata("timeout_ms", "10000");

    let decision = policy.evaluate(PolicyEvent::OnPipelineStart, &context);
    assert!(decision.is_require());
}

#[test]
fn test_composed_policy_first_deny_wins() {
    let mut composed = ComposedPolicy::new();
    composed = composed.add_policy(Box::new(NoOpPolicy)); // Allow
    composed = composed.add_policy(Box::new(TrustDomainPolicy)); // Will deny

    let context = PolicyContext::for_spawn(
        IdentityMetadata::new(
            IdentityKind::Component,
            TrustDomain::sandbox(),
            "sandboxed",
            0,
        ),
        IdentityMetadata::new(IdentityKind::System, TrustDomain::core_domain(), "system", 0),
    );

    let decision = composed.evaluate(PolicyEvent::OnSpawn, &context);
    assert!(decision.is_deny());
}

#[test]
fn test_composed_policy_collect_requires() {
    let mut composed = ComposedPolicy::new();
    composed = composed.add_policy(Box::new(TrustDomainPolicy)); // Will require
    composed = composed.add_policy(Box::new(PipelineSafetyPolicy::new())); // Will require

    let context = PolicyContext::for_pipeline(
        IdentityMetadata::new(IdentityKind::Component, TrustDomain::user(), "pipeline", 0),
        PipelineId::new(),
    );

    // TrustDomainPolicy allows pipeline start, PipelineSafetyPolicy requires timeout
    let decision = composed.evaluate(PolicyEvent::OnPipelineStart, &context);
    assert!(decision.is_require());
}

#[test]
fn test_composed_policy_all_allow() {
    let mut composed = ComposedPolicy::new();
    composed = composed.add_policy(Box::new(NoOpPolicy));
    composed = composed.add_policy(Box::new(NoOpPolicy));

    let context = PolicyContext::for_spawn(
        IdentityMetadata::new(IdentityKind::Service, TrustDomain::core_domain(), "service1", 0),
        IdentityMetadata::new(IdentityKind::Service, TrustDomain::core_domain(), "service2", 0),
    );

    let decision = composed.evaluate(PolicyEvent::OnSpawn, &context);
    assert!(decision.is_allow());
}

#[test]
fn test_policy_decision_report_allow() {
    let report = PolicyDecisionReport::new("TestPolicy", PolicyDecision::allow());
    assert!(report.is_allow());
    assert!(!report.is_deny());
    assert!(!report.is_require());
    assert_eq!(report.evaluated_policies.len(), 1);
    assert_eq!(report.evaluated_policies[0].policy_name, "TestPolicy");
    assert!(report.deny_reason.is_none());
    assert!(report.required_actions.is_empty());
}

#[test]
fn test_policy_decision_report_deny() {
    let report = PolicyDecisionReport::new("TestPolicy", PolicyDecision::deny("access denied"));
    assert!(!report.is_allow());
    assert!(report.is_deny());
    assert!(!report.is_require());
    assert_eq!(report.deny_reason, Some("access denied".to_string()));
    assert!(report.required_actions.is_empty());
}

#[test]
fn test_policy_decision_report_require() {
    let report =
        PolicyDecisionReport::new("TestPolicy", PolicyDecision::require("add timeout"));
    assert!(!report.is_allow());
    assert!(!report.is_deny());
    assert!(report.is_require());
    assert!(report.deny_reason.is_none());
    assert_eq!(report.required_actions, vec!["add timeout"]);
}

#[test]
fn test_composed_policy_report_with_deny() {
    let mut composed = ComposedPolicy::new();
    composed = composed.add_policy(Box::new(NoOpPolicy));
    composed = composed.add_policy(Box::new(TrustDomainPolicy));

    let context = PolicyContext::for_spawn(
        IdentityMetadata::new(
            IdentityKind::Component,
            TrustDomain::sandbox(),
            "sandboxed",
            0,
        ),
        IdentityMetadata::new(IdentityKind::System, TrustDomain::core_domain(), "system", 0),
    );

    let report = composed.evaluate_with_report(PolicyEvent::OnSpawn, &context);
    assert!(report.is_deny());
    assert_eq!(report.evaluated_policies.len(), 2);
    assert_eq!(report.evaluated_policies[0].policy_name, "NoOpPolicy");
    assert!(report.evaluated_policies[0].decision.is_allow());
    assert_eq!(
        report.evaluated_policies[1].policy_name,
        "TrustDomainPolicy"
    );
    assert!(report.evaluated_policies[1].decision.is_deny());
    assert!(report.deny_reason.is_some());
}

#[test]
fn test_composed_policy_report_with_require() {
    let mut composed = ComposedPolicy::new();
    composed = composed.add_policy(Box::new(TrustDomainPolicy));
    composed = composed.add_policy(Box::new(PipelineSafetyPolicy::new()));

    let context = PolicyContext::for_pipeline(
        IdentityMetadata::new(IdentityKind::Component, TrustDomain::user(), "pipeline", 0),
        PipelineId::new(),
    );

    let report = composed.evaluate_with_report(PolicyEvent::OnPipelineStart, &context);
    assert!(report.is_require());
    assert_eq!(report.evaluated_policies.len(), 2);
    assert!(!report.required_actions.is_empty());
}

// ============================================================================
// Phase 10: Capability Set and Derived Authority Tests
// ============================================================================

#[test]
fn test_capability_set_creation() {
    let set = CapabilitySet::new();
    assert!(set.is_empty());
    assert_eq!(set.len(), 0);

    let set2 = CapabilitySet::from_capabilities(vec![1, 2, 3]);
    assert!(!set2.is_empty());
    assert_eq!(set2.len(), 3);
}

#[test]
fn test_capability_set_subset() {
    let full = CapabilitySet::from_capabilities(vec![1, 2, 3, 4]);
    let subset = CapabilitySet::from_capabilities(vec![1, 2]);
    let not_subset = CapabilitySet::from_capabilities(vec![1, 5]);

    assert!(subset.is_subset_of(&full));
    assert!(!not_subset.is_subset_of(&full));
    assert!(full.is_subset_of(&full)); // Set is subset of itself
}

#[test]
fn test_capability_set_intersection() {
    let set1 = CapabilitySet::from_capabilities(vec![1, 2, 3]);
    let set2 = CapabilitySet::from_capabilities(vec![2, 3, 4]);

    let intersection = set1.intersection(&set2);
    let caps = intersection.to_vec();
    assert_eq!(caps, vec![2, 3]);
}

#[test]
fn test_capability_set_difference() {
    let set1 = CapabilitySet::from_capabilities(vec![1, 2, 3]);
    let set2 = CapabilitySet::from_capabilities(vec![2, 3, 4]);

    let diff = set1.difference(&set2);
    assert_eq!(diff.to_vec(), vec![1]);
}

#[test]
fn test_derived_authority_creation() {
    let caps = CapabilitySet::from_capabilities(vec![1, 2, 3]);
    let derived = DerivedAuthority::new(caps.clone());

    assert_eq!(derived.capabilities, caps);
    assert!(derived.constraints.is_empty());
}

#[test]
fn test_derived_authority_with_constraints() {
    let derived = DerivedAuthority::from_capabilities(vec![1, 2])
        .with_constraint("read-only")
        .with_constraint("no-network");

    assert_eq!(derived.constraints.len(), 2);
    assert_eq!(derived.constraints[0], "read-only");
    assert_eq!(derived.constraints[1], "no-network");
}

#[test]
fn test_capability_delta_empty() {
    let before = CapabilitySet::from_capabilities(vec![1, 2, 3]);
    let after = before.clone();

    let delta = CapabilityDelta::from(&before, &after);
    assert!(delta.is_empty());
    assert!(delta.removed.is_empty());
    assert!(delta.added.is_empty());
}

#[test]
fn test_capability_delta_removed() {
    let before = CapabilitySet::from_capabilities(vec![1, 2, 3]);
    let after = CapabilitySet::from_capabilities(vec![1, 2]);

    let delta = CapabilityDelta::from(&before, &after);
    assert!(!delta.is_empty());
    assert_eq!(delta.removed, vec![3]);
    assert!(delta.added.is_empty());
}

#[test]
fn test_capability_delta_added() {
    let before = CapabilitySet::from_capabilities(vec![1, 2]);
    let after = CapabilitySet::from_capabilities(vec![1, 2, 3]);

    let delta = CapabilityDelta::from(&before, &after);
    assert!(!delta.is_empty());
    assert!(delta.removed.is_empty());
    assert_eq!(delta.added, vec![3]);
}

#[test]
fn test_capability_delta_both() {
    let before = CapabilitySet::from_capabilities(vec![1, 2, 3]);
    let after = CapabilitySet::from_capabilities(vec![2, 3, 4]);

    let delta = CapabilityDelta::from(&before, &after);
    assert!(!delta.is_empty());
    assert_eq!(delta.removed, vec![1]);
    assert_eq!(delta.added, vec![4]);
}

#[test]
fn test_policy_decision_allow_with_derived() {
    let derived = DerivedAuthority::from_capabilities(vec![1, 2]);
    let decision = PolicyDecision::allow_with_derived(derived.clone());

    assert!(decision.is_allow());
    assert_eq!(decision.derived_authority(), Some(&derived));
}

#[test]
fn test_policy_decision_allow_without_derived() {
    let decision = PolicyDecision::allow();

    assert!(decision.is_allow());
    assert_eq!(decision.derived_authority(), None);
}

#[test]
fn test_policy_decision_report_with_capabilities() {
    let input = CapabilitySet::from_capabilities(vec![1, 2, 3]);
    let output = CapabilitySet::from_capabilities(vec![1, 2]);

    let report = PolicyDecisionReport::new("TestPolicy", PolicyDecision::allow())
        .with_capabilities(input.clone(), Some(output.clone()));

    assert_eq!(report.input_capabilities, Some(input));
    assert_eq!(report.output_capabilities, Some(output));
    assert!(report.capability_delta.is_some());

    let delta = report.capability_delta.unwrap();
    assert_eq!(delta.removed, vec![3]);
    assert!(delta.added.is_empty());
}
