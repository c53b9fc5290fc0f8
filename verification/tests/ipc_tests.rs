use pandagen::identity::TaskId;
use pandagen::ipc::{Compatibility, Message, MessageEnvelope, MessageId, MessagePayload, SchemaMismatchError, SchemaVersion, ServiceId, VersionPolicy};

fn payload_of(value: i32) -> MessagePayload {
    MessagePayload::from_bytes(serde_json::to_vec(&value).unwrap())
}

#[test]
fn test_message_id_creation() {
    let id1 = MessageId::new();
    let id2 = MessageId::new();
    assert_ne!(id1, id2);
}

#[test]
fn test_schema_version_compatibility() {
    let v1_0 = SchemaVersion::new(1, 0);
    let v1_1 = SchemaVersion::new(1, 1);
    let v2_0 = SchemaVersion::new(2, 0);

    assert!(v1_0.is_compatible_with(&v1_1));
    assert!(v1_1.is_compatible_with(&v1_0));
    assert!(!v1_0.is_compatible_with(&v2_0));
    assert!(!v2_0.is_compatible_with(&v1_0));
}

#[test]
fn test_message_envelope_creation() {
    let dest = ServiceId::new();
    let msg_payload = payload_of(42);

    let envelope = MessageEnvelope::new(
        dest,
        "test_action".to_string(),
        SchemaVersion::new(1, 0),
        msg_payload,
    );

    assert_eq!(envelope.destination, dest);
    assert_eq!(envelope.action, "test_action");
    assert!(!envelope.is_response());
}

#[test]
fn test_message_envelope_with_correlation() {
    let dest = ServiceId::new();
    let msg_payload = payload_of(42);
    let original_id = MessageId::new();

    let envelope = MessageEnvelope::new(
        dest,
        "response_action".to_string(),
        SchemaVersion::new(1, 0),
        msg_payload,
    )
    .with_correlation(original_id);

    assert!(envelope.is_response());
    assert_eq!(envelope.correlation_id, Some(original_id));
}

#[test]
fn test_message_with_source() {
    let dest = ServiceId::new();
    let source = TaskId::new();
    let msg_payload = payload_of(42);

    let envelope = MessageEnvelope::new(
        dest,
        "test".to_string(),
        SchemaVersion::new(1, 0),
        msg_payload,
    )
    .with_source(source);

    assert_eq!(envelope.source, Some(source));
}

// ===== SchemaVersion comparison tests =====

#[test]
fn test_schema_version_older_than() {
    let v1_0 = SchemaVersion::new(1, 0);
    let v1_1 = SchemaVersion::new(1, 1);
    let v2_0 = SchemaVersion::new(2, 0);

    assert!(v1_0.is_older_than(&v1_1));
    assert!(v1_0.is_older_than(&v2_0));
    assert!(v1_1.is_older_than(&v2_0));
    assert!(!v1_1.is_older_than(&v1_0));
    assert!(!v2_0.is_older_than(&v1_0));
    assert!(!v1_0.is_older_than(&v1_0));
}

#[test]
fn test_schema_version_newer_than() {
    let v1_0 = SchemaVersion::new(1, 0);
    let v1_1 = SchemaVersion::new(1, 1);
    let v2_0 = SchemaVersion::new(2, 0);

    assert!(v1_1.is_newer_than(&v1_0));
    assert!(v2_0.is_newer_than(&v1_0));
    assert!(v2_0.is_newer_than(&v1_1));
    assert!(!v1_0.is_newer_than(&v1_1));
    assert!(!v1_0.is_newer_than(&v2_0));
    assert!(!v1_0.is_newer_than(&v1_0));
}

// ===== Compatibility enum tests =====

#[test]
fn test_compatibility_enum() {
    assert_eq!(Compatibility::Compatible, Compatibility::Compatible);
    assert_ne!(Compatibility::Compatible, Compatibility::UpgradeRequired);
    assert_ne!(Compatibility::Compatible, Compatibility::Unsupported);
}

// ===== VersionPolicy tests =====

#[test]
fn test_version_policy_current_only() {
    let policy = VersionPolicy::current(2, 5);

    // Same major version is compatible
    assert_eq!(
        policy.check_compatibility(&SchemaVersion::new(2, 0)),
        Compatibility::Compatible
    );
    assert_eq!(
        policy.check_compatibility(&SchemaVersion::new(2, 5)),
        Compatibility::Compatible
    );
    assert_eq!(
        policy.check_compatibility(&SchemaVersion::new(2, 10)),
        Compatibility::Compatible
    );

    // Older major version requires upgrade
    assert_eq!(
        policy.check_compatibility(&SchemaVersion::new(1, 0)),
        Compatibility::UpgradeRequired
    );

    // Newer major version is unsupported
    assert_eq!(
        policy.check_compatibility(&SchemaVersion::new(3, 0)),
        Compatibility::Unsupported
    );
}

#[test]
fn test_version_policy_with_minimum() {
    let policy = VersionPolicy::current(3, 0).with_min_major(2);

    // v3.x is compatible
    assert_eq!(
        policy.check_compatibility(&SchemaVersion::new(3, 0)),
        Compatibility::Compatible
    );
    assert_eq!(
        policy.check_compatibility(&SchemaVersion::new(3, 5)),
        Compatibility::Compatible
    );

    // v2.x is compatible (within N-1 window)
    assert_eq!(
        policy.check_compatibility(&SchemaVersion::new(2, 0)),
        Compatibility::Compatible
    );
    assert_eq!(
        policy.check_compatibility(&SchemaVersion::new(2, 99)),
        Compatibility::Compatible
    );

    // v1.x requires upgrade (too old)
    assert_eq!(
        policy.check_compatibility(&SchemaVersion::new(1, 0)),
        Compatibility::UpgradeRequired
    );
    assert_eq!(
        policy.check_compatibility(&SchemaVersion::new(1, 999)),
        Compatibility::UpgradeRequired
    );

    // v4.x is unsupported (too new)
    assert_eq!(
        policy.check_compatibility(&SchemaVersion::new(4, 0)),
        Compatibility::Unsupported
    );
}

#[test]
fn test_version_policy_boundary_conditions() {
    let policy = VersionPolicy::current(10, 5).with_min_major(8);

    // Boundary: exactly at minimum
    assert_eq!(
        policy.check_compatibility(&SchemaVersion::new(8, 0)),
        Compatibility::Compatible
    );

    // Boundary: just below minimum
    assert_eq!(
        policy.check_compatibility(&SchemaVersion::new(7, 999)),
        Compatibility::UpgradeRequired
    );

    // Boundary: exactly at current
    assert_eq!(
        policy.check_compatibility(&SchemaVersion::new(10, 5)),
        Compatibility::Compatible
    );

    // Boundary: just above current
    assert_eq!(
        policy.check_compatibility(&SchemaVersion::new(11, 0)),
        Compatibility::Unsupported
    );

    // Extreme: version 0
    assert_eq!(
        policy.check_compatibility(&SchemaVersion::new(0, 0)),
        Compatibility::UpgradeRequired
    );

    // Extreme: very high version
    assert_eq!(
        policy.check_compatibility(&SchemaVersion::new(999, 0)),
        Compatibility::Unsupported
    );
}

#[test]
fn test_version_policy_getters() {
    let policy = VersionPolicy::current(5, 3).with_min_major(4);

    assert_eq!(policy.current_version(), SchemaVersion::new(5, 3));
    assert_eq!(policy.min_version(), SchemaVersion::new(4, 0));
}

// ===== SchemaMismatchError tests =====

#[test]
fn test_schema_mismatch_error_upgrade_required() {
    let service = ServiceId::new();
    let error = SchemaMismatchError::upgrade_required(
        service,
        SchemaVersion::new(2, 0),
        SchemaVersion::new(1, 5),
    );

    match error {
        SchemaMismatchError::UpgradeRequired {
            service: s,
            expected_min,
            received,
        } => {
            assert_eq!(s, service);
            assert_eq!(expected_min, SchemaVersion::new(2, 0));
            assert_eq!(received, SchemaVersion::new(1, 5));
        }
        _ => panic!("Expected UpgradeRequired variant"),
    }
}

#[test]
fn test_schema_mismatch_error_unsupported() {
    let service = ServiceId::new();
    let error = SchemaMismatchError::unsupported(
        service,
        (SchemaVersion::new(2, 0), SchemaVersion::new(3, 5)),
        SchemaVersion::new(4, 0),
    );

    match error {
        SchemaMismatchError::Unsupported {
            service: s,
            supported_range,
            received,
        } => {
            assert_eq!(s, service);
            assert_eq!(supported_range.0, SchemaVersion::new(2, 0));
            assert_eq!(supported_range.1, SchemaVersion::new(3, 5));
            assert_eq!(received, SchemaVersion::new(4, 0));
        }
        _ => panic!("Expected Unsupported variant"),
    }
}

#[test]
fn test_schema_mismatch_error_display() {
    let service = ServiceId::new();

    let error1 = SchemaMismatchError::upgrade_required(
        service,
        SchemaVersion::new(2, 0),
        SchemaVersion::new(1, 5),
    );
    let msg1 = error1.to_string();
    assert!(msg1.contains("too old"));
    assert!(msg1.contains("v1.5"));
    assert!(msg1.contains("v2.0"));
    assert!(msg1.contains("upgrade"));

    let error2 = SchemaMismatchError::unsupported(
        service,
        (SchemaVersion::new(2, 0), SchemaVersion::new(3, 5)),
        SchemaVersion::new(4, 0),
    );
    let msg2 = error2.to_string();
    assert!(msg2.contains("not supported"));
    assert!(msg2.contains("v4.0"));
    assert!(msg2.contains("v2.0"));
    assert!(msg2.contains("v3.5"));
}

#[test]
fn test_schema_mismatch_error_equality() {
    let service1 = ServiceId::new();
    let service2 = ServiceId::new();

    let error1 = SchemaMismatchError::upgrade_required(
        service1,
        SchemaVersion::new(2, 0),
        SchemaVersion::new(1, 5),
    );
    let error2 = SchemaMismatchError::upgrade_required(
        service1,
        SchemaVersion::new(2, 0),
        SchemaVersion::new(1, 5),
    );
    let error3 = SchemaMismatchError::upgrade_required(
        service2,
        SchemaVersion::new(2, 0),
        SchemaVersion::new(1, 5),
    );

    assert_eq!(error1, error2);
    assert_ne!(error1, error3);
}

#[test]
fn test_message_payload_serialization() {
    let msg_payload = payload_of(42);
    let deserialized: i32 = serde_json::from_slice(msg_payload.as_bytes()).unwrap();
    assert_eq!(deserialized, 42);
}

#[test]
fn test_typed_message_creation() {
    let dest = ServiceId::new();
    let envelope = MessageEnvelope::new(dest, "test".to_string(), SchemaVersion::new(1, 0), payload_of(42));
    let message = Message { envelope, payload: 42 };
    assert_eq!(message.envelope.destination, dest);
    assert_eq!(message.payload, 42);
    let envelope = message.into_envelope();
    assert_eq!(envelope.action, "test");
}

#[test]
fn test_version_rendering_and_ids() {
    assert_eq!(SchemaVersion::new(12, 3).to_string(), "v12.3");
    let id = MessageId::from_uuid(0x0123456789abcdef0123456789abcdef);
    assert_eq!(id.as_uuid(), 0x0123456789abcdef0123456789abcdef);
    assert_eq!(id.to_string(), "Msg(01234567-89ab-cdef-0123-456789abcdef)");
    let service = ServiceId::from_uuid(1);
    let e = SchemaMismatchError::upgrade_required(service, SchemaVersion::new(2, 0), SchemaVersion::new(1, 5));
    assert_eq!(
        e.to_string(),
        "Schema version too old for service 00000000-0000-0000-0000-000000000001: received v1.5, expected at least v2.0. Please upgrade sender."
    );
    let _ = TaskId::new();
}
