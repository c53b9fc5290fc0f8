use pandagen::ipc::{MessageEnvelope, MessageId, MessagePayload, SchemaVersion, ServiceId};
use pandagen::kernel_error::KernelError;
use pandagen::syscall::{SyscallCodec, SyscallCodecError, SyscallError, SyscallErrorKind, SYSCALL_REQUEST_ACTION, SYSCALL_RESPONSE_ACTION};

#[test]
fn test_syscall_error_round_trip() {
    let errors = vec![
        KernelError::SpawnFailed("no slot".to_string()),
        KernelError::Timeout,
        KernelError::ServiceNotFound("svc".to_string()),
        KernelError::ResourceBudgetExceeded {
            resource_type: "CpuTicks".to_string(),
            limit: 10,
            usage: 11,
            identity: "task".to_string(),
            operation: "spawn".to_string(),
        },
    ];
    for e in errors {
        let s = SyscallError::from(e.clone());
        assert_eq!(s.into_kernel_error(), e);
    }
    let t = SyscallError::from(KernelError::Timeout);
    assert_eq!(t.kind, SyscallErrorKind::Timeout);
    assert_eq!(t.message, "Operation timed out");
}

#[test]
fn test_syscall_error_defaults() {
    let s = SyscallError::new(SyscallErrorKind::ResourceBudgetExhausted, "x".to_string());
    assert_eq!(
        s.into_kernel_error(),
        KernelError::ResourceBudgetExhausted {
            resource_type: "Unknown".to_string(),
            limit: 0,
            usage: 0,
            identity: "unknown".to_string(),
            operation: "unknown".to_string(),
        }
    );
    let u = SyscallError::new(SyscallErrorKind::Unknown, "lost".to_string());
    assert_eq!(u.into_kernel_error(), KernelError::ReceiveFailed("lost".to_string()));
}

#[test]
fn test_syscall_codec_checks() {
    let service = ServiceId::new();
    let codec = SyscallCodec::new(service);
    assert_eq!(codec.service_id(), service);
    let request = codec.request_envelope(MessagePayload::from_bytes(vec![1, 2]));
    assert_eq!(request.action, SYSCALL_REQUEST_ACTION);
    assert!(codec.check_request(&request).is_ok());
    match codec.check_response(&request) {
        Err(e) => assert_eq!(e.to_string(), "Unexpected syscall action: kernel.syscall.request"),
        Ok(()) => panic!("expected an action error"),
    }
    let corr = MessageId::new();
    let response = codec.response_envelope(MessagePayload::from_bytes(vec![]), corr);
    assert_eq!(response.action, SYSCALL_RESPONSE_ACTION);
    assert_eq!(response.correlation_id, Some(corr));
    assert!(codec.check_response(&response).is_ok());
    let old = MessageEnvelope::new(
        service,
        SYSCALL_REQUEST_ACTION.to_string(),
        SchemaVersion::new(2, 1),
        MessagePayload::from_bytes(vec![]),
    );
    match codec.check_request(&old) {
        Err(e) => {
            assert!(matches!(e, SyscallCodecError::SchemaMismatch { .. }));
            assert_eq!(e.to_string(), "Schema mismatch: expected v1.0, got v2.1");
        }
        Ok(()) => panic!("expected a schema error"),
    }
}
