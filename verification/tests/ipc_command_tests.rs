use pandagen::ipc::{MessageId, MessagePayload, ServiceId};
use pandagen::ipc_command::{command_schema_version, CommandError, CommandErrorCode, CommandRequest, CommandResponse, CommandStatus, COMMAND_REQUEST_ACTION, COMMAND_RESPONSE_ACTION};

#[test]
fn test_command_request_envelope_roundtrip() {
    let service = ServiceId::new();
    let request = CommandRequest::new("help");
    let bytes = serde_json::to_vec(&request.command).unwrap();
    let envelope = request.envelope(service, MessagePayload::from_bytes(bytes));

    assert_eq!(envelope.destination, service);
    assert_eq!(envelope.action, COMMAND_REQUEST_ACTION);
    assert_eq!(envelope.schema_version, command_schema_version());

    let decoded: String = serde_json::from_slice(envelope.payload.as_bytes()).unwrap();
    assert_eq!(decoded, "help");
}

#[test]
fn test_command_response_envelope_roundtrip() {
    let service = ServiceId::new();
    let correlation = MessageId::new();
    let response = CommandResponse::ok("ok");
    let bytes = serde_json::to_vec(&response.output).unwrap();
    let envelope = response.envelope(service, correlation, MessagePayload::from_bytes(bytes));
    assert!(matches!(response.status, CommandStatus::Success));

    assert_eq!(envelope.destination, service);
    assert_eq!(envelope.action, COMMAND_RESPONSE_ACTION);
    assert_eq!(envelope.correlation_id, Some(correlation));

    let decoded: Option<String> = serde_json::from_slice(envelope.payload.as_bytes()).unwrap();
    assert_eq!(decoded, Some("ok".to_string()));
}

#[test]
fn test_command_error_structure() {
    let error = CommandError::new(CommandErrorCode::InvalidCommand, "bad")
        .with_details("unknown command");
    assert_eq!(error.code, CommandErrorCode::InvalidCommand);
    assert_eq!(error.message, "bad");
    assert_eq!(error.details, Some("unknown command".to_string()));
}

#[test]
fn test_command_response_constructors() {
    let empty = CommandResponse::ok_empty();
    assert_eq!(empty.output, None);
    assert_eq!(empty.version, command_schema_version());
    let err = CommandResponse::error(CommandError::new(CommandErrorCode::Unauthorized, "no"));
    assert!(matches!(err.status, CommandStatus::Error(ref e) if e.code == CommandErrorCode::Unauthorized));
    let req = CommandRequest::new("ls");
    assert_eq!(req.command, "ls");
}
