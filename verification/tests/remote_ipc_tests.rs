use pandagen::ipc::MessageId;
use pandagen::remote_ipc::{
    check_action, CapabilityAuthority, RemoteCall, RemoteHandler, RemoteIpcClient, RemoteIpcError,
    RemoteIpcServer, RemoteResponse, REMOTE_CALL_ACTION,
};

struct EchoHandler;

impl RemoteHandler for EchoHandler {
    fn handle(&mut self, call: RemoteCall) -> Result<Vec<u8>, String> {
        Ok(call.payload)
    }
}

fn authority(caps: Vec<u64>) -> CapabilityAuthority {
    CapabilityAuthority { caller: "client".to_string(), allowed_caps: caps }
}

#[test]
fn authority_allows_only_held_caps() {
    let a = authority(vec![1, 42]);
    assert!(a.allows(42));
    assert!(!a.allows(7));
}

#[test]
fn client_refuses_caps_it_does_not_hold() {
    let client = RemoteIpcClient::new(authority(vec![1]));
    let result = client.prepare_call(42, "echo", b"no".to_vec());
    assert!(matches!(result, Err(RemoteIpcError::Unauthorized)));
}

#[test]
fn server_answers_admitted_calls_under_the_message_id() {
    let client = RemoteIpcClient::new(authority(vec![42]));
    let call = client.prepare_call(42, "echo", b"hello".to_vec()).unwrap();
    assert_eq!(call.cap_id, 42);
    assert_eq!(call.action, "echo");
    let mut server = RemoteIpcServer::new(EchoHandler, vec![42]);
    assert!(server.admits(&call));
    let response = server.handle_call(call.clone());
    assert_eq!(response.request_id, call.request_id);
    assert_eq!(response.result, Ok(b"hello".to_vec()));
}

#[test]
fn server_refuses_caps_it_does_not_serve() {
    let client = RemoteIpcClient::new(authority(vec![42]));
    let call = client.prepare_call(42, "echo", b"x".to_vec()).unwrap();
    let mut server = RemoteIpcServer::new(EchoHandler, vec![1]);
    let response = server.handle_call(call.clone());
    assert_eq!(response.request_id, call.request_id);
    assert_eq!(response.result, Err("unauthorized".to_string()));
}

#[test]
fn client_matches_responses_to_its_call() {
    let client = RemoteIpcClient::new(authority(vec![42]));
    let call = client.prepare_call(42, "echo", b"x".to_vec()).unwrap();
    let ok = RemoteResponse { request_id: call.request_id, result: Ok(b"y".to_vec()) };
    assert_eq!(RemoteIpcClient::finish_call(&call, ok), Ok(b"y".to_vec()));
    let failed = RemoteResponse { request_id: call.request_id, result: Err("boom".to_string()) };
    assert_eq!(
        RemoteIpcClient::finish_call(&call, failed),
        Err(RemoteIpcError::Codec("boom".to_string()))
    );
    let other = RemoteResponse { request_id: MessageId::new(), result: Ok(vec![]) };
    assert_eq!(
        RemoteIpcClient::finish_call(&call, other),
        Err(RemoteIpcError::Codec("request_id mismatch".to_string()))
    );
}

#[test]
fn actions_and_error_messages() {
    assert_eq!(check_action(REMOTE_CALL_ACTION, REMOTE_CALL_ACTION), Ok(()));
    assert_eq!(
        check_action("other", REMOTE_CALL_ACTION),
        Err(RemoteIpcError::Codec("unexpected action".to_string()))
    );
    assert_eq!(RemoteIpcError::Unauthorized.to_string(), "Authorization denied");
    assert_eq!(RemoteIpcError::Codec("bad".to_string()).to_string(), "Codec error: bad");
}

/// The loopback of a call: the client's call goes to the server, whose
/// answer comes back to the client.
fn loopback_call(
    client: &RemoteIpcClient,
    server: &mut RemoteIpcServer<EchoHandler>,
    cap_id: u64,
    action: &str,
    payload: Vec<u8>,
) -> Result<Vec<u8>, RemoteIpcError> {
    let call = client.prepare_call(cap_id, action, payload)?;
    let response = server.handle_call(call.clone());
    RemoteIpcClient::finish_call(&call, response)
}

#[test]
fn test_remote_capability_call_success() {
    let authority = CapabilityAuthority { caller: "client".to_string(), allowed_caps: vec![42] };
    let mut server = RemoteIpcServer::new(EchoHandler, vec![42]);
    let client = RemoteIpcClient::new(authority);

    let payload = b"hello".to_vec();
    let result = loopback_call(&client, &mut server, 42, "echo", payload.clone()).unwrap();
    assert_eq!(result, payload);
}

#[test]
fn test_remote_capability_call_denied() {
    let authority = CapabilityAuthority { caller: "client".to_string(), allowed_caps: vec![1] };
    let mut server = RemoteIpcServer::new(EchoHandler, vec![42]);
    let client = RemoteIpcClient::new(authority);

    let result = loopback_call(&client, &mut server, 42, "echo", b"no".to_vec());
    assert!(matches!(result, Err(RemoteIpcError::Unauthorized)));
}

#[test]
fn remote_call_refused_by_the_server_comes_back_unauthorized() {
    let authority = CapabilityAuthority { caller: "client".to_string(), allowed_caps: vec![42] };
    let mut server = RemoteIpcServer::new(EchoHandler, vec![7]);
    let client = RemoteIpcClient::new(authority);
    let result = loopback_call(&client, &mut server, 42, "echo", b"x".to_vec());
    assert_eq!(result, Err(RemoteIpcError::Codec("unauthorized".to_string())));
}
