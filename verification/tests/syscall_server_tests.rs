use std::sync::{Arc, Mutex};

use pandagen::channel::ChannelId;
use pandagen::device_manager::Cap;
use pandagen::identity::TaskId;
use pandagen::ipc::{MessageEnvelope, MessageId, MessagePayload, SchemaVersion, ServiceId};
use pandagen::kernel_error::KernelError;
use pandagen::syscall::SyscallCodec;
use pandagen::syscall_server::{
    extract_create_channel, extract_now, extract_receive, extract_spawn, finish_round_trip, new_request,
    KernelApi, SyscallRequest, SyscallRequestPayload, SyscallResponse, SyscallResponsePayload, SyscallServer,
    TaskDescriptor, TaskHandle,
};
use pandagen::time::{Duration, Instant};

#[derive(Default)]
struct MockKernel {
    last_spawn: Arc<Mutex<Option<String>>>,
}

impl KernelApi for MockKernel {
    fn spawn_task(&mut self, descriptor: TaskDescriptor) -> Result<TaskHandle, KernelError> {
        let mut last_spawn = self.last_spawn.lock().expect("lock last_spawn");
        *last_spawn = Some(descriptor.name.clone());
        Ok(TaskHandle::new(TaskId::new()))
    }

    fn create_channel(&mut self) -> Result<ChannelId, KernelError> {
        Ok(ChannelId::new())
    }

    fn send_message(&mut self, _channel: ChannelId, _message: MessageEnvelope) -> Result<(), KernelError> {
        Ok(())
    }

    fn receive_message(
        &mut self,
        _channel: ChannelId,
        _timeout: Option<Duration>,
    ) -> Result<MessageEnvelope, KernelError> {
        Err(KernelError::ReceiveFailed("No messages".to_string()))
    }

    fn now(&self) -> Instant {
        Instant::from_nanos(42)
    }

    fn sleep(&mut self, _duration: Duration) -> Result<(), KernelError> {
        Ok(())
    }

    fn grant_capability(&mut self, _task: TaskId, _capability: Cap) -> Result<(), KernelError> {
        Ok(())
    }

    fn register_service(&mut self, _service_id: ServiceId, _channel: ChannelId) -> Result<(), KernelError> {
        Ok(())
    }

    fn lookup_service(&self, _service_id: ServiceId) -> Result<ChannelId, KernelError> {
        Ok(ChannelId::new())
    }
}

/// A round trip through the server, with the payloads handed over as
/// values.
fn round_trip(
    server: &mut SyscallServer<MockKernel>,
    codec: &SyscallCodec,
    payload: SyscallRequestPayload,
) -> Result<SyscallResponse, KernelError> {
    let request: SyscallRequest = new_request(payload);
    let id = request.request_id;
    let message = codec.request_envelope(MessagePayload::from_bytes(vec![]));
    let response = server.handle_request(&message, Ok(request))?;
    let reply = codec.response_envelope(MessagePayload::from_bytes(vec![]), message.id);
    finish_round_trip(codec, id, &reply, Ok(response))
}

#[test]
fn test_syscall_spawn_round_trip() {
    let codec = SyscallCodec::new(ServiceId::new());
    let last_spawn = Arc::new(Mutex::new(None));
    let kernel = MockKernel { last_spawn: last_spawn.clone() };
    let mut server = SyscallServer::new(kernel, SyscallCodec::new(codec.service_id()));

    let descriptor = TaskDescriptor::new("test".to_string());
    let response =
        round_trip(&mut server, &codec, SyscallRequestPayload::SpawnTask { descriptor }).unwrap();
    let handle = extract_spawn(response).unwrap();

    assert_ne!(handle.task_id.as_uuid(), 0);

    let last = last_spawn.lock().expect("lock last_spawn");
    assert!(last.is_some());
    assert_eq!(last.as_ref().unwrap(), "test");
}

#[test]
fn syscall_errors_and_time_cross_the_boundary() {
    let codec = SyscallCodec::new(ServiceId::from_uuid(9));
    let mut server = SyscallServer::new(MockKernel::default(), codec);
    let response = round_trip(
        &mut server,
        &codec,
        SyscallRequestPayload::ReceiveMessage { channel: ChannelId::from_uuid(1), timeout: None },
    )
    .unwrap();
    assert_eq!(extract_receive(response).err(), Some(KernelError::ReceiveFailed("No messages".to_string())));

    let response = round_trip(&mut server, &codec, SyscallRequestPayload::Now).unwrap();
    assert_eq!(extract_now(response), Ok(Instant::from_nanos(42)));

    let response = round_trip(&mut server, &codec, SyscallRequestPayload::Now).unwrap();
    assert_eq!(
        extract_create_channel(response),
        Err(KernelError::ReceiveFailed("Syscall response payload mismatch".to_string()))
    );
}

#[test]
fn syscall_server_refuses_other_messages() {
    let codec = SyscallCodec::new(ServiceId::from_uuid(9));
    let mut server = SyscallServer::new(MockKernel::default(), codec);
    let other = MessageEnvelope::new(
        ServiceId::from_uuid(9),
        "kernel.other".to_string(),
        SchemaVersion::new(1, 0),
        MessagePayload::from_bytes(vec![]),
    );
    let r = server.handle_request(&other, Ok(new_request(SyscallRequestPayload::Now)));
    assert_eq!(
        r.err(),
        Some(KernelError::ReceiveFailed(
            "Syscall decode failed: Unexpected syscall action: kernel.other".to_string()
        ))
    );
    let request = codec.request_envelope(MessagePayload::from_bytes(vec![]));
    let r = server.handle_request(&request, Err("bad json".to_string()));
    assert_eq!(
        r.err(),
        Some(KernelError::ReceiveFailed("Syscall decode failed: Payload error: bad json".to_string()))
    );
}

#[test]
fn syscall_client_refuses_answers_to_other_requests() {
    let codec = SyscallCodec::new(ServiceId::from_uuid(9));
    let reply = codec.response_envelope(MessagePayload::from_bytes(vec![]), MessageId::new());
    let other = SyscallResponse {
        request_id: MessageId::new(),
        payload: SyscallResponsePayload::Now(Ok(Instant::from_nanos(1))),
    };
    let r = finish_round_trip(&codec, MessageId::new(), &reply, Ok(other));
    assert_eq!(
        r.err(),
        Some(KernelError::ReceiveFailed("Syscall response request_id mismatch".to_string()))
    );
}
