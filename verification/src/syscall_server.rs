//! The kernel interface, and the two sides of the syscall boundary that
//! carry it over typed messages: the server, which runs each request on a
//! kernel and answers it, and the client steps around a round trip.
//!
//! Payloads are turned into bytes and back outside the library; the
//! library checks the framing, dispatches each request, and matches each
//! response to its request.

use vstd::prelude::*;
use crate::channel::ChannelId;
use crate::device_manager::Cap;
use crate::identity::TaskId;
use crate::ipc::{MessageEnvelope, MessageId, ServiceId};
use crate::kernel_error::{KernelError, KernelFault};
use crate::syscall::{codec_error_text, syscall_schema, fault_of_kernel, kernel_of_fault, SyscallCodec, SyscallCodecError, SyscallError, SyscallFault, SYSCALL_REQUEST_ACTION, SYSCALL_RESPONSE_ACTION};
use crate::text::{owned, push_str};
use crate::time::{Duration, Instant};

verus! {

/// What to spawn: a name and the capabilities the task starts with.
#[derive(Debug)]
pub struct TaskDescriptor {
    /// Name, for debugging
    pub name: String,
    /// Capabilities granted to the task
    pub capabilities: Vec<Cap>,
}

impl TaskDescriptor {
    /// A descriptor with no capabilities.
    pub fn new(name: String) -> (r: Self)
        ensures
            r.name == name,
            r.capabilities@.len() == 0,
    {
        TaskDescriptor { name, capabilities: Vec::new() }
    }

    /// The descriptor with one more capability.
    pub fn with_capability(self, cap: Cap) -> (r: Self)
        ensures
            r.name == self.name,
            r.capabilities@ == self.capabilities@.push(cap),
    {
        let mut d = self;
        d.capabilities.push(cap);
        d
    }
}

/// Handle of a spawned task.
#[derive(Debug, Clone, Copy, PartialEq, Eq, Structural)]
pub struct TaskHandle {
    /// The task's identifier
    pub task_id: TaskId,
}

impl TaskHandle {
    /// The handle of a task.
    pub fn new(task_id: TaskId) -> (r: Self)
        ensures
            r.task_id == task_id,
    {
        TaskHandle { task_id }
    }
}

/// The kernel interface: tasks, channels, messages, time, capabilities
/// and services. Simulated, real and remote kernels implement it.
pub trait KernelApi: Sized {
    /// What spawning may do: `after` is the kernel afterwards and `r` the
    /// result. An implementation says what it does; by default nothing is
    /// said.
    open spec fn spawns(&self, descriptor: TaskDescriptor, after: Self, r: Result<TaskHandle, KernelError>) -> bool {
        true
    }

    /// What creating a channel may do.
    open spec fn creates_channel(&self, after: Self, r: Result<ChannelId, KernelError>) -> bool {
        true
    }

    /// What sending a message may do.
    open spec fn sends(&self, channel: ChannelId, message: MessageEnvelope, after: Self, r: Result<(), KernelError>) -> bool {
        true
    }

    /// What receiving a message may do.
    open spec fn receives(
        &self,
        channel: ChannelId,
        timeout: Option<Duration>,
        after: Self,
        r: Result<MessageEnvelope, KernelError>,
    ) -> bool {
        true
    }

    /// What the time may read.
    open spec fn reads_time(&self, r: Instant) -> bool {
        true
    }

    /// What sleeping may do.
    open spec fn sleeps(&self, duration: Duration, after: Self, r: Result<(), KernelError>) -> bool {
        true
    }

    /// What granting a capability may do.
    open spec fn grants(&self, task: TaskId, capability: Cap, after: Self, r: Result<(), KernelError>) -> bool {
        true
    }

    /// What registering a service may do.
    open spec fn registers(&self, service_id: ServiceId, channel: ChannelId, after: Self, r: Result<(), KernelError>) -> bool {
        true
    }

    /// What looking up a service may answer.
    open spec fn looks_up(&self, service_id: ServiceId, r: Result<ChannelId, KernelError>) -> bool {
        true
    }

    /// Spawns a task with explicit capabilities.
    fn spawn_task(&mut self, descriptor: TaskDescriptor) -> (r: Result<TaskHandle, KernelError>)
        ensures
            old(self).spawns(descriptor, *final(self), r),
    ;

    /// Creates a bidirectional channel.
    fn create_channel(&mut self) -> (r: Result<ChannelId, KernelError>)
        ensures
            old(self).creates_channel(*final(self), r),
    ;

    /// Sends a message through a channel.
    fn send_message(&mut self, channel: ChannelId, message: MessageEnvelope) -> (r: Result<(), KernelError>)
        ensures
            old(self).sends(channel, message, *final(self), r),
    ;

    /// Receives a message from a channel, waiting at most `timeout`.
    fn receive_message(&mut self, channel: ChannelId, timeout: Option<Duration>) -> (r: Result<
        MessageEnvelope,
        KernelError,
    >)
        ensures
            old(self).receives(channel, timeout, *final(self), r),
    ;

    /// The current time.
    fn now(&self) -> (r: Instant)
        ensures
            self.reads_time(r),
    ;

    /// Sleeps for a duration.
    fn sleep(&mut self, duration: Duration) -> (r: Result<(), KernelError>)
        ensures
            old(self).sleeps(duration, *final(self), r),
    ;

    /// Grants a capability to a task.
    fn grant_capability(&mut self, task: TaskId, capability: Cap) -> (r: Result<(), KernelError>)
        ensures
            old(self).grants(task, capability, *final(self), r),
    ;

    /// Registers a service on a channel.
    fn register_service(&mut self, service_id: ServiceId, channel: ChannelId) -> (r: Result<(), KernelError>)
        ensures
            old(self).registers(service_id, channel, *final(self), r),
    ;

    /// The channel of a registered service.
    fn lookup_service(&self, service_id: ServiceId) -> (r: Result<ChannelId, KernelError>)
        ensures
            self.looks_up(service_id, r),
    ;
}

/// The reduced kernel interface for early bootstrapping: tasks, channels,
/// messages, yielding, sleeping and capability grants.
pub trait KernelApiV0 {
    /// Creates a task with a name and its initial capabilities.
    fn create_task(&mut self, name: String, capabilities: Vec<Cap>) -> Result<TaskId, KernelError>;

    /// Creates a bidirectional channel.
    fn create_channel(&mut self) -> Result<ChannelId, KernelError>;

    /// Sends a message envelope.
    fn send(&mut self, channel: ChannelId, message: MessageEnvelope) -> Result<(), KernelError>;

    /// Receives a message envelope.
    fn recv(&mut self, channel: ChannelId) -> Result<MessageEnvelope, KernelError>;

    /// Yields to the scheduler.
    fn yield_now(&mut self) -> Result<(), KernelError>;

    /// Sleeps for a duration.
    fn sleep(&mut self, duration: Duration) -> Result<(), KernelError>;

    /// Grants a capability to a task.
    fn grant(&mut self, task: TaskId, capability: Cap) -> Result<(), KernelError>;
}

/// Carries syscall messages between a client and a server.
pub trait SyscallTransport {
    /// Sends a message.
    fn send(&mut self, message: MessageEnvelope) -> Result<(), KernelError>;

    /// Receives a message, waiting at most `timeout`.
    fn receive(&mut self, timeout: Option<Duration>) -> Result<MessageEnvelope, KernelError>;
}

/// A syscall request: an id and what is asked.
#[derive(Debug)]
pub struct SyscallRequest {
    pub request_id: MessageId,
    pub payload: SyscallRequestPayload,
}

/// What a syscall asks, one variant per kernel operation.
#[derive(Debug)]
pub enum SyscallRequestPayload {
    SpawnTask { descriptor: TaskDescriptor },
    CreateChannel,
    SendMessage { channel: ChannelId, message: MessageEnvelope },
    ReceiveMessage { channel: ChannelId, timeout: Option<Duration> },
    Now,
    Sleep { duration: Duration },
    GrantCapability { task: TaskId, capability: Cap },
    RegisterService { service_id: ServiceId, channel: ChannelId },
    LookupService { service_id: ServiceId },
}

/// A syscall response: the id of the request it answers and the answer.
#[derive(Debug)]
pub struct SyscallResponse {
    pub request_id: MessageId,
    pub payload: SyscallResponsePayload,
}

/// The answer of a syscall, one variant per kernel operation.
#[derive(Debug)]
pub enum SyscallResponsePayload {
    SpawnTask(Result<TaskHandle, SyscallError>),
    CreateChannel(Result<ChannelId, SyscallError>),
    SendMessage(Result<(), SyscallError>),
    ReceiveMessage(Result<MessageEnvelope, SyscallError>),
    Now(Result<Instant, SyscallError>),
    Sleep(Result<(), SyscallError>),
    GrantCapability(Result<(), SyscallError>),
    RegisterService(Result<(), SyscallError>),
    LookupService(Result<ChannelId, SyscallError>),
}

/// The answer is of the operation the request asked for.
pub open spec fn answers(q: SyscallRequestPayload, a: SyscallResponsePayload) -> bool {
    match q {
        SyscallRequestPayload::SpawnTask { .. } => a is SpawnTask,
        SyscallRequestPayload::CreateChannel => a is CreateChannel,
        SyscallRequestPayload::SendMessage { .. } => a is SendMessage,
        SyscallRequestPayload::ReceiveMessage { .. } => a is ReceiveMessage,
        SyscallRequestPayload::Now => a is Now,
        SyscallRequestPayload::Sleep { .. } => a is Sleep,
        SyscallRequestPayload::GrantCapability { .. } => a is GrantCapability,
        SyscallRequestPayload::RegisterService { .. } => a is RegisterService,
        SyscallRequestPayload::LookupService { .. } => a is LookupService,
    }
}

/// A syscall error that stands for a kernel error.
pub open spec fn from_kernel(e: SyscallError) -> bool {
    exists|k: KernelFault| e@ == #[trigger] fault_of_kernel(k)
}

/// Whether an optional error stands for a kernel error.
pub open spec fn err_from_kernel<T>(r: Result<T, SyscallError>) -> bool {
    match r {
        Ok(_) => true,
        Err(e) => from_kernel(e),
    }
}

/// Every error in the answer stands for a kernel error, and the time is
/// always given.
pub open spec fn errors_from_kernel(a: SyscallResponsePayload) -> bool {
    match a {
        SyscallResponsePayload::SpawnTask(r) => err_from_kernel(r),
        SyscallResponsePayload::CreateChannel(r) => err_from_kernel(r),
        SyscallResponsePayload::SendMessage(r) => err_from_kernel(r),
        SyscallResponsePayload::ReceiveMessage(r) => err_from_kernel(r),
        SyscallResponsePayload::Now(r) => r is Ok,
        SyscallResponsePayload::Sleep(r) => err_from_kernel(r),
        SyscallResponsePayload::GrantCapability(r) => err_from_kernel(r),
        SyscallResponsePayload::RegisterService(r) => err_from_kernel(r),
        SyscallResponsePayload::LookupService(r) => err_from_kernel(r),
    }
}

/// A kernel result as it crosses the boundary: its value, or its error as
/// the syscall error that stands for it.
pub open spec fn crossed<T>(k: Result<T, KernelError>, o: Result<T, SyscallError>) -> bool {
    match k {
        Ok(v) => o == Ok::<T, SyscallError>(v),
        Err(e) => o matches Err(se) && se@ == fault_of_kernel(e@),
    }
}

/// The request ran on the kernel `before`, by the kernel operation it
/// names and with its fields, leaving the kernel `after`; the answer
/// carries that operation's result.
pub open spec fn ran<K: KernelApi>(before: K, after: K, q: SyscallRequestPayload, a: SyscallResponsePayload) -> bool {
    match q {
        SyscallRequestPayload::SpawnTask { descriptor } => a matches SyscallResponsePayload::SpawnTask(o) && exists|
            k: Result<TaskHandle, KernelError>,
        | #[trigger] crossed(k, o) && before.spawns(descriptor, after, k),
        SyscallRequestPayload::CreateChannel => a matches SyscallResponsePayload::CreateChannel(o) && exists|
            k: Result<ChannelId, KernelError>,
        | #[trigger] crossed(k, o) && before.creates_channel(after, k),
        SyscallRequestPayload::SendMessage { channel, message } => a matches SyscallResponsePayload::SendMessage(o)
            && exists|k: Result<(), KernelError>| #[trigger] crossed(k, o) && before.sends(channel, message, after, k),
        SyscallRequestPayload::ReceiveMessage { channel, timeout } => a matches SyscallResponsePayload::ReceiveMessage(
            o,
        ) && exists|k: Result<MessageEnvelope, KernelError>| #[trigger] crossed(k, o) && before.receives(
            channel,
            timeout,
            after,
            k,
        ),
        SyscallRequestPayload::Now => a matches SyscallResponsePayload::Now(o) && o matches Ok(t) && before.reads_time(
            t,
        ) && after == before,
        SyscallRequestPayload::Sleep { duration } => a matches SyscallResponsePayload::Sleep(o) && exists|
            k: Result<(), KernelError>,
        | #[trigger] crossed(k, o) && before.sleeps(duration, after, k),
        SyscallRequestPayload::GrantCapability { task, capability } => a matches SyscallResponsePayload::GrantCapability(
            o,
        ) && exists|k: Result<(), KernelError>| #[trigger] crossed(k, o) && before.grants(task, capability, after, k),
        SyscallRequestPayload::RegisterService { service_id, channel } => a matches SyscallResponsePayload::RegisterService(
            o,
        ) && exists|k: Result<(), KernelError>| #[trigger] crossed(k, o) && before.registers(
            service_id,
            channel,
            after,
            k,
        ),
        SyscallRequestPayload::LookupService { service_id } => a matches SyscallResponsePayload::LookupService(o)
            && exists|k: Result<ChannelId, KernelError>| #[trigger] crossed(k, o) && before.looks_up(service_id, k)
            && after == before,
    }
}

/// A kernel result as it crosses the boundary: its value, or its error as
/// a syscall error.
fn across<T>(r: Result<T, KernelError>) -> (o: Result<T, SyscallError>)
    ensures
        crossed(r, o),
        err_from_kernel(o),
{
    match r {
        Ok(v) => Ok(v),
        Err(e) => {
            let ghost k = e@;
            let se = SyscallError::from(e);
            assert(se@ == fault_of_kernel(k));
            Err(se)
        },
    }
}

/// A receive failure that tells why a syscall message did not decode.
fn decode_failure(e: &SyscallCodecError) -> (r: KernelError)
    ensures
        r matches KernelError::ReceiveFailed(m) && m@ == "Syscall decode failed: "@ + codec_error_text(*e),
{
    let mut m = owned("Syscall decode failed: ");
    let t = e.to_string();
    push_str(&mut m, t.as_str());
    KernelError::ReceiveFailed(m)
}

/// Runs syscall requests on a kernel.
pub struct SyscallServer<K: KernelApi> {
    kernel: K,
    codec: SyscallCodec,
}

impl<K: KernelApi> SyscallServer<K> {
    /// A server for a kernel, framing with a codec.
    pub fn new(kernel: K, codec: SyscallCodec) -> (r: Self)
        ensures
            r.kernel_view() == kernel,
            r.codec_view() == codec,
    {
        SyscallServer { kernel, codec }
    }

    /// The kernel the server runs requests on.
    pub closed spec fn kernel_view(&self) -> K {
        self.kernel
    }

    /// The codec the server frames with.
    pub closed spec fn codec_view(&self) -> SyscallCodec {
        self.codec
    }

    /// The kernel.
    pub fn kernel(&self) -> (r: &K)
        ensures
            *r == self.kernel_view(),
    {
        &self.kernel
    }

    /// The kernel, to change.
    pub fn kernel_mut(&mut self) -> (r: &mut K)
        ensures
            *r == old(self).kernel_view(),
            final(self).kernel_view() == *final(r),
            final(self).codec_view() == old(self).codec_view(),
    {
        &mut self.kernel
    }

    /// Runs a request on the kernel and answers it under its own id, with
    /// the answer of the operation it asked for.
    pub fn dispatch(&mut self, request: SyscallRequest) -> (r: SyscallResponse)
        ensures
            r.request_id == request.request_id,
            ran(old(self).kernel_view(), final(self).kernel_view(), request.payload, r.payload),
            answers(request.payload, r.payload),
            errors_from_kernel(r.payload),
            final(self).codec_view() == old(self).codec_view(),
    {
        let payload = match request.payload {
            SyscallRequestPayload::SpawnTask { descriptor } => {
                let k = self.kernel.spawn_task(descriptor);
                let o = across(k);
                assert(crossed(k, o));
                SyscallResponsePayload::SpawnTask(o)
            },
            SyscallRequestPayload::CreateChannel => {
                let k = self.kernel.create_channel();
                let o = across(k);
                assert(crossed(k, o));
                SyscallResponsePayload::CreateChannel(o)
            },
            SyscallRequestPayload::SendMessage { channel, message } => {
                let k = self.kernel.send_message(channel, message);
                let o = across(k);
                assert(crossed(k, o));
                SyscallResponsePayload::SendMessage(o)
            },
            SyscallRequestPayload::ReceiveMessage { channel, timeout } => {
                let k = self.kernel.receive_message(channel, timeout);
                let o = across(k);
                assert(crossed(k, o));
                SyscallResponsePayload::ReceiveMessage(o)
            },
            SyscallRequestPayload::Now => SyscallResponsePayload::Now(Ok(self.kernel.now())),
            SyscallRequestPayload::Sleep { duration } => {
                let k = self.kernel.sleep(duration);
                let o = across(k);
                assert(crossed(k, o));
                SyscallResponsePayload::Sleep(o)
            },
            SyscallRequestPayload::GrantCapability { task, capability } => {
                let k = self.kernel.grant_capability(task, capability);
                let o = across(k);
                assert(crossed(k, o));
                SyscallResponsePayload::GrantCapability(o)
            },
            SyscallRequestPayload::RegisterService { service_id, channel } => {
                let k = self.kernel.register_service(service_id, channel);
                let o = across(k);
                assert(crossed(k, o));
                SyscallResponsePayload::RegisterService(o)
            },
            SyscallRequestPayload::LookupService { service_id } => {
                let k = self.kernel.lookup_service(service_id);
                let o = across(k);
                assert(crossed(k, o));
                SyscallResponsePayload::LookupService(o)
            },
        };
        SyscallResponse { request_id: request.request_id, payload }
    }

    /// Handles a request message whose payload decoded to `decoded` (or
    /// failed to, with the decoder's message): a message that is not a
    /// request, or does not decode, fails to be received; a request is run
    /// and answered.
    pub fn handle_request(&mut self, message: &MessageEnvelope, decoded: Result<SyscallRequest, String>) -> (r:
        Result<SyscallResponse, KernelError>)
        ensures
            message.action@ != SYSCALL_REQUEST_ACTION@ ==> (r matches Err(KernelError::ReceiveFailed(m)) && m@
                == "Syscall decode failed: "@ + "Unexpected syscall action: "@ + message.action@),
            message.action@ == SYSCALL_REQUEST_ACTION@ && message.schema_version.major != 1 ==> (r matches Err(
                KernelError::ReceiveFailed(m),
            ) && m@ == "Syscall decode failed: "@ + codec_error_text(
                SyscallCodecError::SchemaMismatch { expected: syscall_schema(), actual: message.schema_version },
            )),
            message.action@ == SYSCALL_REQUEST_ACTION@ && message.schema_version.major == 1 ==> match decoded {
                Err(m) => r matches Err(KernelError::ReceiveFailed(t)) && t@ == "Syscall decode failed: "@
                    + "Payload error: "@ + m@,
                Ok(q) => r matches Ok(resp) && resp.request_id == q.request_id && ran(
                    old(self).kernel_view(),
                    final(self).kernel_view(),
                    q.payload,
                    resp.payload,
                ) && answers(q.payload, resp.payload) && errors_from_kernel(resp.payload),
            },
            r is Err ==> final(self).kernel_view() == old(self).kernel_view(),
            final(self).codec_view() == old(self).codec_view(),
    {
        match self.codec.check_request(message) {
            Err(e) => {
                return Err(decode_failure(&e));
            },
            Ok(()) => {},
        }
        match decoded {
            Err(m) => {
                let e = SyscallCodecError::Payload(m);
                Err(decode_failure(&e))
            },
            Ok(q) => Ok(self.dispatch(q)),
        }
    }
}

/// The client's side of a round trip: a request with a fresh id.
pub fn new_request(payload: SyscallRequestPayload) -> (r: SyscallRequest)
    ensures
        r.payload == payload,
{
    SyscallRequest { request_id: MessageId::new(), payload }
}

/// The client's side of a round trip, once the answer came: a message that
/// is not a response, or does not decode, fails to be received; so does
/// a response to another request; otherwise the response.
pub fn finish_round_trip(
    codec: &SyscallCodec,
    request_id: MessageId,
    message: &MessageEnvelope,
    decoded: Result<SyscallResponse, String>,
) -> (r: Result<SyscallResponse, KernelError>)
    ensures
        message.action@ != SYSCALL_RESPONSE_ACTION@ ==> (r matches Err(KernelError::ReceiveFailed(m)) && m@
            == "Syscall decode failed: "@ + "Unexpected syscall action: "@ + message.action@),
        message.action@ == SYSCALL_RESPONSE_ACTION@ && message.schema_version.major != 1 ==> (r matches Err(
            KernelError::ReceiveFailed(m),
        ) && m@ == "Syscall decode failed: "@ + codec_error_text(
            SyscallCodecError::SchemaMismatch { expected: syscall_schema(), actual: message.schema_version },
        )),
        message.action@ == SYSCALL_RESPONSE_ACTION@ && message.schema_version.major == 1 ==> match decoded {
            Err(m) => r matches Err(KernelError::ReceiveFailed(t)) && t@ == "Syscall decode failed: "@
                + "Payload error: "@ + m@,
            Ok(resp) => if resp.request_id == request_id {
                r == Ok::<SyscallResponse, KernelError>(resp)
            } else {
                r matches Err(KernelError::ReceiveFailed(t)) && t@ == "Syscall response request_id mismatch"@
            },
        },
{
    match codec.check_response(message) {
        Err(e) => {
            return Err(decode_failure(&e));
        },
        Ok(()) => {},
    }
    match decoded {
        Err(m) => {
            let e = SyscallCodecError::Payload(m);
            Err(decode_failure(&e))
        },
        Ok(resp) => {
            if resp.request_id != request_id {
                Err(KernelError::ReceiveFailed(owned("Syscall response request_id mismatch")))
            } else {
                Ok(resp)
            }
        },
    }
}

/// A syscall result on the client's side: its value, or its error as the
/// kernel error it stands for.
fn back<T>(r: Result<T, SyscallError>) -> (o: Result<T, KernelError>)
    ensures
        match r {
            Ok(v) => o == Ok::<T, KernelError>(v),
            Err(e) => o matches Err(ke) && ke@ == kernel_of_fault(e@),
        },
{
    match r {
        Ok(v) => Ok(v),
        Err(e) => Err(e.into_kernel_error()),
    }
}

/// The failure of a response of another operation than the one asked.
fn payload_mismatch() -> (r: KernelError)
    ensures
        r matches KernelError::ReceiveFailed(m) && m@ == "Syscall response payload mismatch"@,
{
    KernelError::ReceiveFailed(owned("Syscall response payload mismatch"))
}

/// What a response says of a spawn.
pub fn extract_spawn(response: SyscallResponse) -> (r: Result<TaskHandle, KernelError>)
    ensures
        match response.payload {
            SyscallResponsePayload::SpawnTask(Ok(h)) => r == Ok::<TaskHandle, KernelError>(h),
            SyscallResponsePayload::SpawnTask(Err(e)) => r matches Err(ke) && ke@ == kernel_of_fault(e@),
            _ => r matches Err(KernelError::ReceiveFailed(m)) && m@ == "Syscall response payload mismatch"@,
        },
{
    match response.payload {
        SyscallResponsePayload::SpawnTask(res) => back(res),
        _ => Err(payload_mismatch()),
    }
}

/// What a response says of a channel's creation.
pub fn extract_create_channel(response: SyscallResponse) -> (r: Result<ChannelId, KernelError>)
    ensures
        match response.payload {
            SyscallResponsePayload::CreateChannel(Ok(c)) => r == Ok::<ChannelId, KernelError>(c),
            SyscallResponsePayload::CreateChannel(Err(e)) => r matches Err(ke) && ke@ == kernel_of_fault(e@),
            _ => r matches Err(KernelError::ReceiveFailed(m)) && m@ == "Syscall response payload mismatch"@,
        },
{
    match response.payload {
        SyscallResponsePayload::CreateChannel(res) => back(res),
        _ => Err(payload_mismatch()),
    }
}

/// What a response says of a message sent.
pub fn extract_send(response: SyscallResponse) -> (r: Result<(), KernelError>)
    ensures
        match response.payload {
            SyscallResponsePayload::SendMessage(Ok(_)) => r is Ok,
            SyscallResponsePayload::SendMessage(Err(e)) => r matches Err(ke) && ke@ == kernel_of_fault(e@),
            _ => r matches Err(KernelError::ReceiveFailed(m)) && m@ == "Syscall response payload mismatch"@,
        },
{
    match response.payload {
        SyscallResponsePayload::SendMessage(res) => back(res),
        _ => Err(payload_mismatch()),
    }
}

/// What a response says of a message received.
pub fn extract_receive(response: SyscallResponse) -> (r: Result<MessageEnvelope, KernelError>)
    ensures
        match response.payload {
            SyscallResponsePayload::ReceiveMessage(Ok(m)) => r == Ok::<MessageEnvelope, KernelError>(m),
            SyscallResponsePayload::ReceiveMessage(Err(e)) => r matches Err(ke) && ke@ == kernel_of_fault(e@),
            _ => r matches Err(KernelError::ReceiveFailed(m)) && m@ == "Syscall response payload mismatch"@,
        },
{
    match response.payload {
        SyscallResponsePayload::ReceiveMessage(res) => back(res),
        _ => Err(payload_mismatch()),
    }
}

/// What a response says of the time.
pub fn extract_now(response: SyscallResponse) -> (r: Result<Instant, KernelError>)
    ensures
        match response.payload {
            SyscallResponsePayload::Now(Ok(t)) => r == Ok::<Instant, KernelError>(t),
            SyscallResponsePayload::Now(Err(e)) => r matches Err(ke) && ke@ == kernel_of_fault(e@),
            _ => r matches Err(KernelError::ReceiveFailed(m)) && m@ == "Syscall response payload mismatch"@,
        },
{
    match response.payload {
        SyscallResponsePayload::Now(res) => back(res),
        _ => Err(payload_mismatch()),
    }
}

/// What a response says of a sleep.
pub fn extract_sleep(response: SyscallResponse) -> (r: Result<(), KernelError>)
    ensures
        match response.payload {
            SyscallResponsePayload::Sleep(Ok(_)) => r is Ok,
            SyscallResponsePayload::Sleep(Err(e)) => r matches Err(ke) && ke@ == kernel_of_fault(e@),
            _ => r matches Err(KernelError::ReceiveFailed(m)) && m@ == "Syscall response payload mismatch"@,
        },
{
    match response.payload {
        SyscallResponsePayload::Sleep(res) => back(res),
        _ => Err(payload_mismatch()),
    }
}

/// What a response says of a capability granted.
pub fn extract_grant(response: SyscallResponse) -> (r: Result<(), KernelError>)
    ensures
        match response.payload {
            SyscallResponsePayload::GrantCapability(Ok(_)) => r is Ok,
            SyscallResponsePayload::GrantCapability(Err(e)) => r matches Err(ke) && ke@ == kernel_of_fault(e@),
            _ => r matches Err(KernelError::ReceiveFailed(m)) && m@ == "Syscall response payload mismatch"@,
        },
{
    match response.payload {
        SyscallResponsePayload::GrantCapability(res) => back(res),
        _ => Err(payload_mismatch()),
    }
}

/// What a response says of a service registered.
pub fn extract_register(response: SyscallResponse) -> (r: Result<(), KernelError>)
    ensures
        match response.payload {
            SyscallResponsePayload::RegisterService(Ok(_)) => r is Ok,
            SyscallResponsePayload::RegisterService(Err(e)) => r matches Err(ke) && ke@ == kernel_of_fault(e@),
            _ => r matches Err(KernelError::ReceiveFailed(m)) && m@ == "Syscall response payload mismatch"@,
        },
{
    match response.payload {
        SyscallResponsePayload::RegisterService(res) => back(res),
        _ => Err(payload_mismatch()),
    }
}

/// What a response says of a service looked up.
pub fn extract_lookup(response: SyscallResponse) -> (r: Result<ChannelId, KernelError>)
    ensures
        match response.payload {
            SyscallResponsePayload::LookupService(Ok(c)) => r == Ok::<ChannelId, KernelError>(c),
            SyscallResponsePayload::LookupService(Err(e)) => r matches Err(ke) && ke@ == kernel_of_fault(e@),
            _ => r matches Err(KernelError::ReceiveFailed(m)) && m@ == "Syscall response payload mismatch"@,
        },
{
    match response.payload {
        SyscallResponsePayload::LookupService(res) => back(res),
        _ => Err(payload_mismatch()),
    }
}

} // verus!
