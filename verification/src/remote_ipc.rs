//! Remote IPC with explicit capability authority: a caller names the
//! capabilities it holds, the client refuses calls outside them, and the
//! server answers only calls that both it and the caller's authority allow.
//!
//! Encoding calls and responses into message payloads is the caller's.

use vstd::prelude::*;
use crate::ipc::{MessageId, SchemaVersion};
use crate::text::{owned, push_str};

verus! {

/// Action of a remote call message.
pub const REMOTE_CALL_ACTION: &'static str = "remote.capability.call";

/// Action of a remote response message.
pub const REMOTE_RESPONSE_ACTION: &'static str = "remote.capability.response";

/// Schema version of remote call and response messages.
pub fn remote_schema() -> (r: SchemaVersion)
    ensures
        r.major == 1,
        r.minor == 0,
{
    SchemaVersion::new(1, 0)
}

/// The capabilities a caller holds.
#[derive(Debug, Clone, PartialEq, Eq)]
pub struct CapabilityAuthority {
    /// Who calls.
    pub caller: String,
    /// The capabilities the caller may use.
    pub allowed_caps: Vec<u64>,
}

impl CapabilityAuthority {
    /// Whether the caller holds a capability.
    pub fn allows(&self, cap_id: u64) -> (r: bool)
        ensures
            r == self.allowed_caps@.contains(cap_id),
    {
        let mut i: usize = 0;
        while i < self.allowed_caps.len()
            invariant
                i <= self.allowed_caps@.len(),
                forall|k: int| 0 <= k < i ==> self.allowed_caps@[k] != cap_id,
            decreases self.allowed_caps@.len() - i,
        {
            if self.allowed_caps[i] == cap_id {
                assert(self.allowed_caps@[i as int] == cap_id);
                return true;
            }
            i = i + 1;
        }
        false
    }
}

/// Remote IPC errors.
#[derive(Debug, Clone, PartialEq, Eq)]
pub enum RemoteIpcError {
    /// The capability is not held.
    Unauthorized,
    /// A message could not be encoded, decoded or matched.
    Codec(String),
}

impl RemoteIpcError {
    /// The error's message.
    pub fn to_string(&self) -> (r: String)
        ensures
            *self == RemoteIpcError::Unauthorized ==> r@ == "Authorization denied"@,
            self matches RemoteIpcError::Codec(m) ==> r@ == "Codec error: "@ + m@,
    {
        match self {
            RemoteIpcError::Unauthorized => owned("Authorization denied"),
            RemoteIpcError::Codec(m) => {
                let mut s = owned("Codec error: ");
                push_str(&mut s, m.as_str());
                s
            },
        }
    }
}

/// A call of a capability on a remote service.
#[derive(Debug, Clone, PartialEq, Eq)]
pub struct RemoteCall {
    pub request_id: MessageId,
    pub cap_id: u64,
    pub action: String,
    pub payload: Vec<u8>,
    pub authority: CapabilityAuthority,
}

/// The answer to a remote call.
#[derive(Debug, PartialEq, Eq)]
pub struct RemoteResponse {
    pub request_id: MessageId,
    pub result: Result<Vec<u8>, String>,
}

/// What serves remote calls.
pub trait RemoteHandler: Sized {
    /// What running a call may do: `after` is the handler afterwards and
    /// `r` the answer. An implementation says what it does; by default
    /// nothing is said.
    open spec fn handles(&self, call: RemoteCall, after: Self, r: Result<Vec<u8>, String>) -> bool {
        true
    }

    /// Runs a call; the answer's bytes or an error message.
    fn handle(&mut self, call: RemoteCall) -> (r: Result<Vec<u8>, String>)
        ensures
            old(self).handles(call, *final(self), r),
    ;
}

/// Checks a message's action: a codec error when it is not the expected
/// one.
pub fn check_action(action: &str, expected: &str) -> (r: Result<(), RemoteIpcError>)
    ensures
        action@ == expected@ ==> r is Ok,
        action@ != expected@ ==> (r matches Err(RemoteIpcError::Codec(m)) && m@ == "unexpected action"@),
{
    let a = crate::text::chars_of(action);
    if crate::text::eq_str(&a, expected) {
        Ok(())
    } else {
        Err(RemoteIpcError::Codec(owned("unexpected action")))
    }
}

/// The client side: it holds an authority and calls only within it.
pub struct RemoteIpcClient {
    authority: CapabilityAuthority,
}

impl RemoteIpcClient {
    /// The client's authority.
    pub closed spec fn authority_view(&self) -> CapabilityAuthority {
        self.authority
    }

    /// A client with an authority.
    pub fn new(authority: CapabilityAuthority) -> (r: Self)
        ensures
            r.authority_view() == authority,
    {
        RemoteIpcClient { authority }
    }

    /// The call to send for a capability, under a fresh request id;
    /// refused when the authority does not hold the capability.
    pub fn prepare_call(&self, cap_id: u64, action: &str, payload: Vec<u8>) -> (r: Result<RemoteCall, RemoteIpcError>)
        ensures
            !self.authority_view().allowed_caps@.contains(cap_id) ==> r == Err::<
                RemoteCall,
                RemoteIpcError,
            >(RemoteIpcError::Unauthorized),
            self.authority_view().allowed_caps@.contains(cap_id) ==> (r matches Ok(call) && call.cap_id == cap_id
                && call.action@ == action@ && call.payload@ == payload@ && call.authority.caller@
                == self.authority_view().caller@ && call.authority.allowed_caps@
                == self.authority_view().allowed_caps@),
    {
        if !self.authority.allows(cap_id) {
            return Err(RemoteIpcError::Unauthorized);
        }
        Ok(
            RemoteCall {
                request_id: MessageId::new(),
                cap_id,
                action: owned(action),
                payload,
                authority: CapabilityAuthority {
                    caller: owned(self.authority.caller.as_str()),
                    allowed_caps: copy_caps(&self.authority.allowed_caps),
                },
            },
        )
    }

    /// The result of a call from its response: a codec error when the
    /// response answers another request, the handler's error as a codec
    /// error, or the answer's bytes.
    pub fn finish_call(call: &RemoteCall, response: RemoteResponse) -> (r: Result<Vec<u8>, RemoteIpcError>)
        ensures
            response.request_id != call.request_id ==> (r matches Err(RemoteIpcError::Codec(m)) && m@
                == "request_id mismatch"@),
            response.request_id == call.request_id ==> match response.result {
                Ok(bytes) => r matches Ok(b) && b@ == bytes@,
                Err(e) => r matches Err(RemoteIpcError::Codec(m)) && m@ == e@,
            },
    {
        if response.request_id != call.request_id {
            return Err(RemoteIpcError::Codec(owned("request_id mismatch")));
        }
        match response.result {
            Ok(bytes) => Ok(bytes),
            Err(e) => Err(RemoteIpcError::Codec(e)),
        }
    }
}

/// A copy of capability ids.
fn copy_caps(v: &Vec<u64>) -> (r: Vec<u64>)
    ensures
        r@ == v@,
{
    let mut out: Vec<u64> = Vec::new();
    let mut i: usize = 0;
    while i < v.len()
        invariant
            i <= v@.len(),
            out@ == v@.take(i as int),
        decreases v@.len() - i,
    {
        out.push(v[i]);
        assert(out@ =~= v@.take(i + 1));
        i = i + 1;
    }
    assert(v@.take(v@.len() as int) =~= v@);
    out
}

/// The server side: it serves the capabilities it allows, to callers
/// whose authority holds them.
pub struct RemoteIpcServer<H: RemoteHandler> {
    handler: H,
    allowed_caps: Vec<u64>,
}

impl<H: RemoteHandler> RemoteIpcServer<H> {
    /// The capabilities the server allows.
    pub closed spec fn allowed_view(&self) -> Seq<u64> {
        self.allowed_caps@
    }

    /// The handler that runs admitted calls.
    pub closed spec fn handler_view(&self) -> H {
        self.handler
    }

    /// A server for a handler and the capabilities it allows.
    pub fn new(handler: H, allowed_caps: Vec<u64>) -> (r: Self)
        ensures
            r.allowed_view() == allowed_caps@,
            r.handler_view() == handler,
    {
        RemoteIpcServer { handler, allowed_caps }
    }

    /// Whether the server serves a call: it allows the capability and the
    /// caller's authority holds it.
    pub fn admits(&self, call: &RemoteCall) -> (r: bool)
        ensures
            r == (self.allowed_view().contains(call.cap_id) && call.authority.allowed_caps@.contains(call.cap_id)),
    {
        let mut held = false;
        let mut i: usize = 0;
        while i < self.allowed_caps.len()
            invariant
                i <= self.allowed_caps@.len(),
                held == exists|k: int| 0 <= k < i && self.allowed_caps@[k] == call.cap_id,
            decreases self.allowed_caps@.len() - i,
        {
            if self.allowed_caps[i] == call.cap_id {
                held = true;
            }
            i = i + 1;
        }
        held && call.authority.allows(call.cap_id)
    }

    /// Answers a decoded call under its own request id, so that the
    /// caller takes the answer: a refused call is answered `unauthorized`;
    /// an admitted call is run by the handler.
    pub fn handle_call(&mut self, call: RemoteCall) -> (r: RemoteResponse)
        ensures
            r.request_id == call.request_id,
            !(old(self).allowed_view().contains(call.cap_id) && call.authority.allowed_caps@.contains(call.cap_id))
                ==> (r.result matches Err(m) && m@ == "unauthorized"@ && final(self).handler_view() == old(
                self,
            ).handler_view()),
            old(self).allowed_view().contains(call.cap_id) && call.authority.allowed_caps@.contains(call.cap_id)
                ==> old(self).handler_view().handles(call, final(self).handler_view(), r.result),
            final(self).allowed_view() == old(self).allowed_view(),
    {
        if !self.admits(&call) {
            return RemoteResponse { request_id: call.request_id, result: Err(owned("unauthorized")) };
        }
        let request_id = call.request_id;
        let result = self.handler.handle(call);
        RemoteResponse { request_id, result }
    }
}

} // verus!
