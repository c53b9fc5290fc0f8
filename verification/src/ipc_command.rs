//! Typed command requests and responses, with a stable schema version and
//! structured errors, framed into message envelopes.

use vstd::prelude::*;
use crate::ipc::{MessageEnvelope, MessageId, MessagePayload, SchemaVersion, ServiceId};

verus! {

/// Major version of the command message schema.
pub const COMMAND_SCHEMA_MAJOR: u32 = 1;

/// Minor version of the command message schema.
pub const COMMAND_SCHEMA_MINOR: u32 = 0;

/// Envelope action of command requests.
pub const COMMAND_REQUEST_ACTION: &'static str = "console.command.request";

/// Envelope action of command responses.
pub const COMMAND_RESPONSE_ACTION: &'static str = "console.command.response";

/// The schema version of command messages (v1.0).
pub open spec fn command_schema() -> SchemaVersion {
    SchemaVersion { major: COMMAND_SCHEMA_MAJOR, minor: COMMAND_SCHEMA_MINOR }
}

/// The schema version of command messages (v1.0).
pub fn command_schema_version() -> (r: SchemaVersion)
    ensures
        r == command_schema(),
{
    SchemaVersion::new(COMMAND_SCHEMA_MAJOR, COMMAND_SCHEMA_MINOR)
}

/// A command request.
#[derive(Debug, Clone, PartialEq, Eq)]
pub struct CommandRequest {
    pub version: SchemaVersion,
    pub command: String,
}

impl CommandRequest {
    /// A request for a command, in the current schema version.
    pub fn new(command: &str) -> (r: Self)
        ensures
            r.version == command_schema(),
            r.command@ == command@,
    {
        CommandRequest { version: command_schema_version(), command: command.to_owned() }
    }

    /// The envelope of this request to a service, around its serialized
    /// form.
    pub fn envelope(&self, destination: ServiceId, payload: MessagePayload) -> (r: MessageEnvelope)
        ensures
            r.destination == destination,
            r.action@ == COMMAND_REQUEST_ACTION@,
            r.schema_version == self.version,
            r.source is None,
            r.correlation_id is None,
            r.payload@ == payload@,
    {
        MessageEnvelope::new(destination, COMMAND_REQUEST_ACTION.to_owned(), self.version, payload)
    }
}

/// Structured error codes of commands.
#[derive(Debug, Clone, Copy, PartialEq, Eq, Structural)]
pub enum CommandErrorCode {
    InvalidCommand,
    InvalidArguments,
    ServiceUnavailable,
    Unauthorized,
    Internal,
}

/// A structured command error.
#[derive(Debug, Clone, PartialEq, Eq)]
pub struct CommandError {
    pub code: CommandErrorCode,
    pub message: String,
    pub details: Option<String>,
}

impl CommandError {
    /// An error with a code and a message, without details.
    pub fn new(code: CommandErrorCode, message: &str) -> (r: Self)
        ensures
            r.code == code,
            r.message@ == message@,
            r.details is None,
    {
        CommandError { code, message: message.to_owned(), details: None }
    }

    /// Adds details to the error.
    pub fn with_details(self, details: &str) -> (r: Self)
        ensures
            r.code == self.code,
            r.message@ == self.message@,
            r.details matches Some(d) && d@ == details@,
    {
        let mut e = self;
        e.details = Some(details.to_owned());
        e
    }
}

/// Whether a command succeeded.
#[derive(Debug, Clone, PartialEq, Eq)]
pub enum CommandStatus {
    Success,
    Error(CommandError),
}

/// A structured command response.
#[derive(Debug, Clone, PartialEq, Eq)]
pub struct CommandResponse {
    pub version: SchemaVersion,
    pub status: CommandStatus,
    pub output: Option<String>,
}

impl CommandResponse {
    /// A successful response with output.
    pub fn ok(output: &str) -> (r: Self)
        ensures
            r.version == command_schema(),
            r.status == CommandStatus::Success,
            r.output matches Some(o) && o@ == output@,
    {
        CommandResponse {
            version: command_schema_version(),
            status: CommandStatus::Success,
            output: Some(output.to_owned()),
        }
    }

    /// A successful response without output.
    pub fn ok_empty() -> (r: Self)
        ensures
            r.version == command_schema(),
            r.status == CommandStatus::Success,
            r.output is None,
    {
        CommandResponse { version: command_schema_version(), status: CommandStatus::Success, output: None }
    }

    /// A failed response.
    pub fn error(error: CommandError) -> (r: Self)
        ensures
            r.version == command_schema(),
            r.status == CommandStatus::Error(error),
            r.output is None,
    {
        CommandResponse {
            version: command_schema_version(),
            status: CommandStatus::Error(error),
            output: None,
        }
    }

    /// The envelope of this response to a service, correlated to the
    /// request it answers, around its serialized form.
    pub fn envelope(&self, destination: ServiceId, correlation: MessageId, payload: MessagePayload) -> (r:
        MessageEnvelope)
        ensures
            r.destination == destination,
            r.action@ == COMMAND_RESPONSE_ACTION@,
            r.schema_version == self.version,
            r.source is None,
            r.correlation_id == Some(correlation),
            r.payload@ == payload@,
    {
        MessageEnvelope::new(destination, COMMAND_RESPONSE_ACTION.to_owned(), self.version, payload)
            .with_correlation(correlation)
    }
}

} // verus!
