//! IPC message envelopes and schema versioning: which payload versions a
//! service accepts, and the envelope that routes a payload.

use vstd::prelude::*;
use crate::identity::{is_v4, random_uuid_value, uuid_hyphenated, uuid_text, TaskId};
use crate::text::{decimal, push_decimal, push_str};

verus! {

/// Identifier of a service.
#[derive(Debug, Clone, Copy, PartialEq, Eq, Hash, Structural)]
pub struct ServiceId(u128);

impl View for ServiceId {
    type V = u128;

    closed spec fn view(&self) -> u128 {
        self.0
    }
}

impl ServiceId {
    /// Creates a new random service id.
    pub fn new() -> (r: Self)
        ensures
            is_v4(r@),
    {
        ServiceId(random_uuid_value())
    }

    /// Creates a service id from a 128-bit UUID value.
    pub fn from_uuid(value: u128) -> (r: Self)
        ensures
            r@ == value,
    {
        ServiceId(value)
    }

    /// Returns the 128-bit UUID value of this id.
    pub fn as_uuid(&self) -> (r: u128)
        ensures
            r == self@,
    {
        self.0
    }

    /// The hyphenated UUID of this id.
    pub fn to_string(&self) -> (r: String)
        ensures
            r@ == uuid_hyphenated(self@),
    {
        uuid_text(self.0)
    }
}

/// Unique identifier of a message.
#[derive(Debug, Clone, Copy, PartialEq, Eq, Hash, Structural)]
pub struct MessageId(u128);

impl View for MessageId {
    type V = u128;

    closed spec fn view(&self) -> u128 {
        self.0
    }
}

impl MessageId {
    /// Creates a new random message id.
    pub fn new() -> (r: Self)
        ensures
            is_v4(r@),
    {
        MessageId(random_uuid_value())
    }

    /// Creates a message id from a 128-bit UUID value.
    pub fn from_uuid(value: u128) -> (r: Self)
        ensures
            r@ == value,
    {
        MessageId(value)
    }

    /// Returns the 128-bit UUID value of this id.
    pub fn as_uuid(&self) -> (r: u128)
        ensures
            r == self@,
    {
        self.0
    }

    /// Human-readable rendering: `Msg(` and the hyphenated UUID and `)`.
    pub fn to_string(&self) -> (r: String)
        ensures
            r@ == "Msg("@ + uuid_hyphenated(self@) + ")"@,
    {
        let mut s = String::new();
        push_str(&mut s, "Msg(");
        let t = uuid_text(self.0);
        push_str(&mut s, t.as_str());
        push_str(&mut s, ")");
        s
    }
}

impl Default for MessageId {
    /// A new random message id.
    fn default() -> (r: Self) {
        Self::new()
    }
}

/// Schema version of a message payload: major versions break
/// compatibility, minor versions add to it.
#[derive(Debug, Clone, Copy, PartialEq, Eq, Structural)]
pub struct SchemaVersion {
    pub major: u32,
    pub minor: u32,
}

/// `a` precedes `b`: by major version, then by minor version.
pub open spec fn version_precedes(a: SchemaVersion, b: SchemaVersion) -> bool {
    a.major < b.major || (a.major == b.major && a.minor < b.minor)
}

/// The rendering of a schema version: `v<major>.<minor>`.
pub open spec fn version_text(v: SchemaVersion) -> Seq<char> {
    "v"@ + decimal(v.major as nat) + "."@ + decimal(v.minor as nat)
}

impl SchemaVersion {
    /// A schema version.
    pub fn new(major: u32, minor: u32) -> (r: Self)
        ensures
            r == (SchemaVersion { major, minor }),
    {
        SchemaVersion { major, minor }
    }

    /// Versions with the same major version are compatible.
    pub fn is_compatible_with(&self, other: &SchemaVersion) -> (r: bool)
        ensures
            r == (self.major == other.major),
    {
        self.major == other.major
    }

    /// This version precedes the other.
    pub fn is_older_than(&self, other: &SchemaVersion) -> (r: bool)
        ensures
            r == version_precedes(*self, *other),
    {
        self.major < other.major || (self.major == other.major && self.minor < other.minor)
    }

    /// The other version precedes this one.
    pub fn is_newer_than(&self, other: &SchemaVersion) -> (r: bool)
        ensures
            r == version_precedes(*other, *self),
    {
        self.major > other.major || (self.major == other.major && self.minor > other.minor)
    }

    /// The rendering of the version: `v<major>.<minor>`.
    pub fn to_string(&self) -> (r: String)
        ensures
            r@ == version_text(*self),
    {
        let mut s = String::new();
        push_str(&mut s, "v");
        push_decimal(&mut s, self.major as u64);
        push_str(&mut s, ".");
        push_decimal(&mut s, self.minor as u64);
        s
    }
}

/// Of two versions, exactly one precedes the other, or they are equal.
pub proof fn lemma_version_order_total(a: SchemaVersion, b: SchemaVersion)
    ensures
        a == b || version_precedes(a, b) || version_precedes(b, a),
        !(version_precedes(a, b) && version_precedes(b, a)),
        !version_precedes(a, a),
{
}

/// Whether a service accepts an incoming schema version.
#[derive(Debug, Clone, Copy, PartialEq, Eq, Structural)]
pub enum Compatibility {
    /// The version is accepted.
    Compatible,
    /// The sender's major version is older than the oldest accepted one.
    UpgradeRequired,
    /// The sender's major version is newer than the service's.
    Unsupported,
}

/// The schema versions a service accepts: major versions from a minimum up
/// to that of the version it implements.
#[derive(Debug, Clone, Copy, PartialEq, Eq, Structural)]
pub struct VersionPolicy {
    current: SchemaVersion,
    min_major: u32,
}

/// How a policy with a current version and minimum major version answers
/// an incoming version.
pub open spec fn compatibility_of(current: SchemaVersion, min_major: u32, incoming: SchemaVersion) -> Compatibility {
    if incoming.major > current.major {
        Compatibility::Unsupported
    } else if incoming.major < min_major {
        Compatibility::UpgradeRequired
    } else {
        Compatibility::Compatible
    }
}

impl VersionPolicy {
    /// The version the service implements.
    pub closed spec fn current_spec(&self) -> SchemaVersion {
        self.current
    }

    /// The oldest major version the service accepts.
    pub closed spec fn min_major_spec(&self) -> u32 {
        self.min_major
    }

    /// A policy that accepts the major version of the current version only.
    pub fn current(major: u32, minor: u32) -> (r: Self)
        ensures
            r.current_spec() == (SchemaVersion { major, minor }),
            r.min_major_spec() == major,
    {
        VersionPolicy { current: SchemaVersion::new(major, minor), min_major: major }
    }

    /// Sets the oldest accepted major version.
    pub fn with_min_major(self, min_major: u32) -> (r: Self)
        ensures
            r.current_spec() == self.current_spec(),
            r.min_major_spec() == min_major,
    {
        let mut p = self;
        p.min_major = min_major;
        p
    }

    /// Whether an incoming version is accepted: newer major versions are
    /// unsupported, major versions below the minimum need an upgrade.
    pub fn check_compatibility(&self, incoming: &SchemaVersion) -> (r: Compatibility)
        ensures
            r == compatibility_of(self.current_spec(), self.min_major_spec(), *incoming),
    {
        if incoming.major > self.current.major {
            return Compatibility::Unsupported;
        }
        if incoming.major < self.min_major {
            return Compatibility::UpgradeRequired;
        }
        Compatibility::Compatible
    }

    /// The version the service implements.
    pub fn current_version(&self) -> (r: SchemaVersion)
        ensures
            r == self.current_spec(),
    {
        self.current
    }

    /// The oldest accepted version: the minimum major version, minor 0.
    pub fn min_version(&self) -> (r: SchemaVersion)
        ensures
            r == (SchemaVersion { major: self.min_major_spec(), minor: 0 }),
    {
        SchemaVersion::new(self.min_major, 0)
    }
}

/// A policy accepts exactly the versions whose major version lies between
/// its minimum and its current major version; the minor version never
/// matters.
pub proof fn lemma_compatibility_window(p: VersionPolicy, v: SchemaVersion, minor: u32)
    ensures
        (compatibility_of(p.current_spec(), p.min_major_spec(), v) == Compatibility::Compatible)
            <==> (p.min_major_spec() <= v.major <= p.current_spec().major),
        compatibility_of(p.current_spec(), p.min_major_spec(), v) == compatibility_of(
            p.current_spec(),
            p.min_major_spec(),
            SchemaVersion { major: v.major, minor },
        ),
{
}

/// A schema version a service does not accept.
#[derive(Debug, Clone, Copy, PartialEq, Eq)]
pub enum SchemaMismatchError {
    /// The sender's version is too old and must be upgraded.
    UpgradeRequired { service: ServiceId, expected_min: SchemaVersion, received: SchemaVersion },
    /// The version is outside the supported range.
    Unsupported {
        service: ServiceId,
        supported_range: (SchemaVersion, SchemaVersion),
        received: SchemaVersion,
    },
}

/// The message of a schema mismatch.
pub open spec fn mismatch_text(e: SchemaMismatchError) -> Seq<char> {
    match e {
        SchemaMismatchError::UpgradeRequired { service, expected_min, received } =>
            "Schema version too old for service "@ + uuid_hyphenated(service@) + ": received "@
                + version_text(received) + ", expected at least "@ + version_text(expected_min)
                + ". Please upgrade sender."@,
        SchemaMismatchError::Unsupported { service, supported_range, received } =>
            "Schema version not supported by service "@ + uuid_hyphenated(service@)
                + ": received "@ + version_text(received) + ", supported range "@ + version_text(
                supported_range.0,
            ) + "-"@ + version_text(supported_range.1),
    }
}

impl SchemaMismatchError {
    /// An upgrade-required error.
    pub fn upgrade_required(service: ServiceId, expected_min: SchemaVersion, received: SchemaVersion) -> (r: Self)
        ensures
            r == (SchemaMismatchError::UpgradeRequired { service, expected_min, received }),
    {
        SchemaMismatchError::UpgradeRequired { service, expected_min, received }
    }

    /// An unsupported-version error.
    pub fn unsupported(
        service: ServiceId,
        supported_range: (SchemaVersion, SchemaVersion),
        received: SchemaVersion,
    ) -> (r: Self)
        ensures
            r == (SchemaMismatchError::Unsupported { service, supported_range, received }),
    {
        SchemaMismatchError::Unsupported { service, supported_range, received }
    }

    /// The error's message.
    pub fn to_string(&self) -> (r: String)
        ensures
            r@ == mismatch_text(*self),
    {
        let mut s = String::new();
        match self {
            SchemaMismatchError::UpgradeRequired { service, expected_min, received } => {
                push_str(&mut s, "Schema version too old for service ");
                push_str(&mut s, service.to_string().as_str());
                push_str(&mut s, ": received ");
                push_str(&mut s, received.to_string().as_str());
                push_str(&mut s, ", expected at least ");
                push_str(&mut s, expected_min.to_string().as_str());
                push_str(&mut s, ". Please upgrade sender.");
            },
            SchemaMismatchError::Unsupported { service, supported_range, received } => {
                push_str(&mut s, "Schema version not supported by service ");
                push_str(&mut s, service.to_string().as_str());
                push_str(&mut s, ": received ");
                push_str(&mut s, received.to_string().as_str());
                push_str(&mut s, ", supported range ");
                push_str(&mut s, supported_range.0.to_string().as_str());
                push_str(&mut s, "-");
                push_str(&mut s, supported_range.1.to_string().as_str());
            },
        }
        s
    }
}

/// A serialized message payload (JSON bytes).
#[derive(Debug, Clone)]
pub struct MessagePayload {
    data: Vec<u8>,
}

impl View for MessagePayload {
    type V = Seq<u8>;

    closed spec fn view(&self) -> Seq<u8> {
        self.data@
    }
}

impl MessagePayload {
    /// A payload holding serialized bytes.
    pub fn from_bytes(data: Vec<u8>) -> (r: Self)
        ensures
            r@ == data@,
    {
        MessagePayload { data }
    }

    /// The serialized bytes.
    pub fn as_bytes(&self) -> (r: &[u8])
        ensures
            r@ == self@,
    {
        self.data.as_slice()
    }
}

/// The envelope of a message: routing and metadata around a serialized
/// payload.
#[derive(Debug, Clone)]
pub struct MessageEnvelope {
    pub id: MessageId,
    pub destination: ServiceId,
    pub source: Option<TaskId>,
    pub action: String,
    pub schema_version: SchemaVersion,
    pub correlation_id: Option<MessageId>,
    pub payload: MessagePayload,
}

impl MessageEnvelope {
    /// An envelope with a new random id, no source and no correlation.
    pub fn new(
        destination: ServiceId,
        action: String,
        schema_version: SchemaVersion,
        payload: MessagePayload,
    ) -> (r: Self)
        ensures
            r.destination == destination,
            r.source is None,
            r.action@ == action@,
            r.schema_version == schema_version,
            r.correlation_id is None,
            r.payload@ == payload@,
    {
        MessageEnvelope {
            id: MessageId::new(),
            destination,
            source: None,
            action,
            schema_version,
            correlation_id: None,
            payload,
        }
    }

    /// Sets the source task.
    pub fn with_source(self, source: TaskId) -> (r: Self)
        ensures
            r.source == Some(source),
            r.id == self.id,
            r.destination == self.destination,
            r.action@ == self.action@,
            r.schema_version == self.schema_version,
            r.correlation_id == self.correlation_id,
            r.payload@ == self.payload@,
    {
        let mut e = self;
        e.source = Some(source);
        e
    }

    /// Sets the correlation id (of the message this one answers).
    pub fn with_correlation(self, correlation_id: MessageId) -> (r: Self)
        ensures
            r.correlation_id == Some(correlation_id),
            r.id == self.id,
            r.destination == self.destination,
            r.source == self.source,
            r.action@ == self.action@,
            r.schema_version == self.schema_version,
            r.payload@ == self.payload@,
    {
        let mut e = self;
        e.correlation_id = Some(correlation_id);
        e
    }

    /// Whether this message answers another.
    pub fn is_response(&self) -> (r: bool)
        ensures
            r == self.correlation_id is Some,
    {
        self.correlation_id.is_some()
    }
}

/// A message with its envelope and its typed payload.
#[derive(Debug)]
pub struct Message<T> {
    pub envelope: MessageEnvelope,
    pub payload: T,
}

impl<T> Message<T> {
    /// The envelope of the message.
    pub fn into_envelope(self) -> (r: MessageEnvelope)
        ensures
            r == self.envelope,
    {
        self.envelope
    }
}

} // verus!
