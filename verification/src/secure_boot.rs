//! Measured boot: components are measured (SHA-256, in hexadecimal) into a
//! log, and a boot policy names the digest each required component must
//! have. Attestation reports the log and a digest of the policy.

use vstd::prelude::*;
use vstd::utf8::encode_utf8;
use crate::digest::{hex_lower, push_bytes, sha256, sha256_hex};
use crate::text::push_str;
use crate::text_map::{entries_view, entry_value, sorted_insert, TextMap};

verus! {

/// The measured digest of one component.
#[derive(Debug, Clone, PartialEq, Eq)]
pub struct ComponentMeasurement {
    pub name: String,
    pub digest: String,
}

impl View for ComponentMeasurement {
    type V = (Seq<char>, Seq<char>);

    open spec fn view(&self) -> (Seq<char>, Seq<char>) {
        (self.name@, self.digest@)
    }
}

/// The plain values of measurements, in order.
pub open spec fn measurements_view(c: Seq<ComponentMeasurement>) -> Seq<(Seq<char>, Seq<char>)> {
    c.map_values(|m: ComponentMeasurement| m@)
}

/// The measurements taken so far, in the order they were taken.
#[derive(Debug, Clone)]
pub struct MeasurementLog {
    pub components: Vec<ComponentMeasurement>,
}

impl View for MeasurementLog {
    type V = Seq<(Seq<char>, Seq<char>)>;

    open spec fn view(&self) -> Seq<(Seq<char>, Seq<char>)> {
        measurements_view(self.components@)
    }
}

impl MeasurementLog {
    /// Appends a measurement.
    pub fn record(&mut self, name: &str, digest: String)
        ensures
            final(self)@ == old(self)@.push((name@, digest@)),
    {
        let m = ComponentMeasurement { name: name.to_owned(), digest };
        self.components.push(m);
        assert(measurements_view(self.components@) =~= measurements_view(old(self).components@).push(m@));
    }

    /// The digest of the first measurement of a component, if any.
    pub fn first_digest(&self, name: &String) -> (r: Option<&String>)
        ensures
            match entry_value(self@, name@) {
                Some(d) => r matches Some(x) && x@ == d,
                None => r is None,
            },
    {
        let ghost log = self@;
        let mut i: usize = 0;
        assert(log.skip(0) == log);
        while i < self.components.len()
            invariant
                log == self@,
                i <= log.len(),
                entry_value(log, name@) == entry_value(log.skip(i as int), name@),
            decreases self.components.len() - i,
        {
            assert(log.skip(i as int)[0] == log[i as int]);
            assert(log.skip(i as int).drop_first() == log.skip(i + 1));
            if self.components[i].name == *name {
                return Some(&self.components[i].digest);
            }
            i = i + 1;
        }
        None
    }

    /// A copy of the log.
    pub fn duplicate(&self) -> (r: Self)
        ensures
            r@ == self@,
    {
        let mut components: Vec<ComponentMeasurement> = Vec::new();
        let mut i: usize = 0;
        while i < self.components.len()
            invariant
                i <= self.components@.len(),
                measurements_view(components@) == self@.take(i as int),
            decreases self.components.len() - i,
        {
            let m = ComponentMeasurement {
                name: self.components[i].name.clone(),
                digest: self.components[i].digest.clone(),
            };
            let ghost prev = components@;
            components.push(m);
            assert(measurements_view(components@) =~= measurements_view(prev).push(m@));
            assert(self@.take(i + 1) =~= self@.take(i as int).push(m@));
            i = i + 1;
        }
        assert(self@.take(self@.len() as int) == self@);
        MeasurementLog { components }
    }
}

impl Default for MeasurementLog {
    fn default() -> (r: Self)
        ensures
            r@ == Seq::<(Seq<char>, Seq<char>)>::empty(),
    {
        let r = MeasurementLog { components: Vec::new() };
        assert(r@ =~= Seq::<(Seq<char>, Seq<char>)>::empty());
        r
    }
}

/// The components a boot requires, each with its expected digest, in name
/// order.
#[derive(Debug)]
pub struct BootPolicy {
    required: TextMap,
}

impl View for BootPolicy {
    type V = Seq<(Seq<char>, Seq<char>)>;

    closed spec fn view(&self) -> Seq<(Seq<char>, Seq<char>)> {
        self.required@
    }
}

impl BootPolicy {
    /// A policy that requires nothing.
    pub fn new() -> (r: Self)
        ensures
            r@ == Seq::<(Seq<char>, Seq<char>)>::empty(),
    {
        BootPolicy { required: TextMap::new() }
    }

    /// Requires a component to have a digest (replacing what was required
    /// of it before).
    pub fn require(self, name: &str, digest: &str) -> (r: Self)
        ensures
            r@ == sorted_insert(self@, name@, digest@),
    {
        let mut required = self.required;
        required.insert(name, digest);
        BootPolicy { required }
    }

    /// The required components with their digests, in name order.
    pub fn entries(&self) -> (r: &Vec<(String, String)>)
        ensures
            entries_view(r@) == self@,
    {
        self.required.entries()
    }
}

/// What an attestation reports: the measurement log and the digest of the
/// policy it was checked against.
#[derive(Debug, Clone)]
pub struct AttestationReport {
    pub measurements: MeasurementLog,
    pub policy_digest: String,
}

/// Why a measurement log fails a policy.
#[derive(Debug)]
pub enum BootError {
    /// A required component was never measured.
    MissingComponent(String),
    /// A component was measured with another digest than the required one.
    DigestMismatch { name: String, expected: String, actual: String },
}

/// Why a measurement log fails a policy, as plain values.
pub enum BootFault {
    MissingComponent(Seq<char>),
    DigestMismatch { name: Seq<char>, expected: Seq<char>, actual: Seq<char> },
}

impl View for BootError {
    type V = BootFault;

    open spec fn view(&self) -> BootFault {
        match self {
            BootError::MissingComponent(n) => BootFault::MissingComponent(n@),
            BootError::DigestMismatch { name, expected, actual } => BootFault::DigestMismatch {
                name: name@,
                expected: expected@,
                actual: actual@,
            },
        }
    }
}

/// The message of a boot error.
pub open spec fn boot_fault_text(f: BootFault) -> Seq<char> {
    match f {
        BootFault::MissingComponent(n) => "Policy missing required component: "@ + n,
        BootFault::DigestMismatch { name, expected, actual } => "Digest mismatch for "@ + name
            + ": expected "@ + expected + ", got "@ + actual,
    }
}

impl BootError {
    /// The error's message.
    pub fn to_string(&self) -> (r: String)
        ensures
            r@ == boot_fault_text(self@),
    {
        let mut s = String::new();
        match self {
            BootError::MissingComponent(n) => {
                push_str(&mut s, "Policy missing required component: ");
                push_str(&mut s, n.as_str());
            },
            BootError::DigestMismatch { name, expected, actual } => {
                push_str(&mut s, "Digest mismatch for ");
                push_str(&mut s, name.as_str());
                push_str(&mut s, ": expected ");
                push_str(&mut s, expected.as_str());
                push_str(&mut s, ", got ");
                push_str(&mut s, actual.as_str());
            },
        }
        s
    }
}

/// Checks required components in name order against a measurement log: the
/// first component never measured, or the first whose first measurement
/// has another digest, fails the check.
pub open spec fn policy_check(
    required: Seq<(Seq<char>, Seq<char>)>,
    log: Seq<(Seq<char>, Seq<char>)>,
) -> Result<(), BootFault>
    decreases required.len(),
{
    if required.len() == 0 {
        Ok(())
    } else {
        match policy_check(required.drop_last(), log) {
            Err(f) => Err(f),
            Ok(()) => {
                let name = required.last().0;
                let expected = required.last().1;
                match entry_value(log, name) {
                    None => Err(BootFault::MissingComponent(name)),
                    Some(actual) => if actual == expected {
                        Ok(())
                    } else {
                        Err(BootFault::DigestMismatch { name, expected, actual })
                    },
                }
            },
        }
    }
}

/// Once the check of some required components fails, later ones change
/// nothing.
proof fn lemma_policy_check_stop(
    required: Seq<(Seq<char>, Seq<char>)>,
    log: Seq<(Seq<char>, Seq<char>)>,
    k: int,
)
    requires
        0 <= k <= required.len(),
        policy_check(required.take(k), log) is Err,
    ensures
        policy_check(required, log) == policy_check(required.take(k), log),
    decreases required.len(),
{
    if k < required.len() {
        assert(required.drop_last().take(k) == required.take(k));
        lemma_policy_check_stop(required.drop_last(), log, k);
    } else {
        assert(required.take(k) == required);
    }
}

/// The bytes a policy is digested from: `name=digest;` for each required
/// component, in name order.
pub open spec fn policy_bytes(required: Seq<(Seq<char>, Seq<char>)>) -> Seq<u8>
    decreases required.len(),
{
    if required.len() == 0 {
        Seq::empty()
    } else {
        policy_bytes(required.drop_last()) + encode_utf8(required.last().0) + seq![61u8]
            + encode_utf8(required.last().1) + seq![59u8]
    }
}

/// Measures components and checks the measurements against boot policies.
pub struct BootVerifier {
    log: MeasurementLog,
}

impl View for BootVerifier {
    type V = Seq<(Seq<char>, Seq<char>)>;

    /// The measurements taken so far.
    closed spec fn view(&self) -> Seq<(Seq<char>, Seq<char>)> {
        self.log@
    }
}

impl BootVerifier {
    /// A verifier with an empty log.
    pub fn new() -> (r: Self)
        ensures
            r@ == Seq::<(Seq<char>, Seq<char>)>::empty(),
    {
        BootVerifier { log: MeasurementLog::default() }
    }

    /// Measures a component: logs the hexadecimal SHA-256 digest of its
    /// bytes under its name.
    pub fn measure_component(&mut self, name: &str, bytes: &[u8])
        ensures
            final(self)@ == old(self)@.push((name@, hex_lower(sha256(bytes@)))),
    {
        let digest = hash_bytes(bytes);
        self.log.record(name, digest);
    }

    /// Checks the log against a policy.
    pub fn verify_policy(&self, policy: &BootPolicy) -> (r: Result<(), BootError>)
        ensures
            match policy_check(policy@, self@) {
                Ok(()) => r is Ok,
                Err(f) => r matches Err(e) && e@ == f,
            },
    {
        let entries = policy.entries();
        let ghost req = policy@;
        let ghost log = self.log@;
        let mut k: usize = 0;
        assert(req.take(0) == Seq::<(Seq<char>, Seq<char>)>::empty());
        while k < entries.len()
            invariant
                entries_view(entries@) == req,
                req == policy@,
                log == self@,
                k <= req.len(),
                policy_check(req.take(k as int), log) == Ok::<(), BootFault>(()),
            decreases entries.len() - k,
        {
            let name = &entries[k].0;
            let expected = &entries[k].1;
            assert(req.take(k + 1).drop_last() == req.take(k as int));
            assert(req.take(k + 1).last() == (name@, expected@));
            match self.log.first_digest(name) {
                None => {
                    proof {
                        lemma_policy_check_stop(req, log, k + 1);
                    }
                    return Err(BootError::MissingComponent(name.clone()));
                },
                Some(actual) => {
                    if *actual != *expected {
                        proof {
                            lemma_policy_check_stop(req, log, k + 1);
                        }
                        return Err(
                            BootError::DigestMismatch {
                                name: name.clone(),
                                expected: expected.clone(),
                                actual: actual.clone(),
                            },
                        );
                    }
                },
            }
            k = k + 1;
        }
        assert(req.take(req.len() as int) == req);
        Ok(())
    }

    /// Checks the log against a policy and, if it passes, reports the log
    /// with the digest of the policy.
    pub fn attest(&self, policy: &BootPolicy) -> (r: Result<AttestationReport, BootError>)
        ensures
            match policy_check(policy@, self@) {
                Ok(()) => r matches Ok(report) && report.measurements@ == self@
                    && report.policy_digest@ == hex_lower(sha256(policy_bytes(policy@))),
                Err(f) => r matches Err(e) && e@ == f,
            },
    {
        match self.verify_policy(policy) {
            Err(e) => Err(e),
            Ok(()) => Ok(
                AttestationReport {
                    measurements: self.log.duplicate(),
                    policy_digest: hash_policy(policy),
                },
            ),
        }
    }

    /// The measurement log.
    pub fn log(&self) -> (r: &MeasurementLog)
        ensures
            r@ == self@,
    {
        &self.log
    }
}

/// The hexadecimal SHA-256 digest of bytes.
pub fn hash_bytes(bytes: &[u8]) -> (r: String)
    ensures
        r@ == hex_lower(sha256(bytes@)),
{
    sha256_hex(bytes)
}

/// The hexadecimal SHA-256 digest of a policy: of `name=digest;` for each
/// required component, in name order.
pub fn hash_policy(policy: &BootPolicy) -> (r: String)
    ensures
        r@ == hex_lower(sha256(policy_bytes(policy@))),
{
    let entries = policy.entries();
    let ghost req = policy@;
    let mut buf: Vec<u8> = Vec::new();
    let mut k: usize = 0;
    assert(req.take(0) == Seq::<(Seq<char>, Seq<char>)>::empty());
    while k < entries.len()
        invariant
            entries_view(entries@) == req,
            req == policy@,
            k <= req.len(),
            buf@ == policy_bytes(req.take(k as int)),
        decreases entries.len() - k,
    {
        assert(req.take(k + 1).drop_last() == req.take(k as int));
        assert(req.take(k + 1).last() == (entries@[k as int].0@, entries@[k as int].1@));
        push_bytes(&mut buf, entries[k].0.as_str().as_bytes());
        buf.push(61u8);
        push_bytes(&mut buf, entries[k].1.as_str().as_bytes());
        buf.push(59u8);
        k = k + 1;
    }
    assert(req.take(req.len() as int) == req);
    sha256_hex(buf.as_slice())
}

} // verus!
