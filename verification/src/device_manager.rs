//! Device model and driver sandbox: devices and drivers are registered,
//! a policy decides which driver may attach to which device, and an
//! attachment hands out a capability token that opens the device until the
//! pair is attached again.

use vstd::prelude::*;
use crate::identity::{is_v4, random_uuid_value, uuid_text};
use crate::text::{owned, push_str};

verus! {

/// Identifier of a device.
#[derive(Debug, Clone, Copy, PartialEq, Eq, Hash, Structural)]
pub struct DeviceId(u128);

/// Identifier of a driver.
#[derive(Debug, Clone, Copy, PartialEq, Eq, Hash, Structural)]
pub struct DriverId(u128);

impl View for DeviceId {
    type V = u128;

    closed spec fn view(&self) -> u128 {
        self.0
    }
}

impl View for DriverId {
    type V = u128;

    closed spec fn view(&self) -> u128 {
        self.0
    }
}

impl DeviceId {
    /// A fresh random identifier.
    pub fn new() -> (r: Self)
        ensures
            is_v4(r@),
    {
        DeviceId(random_uuid_value())
    }

    /// Debug rendering: `DeviceId(` the hyphenated UUID `)`.
    pub fn debug_text(&self) -> (r: String)
        ensures
            r@ == "DeviceId("@ + crate::identity::uuid_hyphenated(self@) + ")"@,
    {
        let mut s = owned("DeviceId(");
        let u = uuid_text(self.0);
        push_str(&mut s, u.as_str());
        push_str(&mut s, ")");
        s
    }
}

impl DriverId {
    /// A fresh random identifier.
    pub fn new() -> (r: Self)
        ensures
            is_v4(r@),
    {
        DriverId(random_uuid_value())
    }

    /// Debug rendering: `DriverId(` the hyphenated UUID `)`.
    pub fn debug_text(&self) -> (r: String)
        ensures
            r@ == "DriverId("@ + crate::identity::uuid_hyphenated(self@) + ")"@,
    {
        let mut s = owned("DriverId(");
        let u = uuid_text(self.0);
        push_str(&mut s, u.as_str());
        push_str(&mut s, ")");
        s
    }
}

/// Kinds of devices.
#[derive(Debug, Clone, Copy, PartialEq, Eq, Structural)]
pub enum DeviceClass {
    Input,
    Display,
    Storage,
    Network,
    Custom,
}

/// A hardware resource a device uses.
#[derive(Debug, Clone, Copy, PartialEq, Eq, Structural)]
pub enum DeviceResource {
    IoPort { base: u16, len: u16 },
    MemoryMapped { base: u64, len: u64 },
    Interrupt { irq: u32 },
}

/// A device: its identifier, class, vendor, product and resources.
#[derive(Debug, Clone, PartialEq, Eq)]
pub struct DeviceDescriptor {
    pub id: DeviceId,
    pub class: DeviceClass,
    pub vendor: String,
    pub product: String,
    pub resources: Vec<DeviceResource>,
}

/// A device as values.
pub struct DeviceView {
    pub id: u128,
    pub class: DeviceClass,
    pub vendor: Seq<char>,
    pub product: Seq<char>,
    pub resources: Seq<DeviceResource>,
}

impl View for DeviceDescriptor {
    type V = DeviceView;

    open spec fn view(&self) -> DeviceView {
        DeviceView {
            id: self.id@,
            class: self.class,
            vendor: self.vendor@,
            product: self.product@,
            resources: self.resources@,
        }
    }
}

impl DeviceDescriptor {
    /// A device with a fresh identifier and no resources.
    pub fn new(class: DeviceClass, vendor: &str, product: &str) -> (r: Self)
        ensures
            r.class == class,
            r.vendor@ == vendor@,
            r.product@ == product@,
            r.resources@.len() == 0,
    {
        DeviceDescriptor {
            id: DeviceId::new(),
            class,
            vendor: owned(vendor),
            product: owned(product),
            resources: Vec::new(),
        }
    }

    /// The device with one more resource.
    pub fn with_resource(self, resource: DeviceResource) -> (r: Self)
        ensures
            r@ == (DeviceView { resources: self@.resources.push(resource), ..self@ }),
    {
        let mut d = self;
        d.resources.push(resource);
        d
    }
}

/// A policy's decision on a driver for a device.
#[derive(Debug, Clone, PartialEq, Eq)]
pub enum DriverDecision {
    Allow,
    Deny { reason: String },
}

/// Decides which drivers may attach to which devices.
pub trait DriverPolicy {
    /// Why the policy refuses a driver for a device, if it does.
    spec fn denial(&self, driver: u128, device: DeviceView) -> Option<Seq<char>>;

    /// The decision on a driver for a device.
    fn evaluate(&self, driver_id: DriverId, device: &DeviceDescriptor) -> (r: DriverDecision)
        ensures
            match self.denial(driver_id@, device@) {
                None => r == DriverDecision::Allow,
                Some(m) => r matches DriverDecision::Deny { reason } && reason@ == m,
            },
    ;
}

/// Allows every driver.
pub struct AllowAllDrivers;

impl DriverPolicy for AllowAllDrivers {
    open spec fn denial(&self, driver: u128, device: DeviceView) -> Option<Seq<char>> {
        None
    }

    fn evaluate(&self, driver_id: DriverId, device: &DeviceDescriptor) -> (r: DriverDecision) {
        DriverDecision::Allow
    }
}

/// Refuses every driver.
pub struct DenyAllDrivers;

impl DriverPolicy for DenyAllDrivers {
    open spec fn denial(&self, driver: u128, device: DeviceView) -> Option<Seq<char>> {
        Some("Drivers are sandboxed and denied"@)
    }

    fn evaluate(&self, driver_id: DriverId, device: &DeviceDescriptor) -> (r: DriverDecision) {
        DriverDecision::Deny { reason: owned("Drivers are sandboxed and denied") }
    }
}

/// The capability a driver gets for a device it attached to.
#[derive(Debug, Clone, PartialEq, Eq)]
pub struct DriverHandleCap {
    pub driver_id: DriverId,
    pub device_id: DeviceId,
    token: u64,
}

impl DriverHandleCap {
    /// The driver of the capability.
    pub closed spec fn driver_view(&self) -> DriverId {
        self.driver_id
    }

    /// The device of the capability.
    pub closed spec fn device_view(&self) -> DeviceId {
        self.device_id
    }

    /// The capability's token.
    pub closed spec fn token_view(&self) -> u64 {
        self.token
    }

    /// The capability's token.
    pub fn token(&self) -> (r: u64)
        ensures
            r == self.token_view(),
    {
        self.token
    }
}

/// An open device, named by its capability token.
#[derive(Debug, Clone, Copy, PartialEq, Eq, Structural)]
pub struct Cap {
    id: u64,
}

impl Cap {
    /// The token of the capability.
    pub closed spec fn id_view(&self) -> u64 {
        self.id
    }

    /// A capability with a token.
    pub fn new(id: u64) -> (r: Self)
        ensures
            r.id_view() == id,
    {
        Cap { id }
    }

    /// The token of the capability.
    pub fn id(&self) -> (r: u64)
        ensures
            r == self.id_view(),
    {
        self.id
    }
}

/// Device manager errors.
#[derive(Debug, Clone, PartialEq, Eq)]
pub enum DeviceManagerError {
    DriverNotRegistered(DriverId),
    DeviceNotFound(DeviceId),
    PolicyDenied(String),
    InvalidCapability,
}

impl DeviceManagerError {
    /// The error's message.
    pub fn to_string(&self) -> (r: String)
        ensures
            self matches DeviceManagerError::DriverNotRegistered(id) ==> r@ == "Driver not registered: DriverId("@
                + crate::identity::uuid_hyphenated(id@) + ")"@,
            self matches DeviceManagerError::DeviceNotFound(id) ==> r@ == "Device not found: DeviceId("@
                + crate::identity::uuid_hyphenated(id@) + ")"@,
            self matches DeviceManagerError::PolicyDenied(m) ==> r@ == "Policy denied driver: "@ + m@,
            *self == DeviceManagerError::InvalidCapability ==> r@ == "Invalid driver capability"@,
    {
        match self {
            DeviceManagerError::DriverNotRegistered(id) => {
                let mut s = owned("Driver not registered: ");
                let t = id.debug_text();
                push_str(&mut s, t.as_str());
                assert(s@ =~= "Driver not registered: DriverId("@ + crate::identity::uuid_hyphenated(id@) + ")"@) by {
                    reveal_strlit("Driver not registered: DriverId(");
                    reveal_strlit("Driver not registered: ");
                    reveal_strlit("DriverId(");
                }
                s
            },
            DeviceManagerError::DeviceNotFound(id) => {
                let mut s = owned("Device not found: ");
                let t = id.debug_text();
                push_str(&mut s, t.as_str());
                assert(s@ =~= "Device not found: DeviceId("@ + crate::identity::uuid_hyphenated(id@) + ")"@) by {
                    reveal_strlit("Device not found: DeviceId(");
                    reveal_strlit("Device not found: ");
                    reveal_strlit("DeviceId(");
                }
                s
            },
            DeviceManagerError::PolicyDenied(m) => {
                let mut s = owned("Policy denied driver: ");
                push_str(&mut s, m.as_str());
                s
            },
            DeviceManagerError::InvalidCapability => owned("Invalid driver capability"),
        }
    }
}

/// The name registered last for a driver, if any.
pub open spec fn driver_lookup(drivers: Seq<(DriverId, String)>, id: u128) -> Option<Seq<char>>
    decreases drivers.len(),
{
    if drivers.len() == 0 {
        None
    } else if drivers.last().0@ == id {
        Some(drivers.last().1@)
    } else {
        driver_lookup(drivers.drop_last(), id)
    }
}

/// The device registered last under an identifier, if any.
pub open spec fn device_lookup(devices: Seq<DeviceDescriptor>, id: u128) -> Option<DeviceView>
    decreases devices.len(),
{
    if devices.len() == 0 {
        None
    } else if devices.last().id@ == id {
        Some(devices.last()@)
    } else {
        device_lookup(devices.drop_last(), id)
    }
}

/// The token issued last for a driver and a device, if any.
pub open spec fn token_lookup(tokens: Seq<(DriverId, DeviceId, u64)>, driver: u128, device: u128) -> Option<u64>
    decreases tokens.len(),
{
    if tokens.len() == 0 {
        None
    } else if tokens.last().0@ == driver && tokens.last().1@ == device {
        Some(tokens.last().2)
    } else {
        token_lookup(tokens.drop_last(), driver, device)
    }
}

/// A token issued for a pair opens it until the pair gets another token;
/// issuing one for a pair changes no other pair's token.
pub proof fn lemma_token_issue(
    tokens: Seq<(DriverId, DeviceId, u64)>,
    driver: DriverId,
    device: DeviceId,
    token: u64,
    other_driver: u128,
    other_device: u128,
)
    ensures
        token_lookup(tokens.push((driver, device, token)), driver@, device@) == Some(token),
        !(other_driver == driver@ && other_device == device@) ==> token_lookup(
            tokens.push((driver, device, token)),
            other_driver,
            other_device,
        ) == token_lookup(tokens, other_driver, other_device),
{
    assert(tokens.push((driver, device, token)).drop_last() =~= tokens);
}

/// Attaching a pair again revokes the capability it had: its old token no
/// longer opens the device.
pub proof fn lemma_reattach_revokes(
    tokens: Seq<(DriverId, DeviceId, u64)>,
    driver: DriverId,
    device: DeviceId,
    first: u64,
    second: u64,
)
    requires
        first != second,
    ensures
        token_lookup(tokens.push((driver, device, first)).push((driver, device, second)), driver@, device@)
            != Some(first),
{
    lemma_token_issue(tokens.push((driver, device, first)), driver, device, second, driver@, device@);
}

/// The device manager: registered drivers and devices, the policy, and the
/// tokens of the attachments.
pub struct DeviceManager {
    policy: Box<dyn DriverPolicy>,
    drivers: Vec<(DriverId, String)>,
    devices: Vec<DeviceDescriptor>,
    tokens: Vec<(DriverId, DeviceId, u64)>,
    next_token: u64,
}

impl DeviceManager {
    /// The drivers registered, in order.
    pub closed spec fn drivers_view(&self) -> Seq<(DriverId, String)> {
        self.drivers@
    }

    /// The devices registered, in order.
    pub closed spec fn devices_view(&self) -> Seq<DeviceDescriptor> {
        self.devices@
    }

    /// The tokens issued, in order.
    pub closed spec fn tokens_view(&self) -> Seq<(DriverId, DeviceId, u64)> {
        self.tokens@
    }

    /// The next token to issue.
    pub closed spec fn next_token_view(&self) -> u64 {
        self.next_token
    }

    /// Why the manager's policy refuses a driver for a device, if it does.
    pub closed spec fn denial(&self, driver: u128, device: DeviceView) -> Option<Seq<char>> {
        self.policy.denial(driver, device)
    }

    /// Every token issued is below the next one.
    pub closed spec fn wf(&self) -> bool {
        &&& self.next_token >= 1
        &&& forall|i: int| 0 <= i < self.tokens@.len() ==> #[trigger] self.tokens@[i].2 < self.next_token
    }

    /// A manager with a policy and nothing registered.
    pub fn new(policy: Box<dyn DriverPolicy>) -> (r: Self)
        ensures
            r.wf(),
            r.drivers_view().len() == 0,
            r.devices_view().len() == 0,
            r.tokens_view().len() == 0,
            r.next_token_view() == 1,
    {
        DeviceManager { policy, drivers: Vec::new(), devices: Vec::new(), tokens: Vec::new(), next_token: 1 }
    }

    /// Registers a driver under a fresh identifier.
    pub fn register_driver(&mut self, name: &str) -> (r: DriverId)
        requires
            old(self).wf(),
        ensures
            final(self).wf(),
            final(self).drivers_view().len() == old(self).drivers_view().len() + 1,
            final(self).drivers_view().last().0 == r,
            final(self).drivers_view().last().1@ == name@,
            final(self).drivers_view().drop_last() == old(self).drivers_view(),
            final(self).devices_view() == old(self).devices_view(),
            final(self).tokens_view() == old(self).tokens_view(),
            final(self).next_token_view() == old(self).next_token_view(),
            forall|d: u128, v: DeviceView| final(self).denial(d, v) == old(self).denial(d, v),
    {
        let id = DriverId::new();
        self.drivers.push((id, owned(name)));
        id
    }

    /// Registers a device under its identifier.
    pub fn register_device(&mut self, descriptor: DeviceDescriptor) -> (r: DeviceId)
        requires
            old(self).wf(),
        ensures
            final(self).wf(),
            r == descriptor.id,
            final(self).devices_view() == old(self).devices_view().push(descriptor),
            final(self).drivers_view() == old(self).drivers_view(),
            final(self).tokens_view() == old(self).tokens_view(),
            final(self).next_token_view() == old(self).next_token_view(),
            forall|d: u128, v: DeviceView| final(self).denial(d, v) == old(self).denial(d, v),
    {
        let id = descriptor.id;
        self.devices.push(descriptor);
        id
    }

    /// Finds the name registered last for a driver.
    fn find_driver(&self, id: DriverId) -> (r: bool)
        ensures
            r == (driver_lookup(self.drivers@, id@) is Some),
    {
        let mut i = self.drivers.len();
        assert(self.drivers@.take(i as int) =~= self.drivers@);
        while i > 0
            invariant
                i <= self.drivers@.len(),
                driver_lookup(self.drivers@, id@) == driver_lookup(self.drivers@.take(i as int), id@),
            decreases i,
        {
            assert(self.drivers@.take(i as int).drop_last() =~= self.drivers@.take(i - 1));
            assert(self.drivers@.take(i as int).last() == self.drivers@[i - 1]);
            if self.drivers[i - 1].0 == id {
                return true;
            }
            i = i - 1;
        }
        false
    }

    /// The index of the device registered last under an identifier.
    fn find_device(&self, id: DeviceId) -> (r: Option<usize>)
        ensures
            device_lookup(self.devices@, id@) is None ==> r is None,
            device_lookup(self.devices@, id@) matches Some(v) ==> (r matches Some(i) && i < self.devices@.len()
                && self.devices@[i as int]@ == v && self.devices@[i as int].id@ == id@),
    {
        let mut i = self.devices.len();
        assert(self.devices@.take(i as int) =~= self.devices@);
        while i > 0
            invariant
                i <= self.devices@.len(),
                device_lookup(self.devices@, id@) == device_lookup(self.devices@.take(i as int), id@),
            decreases i,
        {
            assert(self.devices@.take(i as int).drop_last() =~= self.devices@.take(i - 1));
            assert(self.devices@.take(i as int).last() == self.devices@[i - 1]);
            if self.devices[i - 1].id == id {
                return Some(i - 1);
            }
            i = i - 1;
        }
        None
    }

    /// The token issued last for a driver and a device.
    fn find_token(&self, driver: DriverId, device: DeviceId) -> (r: Option<u64>)
        ensures
            r == token_lookup(self.tokens@, driver@, device@),
    {
        let mut i = self.tokens.len();
        assert(self.tokens@.take(i as int) =~= self.tokens@);
        while i > 0
            invariant
                i <= self.tokens@.len(),
                token_lookup(self.tokens@, driver@, device@) == token_lookup(
                    self.tokens@.take(i as int),
                    driver@,
                    device@,
                ),
            decreases i,
        {
            assert(self.tokens@.take(i as int).drop_last() =~= self.tokens@.take(i - 1));
            assert(self.tokens@.take(i as int).last() == self.tokens@[i - 1]);
            let entry = &self.tokens[i - 1];
            if entry.0 == driver && entry.1 == device {
                return Some(entry.2);
            }
            i = i - 1;
        }
        None
    }

    /// Attaches a driver to a device: refused for an unregistered driver,
    /// an unknown device, or when the policy denies it; otherwise a new
    /// token is issued for the pair and returned in a capability.
    pub fn attach_driver(&mut self, driver_id: DriverId, device_id: DeviceId) -> (r: Result<
        DriverHandleCap,
        DeviceManagerError,
    >)
        requires
            old(self).wf(),
            old(self).next_token_view() < u64::MAX,
        ensures
            final(self).wf(),
            final(self).drivers_view() == old(self).drivers_view(),
            final(self).devices_view() == old(self).devices_view(),
            forall|d: u128, v: DeviceView| final(self).denial(d, v) == old(self).denial(d, v),
            driver_lookup(old(self).drivers_view(), driver_id@) is None ==> r == Err::<
                DriverHandleCap,
                DeviceManagerError,
            >(DeviceManagerError::DriverNotRegistered(driver_id)) && final(self).tokens_view()
                == old(self).tokens_view() && final(self).next_token_view() == old(self).next_token_view(),
            driver_lookup(old(self).drivers_view(), driver_id@) is Some && device_lookup(
                old(self).devices_view(),
                device_id@,
            ) is None ==> r == Err::<DriverHandleCap, DeviceManagerError>(
                DeviceManagerError::DeviceNotFound(device_id),
            ) && final(self).tokens_view() == old(self).tokens_view() && final(self).next_token_view()
                == old(self).next_token_view(),
            (driver_lookup(old(self).drivers_view(), driver_id@) is Some && device_lookup(
                old(self).devices_view(),
                device_id@,
            ) is Some) ==> match old(self).denial(
                driver_id@,
                device_lookup(old(self).devices_view(), device_id@).unwrap(),
            ) {
                Some(m) => (r matches Err(DeviceManagerError::PolicyDenied(reason)) && reason@ == m)
                    && final(self).tokens_view() == old(self).tokens_view() && final(self).next_token_view()
                    == old(self).next_token_view(),
                None => (r matches Ok(cap) && cap.driver_view() == driver_id && cap.device_view() == device_id
                    && cap.token_view() == old(self).next_token_view()) && final(self).tokens_view()
                    == old(self).tokens_view().push((driver_id, device_id, old(self).next_token_view()))
                    && final(self).next_token_view() == old(self).next_token_view() + 1,
            },
    {
        if !self.find_driver(driver_id) {
            return Err(DeviceManagerError::DriverNotRegistered(driver_id));
        }
        let idx = match self.find_device(device_id) {
            Some(i) => i,
            None => {
                return Err(DeviceManagerError::DeviceNotFound(device_id));
            },
        };
        let decision = self.policy.evaluate(driver_id, &self.devices[idx]);
        match decision {
            DriverDecision::Allow => {},
            DriverDecision::Deny { reason } => {
                return Err(DeviceManagerError::PolicyDenied(reason));
            },
        }
        let token = self.next_token;
        self.next_token = self.next_token + 1;
        self.tokens.push((driver_id, device_id, token));
        Ok(DriverHandleCap { driver_id, device_id, token })
    }

    /// Opens the device of a capability: the capability must carry the
    /// token issued last for its driver and device.
    pub fn open_device(&self, cap: &DriverHandleCap) -> (r: Result<Cap, DeviceManagerError>)
        ensures
            token_lookup(self.tokens_view(), cap.driver_view()@, cap.device_view()@) == Some(cap.token_view()) ==> (r matches Ok(
                c,
            ) && c.id_view() == cap.token_view()),
            token_lookup(self.tokens_view(), cap.driver_view()@, cap.device_view()@) != Some(cap.token_view()) ==> r
                == Err::<Cap, DeviceManagerError>(DeviceManagerError::InvalidCapability),
    {
        match self.find_token(cap.driver_id, cap.device_id) {
            Some(token) => {
                if token != cap.token {
                    return Err(DeviceManagerError::InvalidCapability);
                }
                Ok(Cap::new(cap.token))
            },
            None => Err(DeviceManagerError::InvalidCapability),
        }
    }
}

} // verus!
