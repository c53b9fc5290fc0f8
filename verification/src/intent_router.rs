//! Typed intents, and the router that sends an intent type to the service
//! registered for it.

use vstd::prelude::*;
use crate::identity::{is_v4, random_uuid_value};
use crate::ipc::ServiceId;
use crate::text::{chars_of, eq_str};

verus! {

/// Identifier of an intent.
#[derive(Debug, Clone, Copy, PartialEq, Eq, Hash, Structural)]
pub struct IntentId(u128);

impl View for IntentId {
    type V = u128;

    closed spec fn view(&self) -> u128 {
        self.0
    }
}

impl IntentId {
    /// A new random intent id.
    pub fn new() -> (r: Self)
        ensures
            is_v4(r@),
    {
        IntentId(random_uuid_value())
    }
}

/// A structured request for an action: its type, its schema version and
/// its parameters.
#[derive(Debug)]
pub struct Intent {
    /// Unique identifier
    pub id: IntentId,
    /// Intent type, such as "storage.read"
    pub intent_type: String,
    /// Version of the intent schema
    pub version: (u32, u32),
    /// Parameters, as key and value
    pub parameters: Vec<(String, String)>,
}

impl Intent {
    /// An intent with a fresh id and no parameters.
    pub fn new(intent_type: String, version: (u32, u32)) -> (r: Self)
        ensures
            r.intent_type == intent_type,
            r.version == version,
            r.parameters@.len() == 0,
    {
        Intent { id: IntentId::new(), intent_type, version, parameters: Vec::new() }
    }

    /// The intent with one more parameter at the end.
    pub fn with_parameter(self, key: String, value: String) -> (r: Self)
        ensures
            r.id == self.id,
            r.intent_type == self.intent_type,
            r.version == self.version,
            r.parameters@ == self.parameters@.push((key, value)),
    {
        let mut i = self;
        i.parameters.push((key, value));
        i
    }
}

/// The service of the earliest registration of an intent type, if any.
pub open spec fn first_route(routes: Seq<(Seq<char>, ServiceId)>, t: Seq<char>) -> Option<ServiceId>
    decreases routes.len(),
{
    if routes.len() == 0 {
        None
    } else {
        let earlier = first_route(routes.drop_last(), t);
        if earlier is Some {
            earlier
        } else if routes.last().0 == t {
            Some(routes.last().1)
        } else {
            None
        }
    }
}

/// A route found among the first registrations stays found when more are
/// registered.
proof fn lemma_first_route_prefix(routes: Seq<(Seq<char>, ServiceId)>, t: Seq<char>, k: int, j: int)
    requires
        0 <= k <= j <= routes.len(),
        first_route(routes.take(k), t) is Some,
    ensures
        first_route(routes.take(j), t) == first_route(routes.take(k), t),
    decreases j - k,
{
    if j > k {
        lemma_first_route_prefix(routes, t, k, j - 1);
        assert(routes.take(j).drop_last() =~= routes.take(j - 1));
    }
}

/// Routes intent types to the services that handle them.
pub struct IntentRouter {
    routes: Vec<(String, ServiceId)>,
}

/// The routes as plain values.
pub open spec fn routes_view(routes: Seq<(String, ServiceId)>) -> Seq<(Seq<char>, ServiceId)> {
    routes.map_values(|r: (String, ServiceId)| (r.0@, r.1))
}

impl View for IntentRouter {
    type V = Seq<(Seq<char>, ServiceId)>;

    closed spec fn view(&self) -> Seq<(Seq<char>, ServiceId)> {
        routes_view(self.routes@)
    }
}

/// Routing after a registration: a type that already had a route keeps
/// it; otherwise the newly registered type goes to the new service, and
/// any other type still has none.
pub proof fn lemma_route_after_register(
    routes: Seq<(Seq<char>, ServiceId)>,
    intent_type: Seq<char>,
    handler: ServiceId,
    t: Seq<char>,
)
    ensures
        first_route(routes.push((intent_type, handler)), t) == if first_route(routes, t) is Some {
            first_route(routes, t)
        } else if t == intent_type {
            Some(handler)
        } else {
            None::<ServiceId>
        },
{
    assert(routes.push((intent_type, handler)).drop_last() =~= routes);
}

impl IntentRouter {
    /// A router with no routes.
    pub fn new() -> (r: Self)
        ensures
            r@.len() == 0,
    {
        IntentRouter { routes: Vec::new() }
    }

    /// Registers a service for an intent type, after the earlier routes.
    pub fn register(&mut self, intent_type: String, handler: ServiceId)
        ensures
            final(self)@ == old(self)@.push((intent_type@, handler)),
    {
        let ghost t = intent_type@;
        self.routes.push((intent_type, handler));
        assert(routes_view(self.routes@) =~= routes_view(old(self).routes@).push((t, handler)));
    }

    /// The service of the earliest registration of an intent type.
    pub fn route(&self, intent_type: &str) -> (r: Option<ServiceId>)
        ensures
            r == first_route(self@, intent_type@),
    {
        let ghost all = self@;
        let mut i: usize = 0;
        assert(all.take(0) =~= Seq::<(Seq<char>, ServiceId)>::empty());
        while i < self.routes.len()
            invariant
                i <= self.routes@.len(),
                all == routes_view(self.routes@),
                first_route(all.take(i as int), intent_type@) is None,
            decreases self.routes@.len() - i,
        {
            assert(all.take(i + 1).drop_last() =~= all.take(i as int));
            let c = chars_of(self.routes[i].0.as_str());
            if eq_str(&c, intent_type) {
                proof {
                    lemma_first_route_prefix(all, intent_type@, i + 1, all.len() as int);
                    assert(all.take(all.len() as int) =~= all);
                }
                return Some(self.routes[i].1);
            }
            i = i + 1;
        }
        assert(all.take(all.len() as int) =~= all);
        None
    }
}

impl Default for IntentRouter {
    fn default() -> (r: Self)
        ensures
            r@.len() == 0,
    {
        IntentRouter::new()
    }
}

} // verus!
