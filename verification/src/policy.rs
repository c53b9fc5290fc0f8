//! Pluggable policy engines: capability sets and derived authority, policy
//! decisions (allow, deny, require), evaluation contexts and reference
//! policies, and the report that explains an evaluation.

use vstd::prelude::*;
use std::collections::BTreeSet;
use vstd::std_specs::btree::spec_btree_keys_iter;
use vstd::std_specs::iter::IteratorSpec;
use crate::identity::{IdentityKind, IdentityMetadata, TrustDomain};
use crate::pipeline::{PipelineId, StageId};
use crate::text::{decimal, join, owned, push_joined, parse_unsigned, parse_unsigned_spec, push_decimal, push_str};
use vstd::utf8::encode_utf8;

verus! {

broadcast use vstd::std_specs::btree::group_btree_axioms, vstd::laws_cmp::group_laws_cmp;

/// A sequence in strictly increasing order.
pub open spec fn strictly_increasing(s: Seq<u64>) -> bool {
    forall|i: int, j: int| 0 <= i < j < s.len() ==> s[i] < s[j]
}

/// A sequence in non-decreasing order.
pub open spec fn sorted_seq(s: Seq<u64>) -> bool {
    forall|i: int, j: int| 0 <= i <= j < s.len() ==> s[i] <= s[j]
}

/// Sorts the vector with `slice::sort_unstable`: the result is in
/// non-decreasing order and holds the same elements with the same
/// multiplicities.
#[verifier::external_body]
fn sort_u64(v: &mut Vec<u64>)
    ensures
        final(v)@.to_multiset() == old(v)@.to_multiset(),
        final(v)@.len() == old(v)@.len(),
        sorted_seq(final(v)@),
{
    v.sort_unstable();
}

/// The elements of a set, in no particular order, each once.
fn set_elements(s: &BTreeSet<u64>) -> (r: Vec<u64>)
    ensures
        r@.to_set() == s@,
        r@.no_duplicates(),
{
    let ghost items = spec_btree_keys_iter(s).remaining().map_values(|p: &u64| *p);
    proof {
        vstd::std_specs::btree::axiom_spec_btree_keys_iter(s);
    }
    let mut v: Vec<u64> = Vec::new();
    for x in it: s.iter()
        invariant
            it.seq() == spec_btree_keys_iter(s).remaining(),
            items == spec_btree_keys_iter(s).remaining().map_values(|p: &u64| *p),
            v@ == items.take(it.index()),
    {
        v.push(*x);
        assert(items.take(it.index() + 1) == items.take(it.index()).push(*x));
    }
    assert(v@ == items);
    assert(spec_btree_keys_iter(s).remaining().unref() == items);
    v
}

/// A sorted sequence without duplicates is strictly increasing.
proof fn lemma_sorted_distinct_strict(s: Seq<u64>)
    requires
        sorted_seq(s),
        s.no_duplicates(),
    ensures
        strictly_increasing(s),
{
    assert forall|i: int, j: int| 0 <= i < j < s.len() implies s[i] < s[j] by {
        assert(s[i] <= s[j]);
        assert(s[i] != s[j]);
    }
}

/// Reordering a sequence keeps its set of elements and its freedom from
/// duplicates.
proof fn lemma_permutation_keeps_set(a: Seq<u64>, b: Seq<u64>)
    requires
        a.to_multiset() == b.to_multiset(),
        a.no_duplicates(),
    ensures
        b.no_duplicates(),
        a.to_set() == b.to_set(),
{
    broadcast use vstd::seq_lib::group_to_multiset_ensures;

    a.lemma_multiset_has_no_duplicates();
    b.lemma_multiset_has_no_duplicates_conv();
    assert forall|x: u64| a.to_set().contains(x) <==> b.to_set().contains(x) by {
        assert(a.contains(x) <==> a.to_multiset().count(x) > 0);
        assert(b.contains(x) <==> b.to_multiset().count(x) > 0);
    }
    assert(a.to_set() =~= b.to_set());
}

/// A set of capability ids.
#[derive(Debug, Clone, PartialEq, Eq)]
pub struct CapabilitySet {
    /// The capability ids.
    pub capabilities: BTreeSet<u64>,
}

impl View for CapabilitySet {
    type V = Set<u64>;

    open spec fn view(&self) -> Set<u64> {
        self.capabilities@
    }
}

impl CapabilitySet {
    /// Creates an empty capability set.
    pub fn new() -> (r: Self)
        ensures
            r@ == Set::<u64>::empty(),
    {
        CapabilitySet { capabilities: BTreeSet::new() }
    }

    /// Creates a capability set holding the given ids.
    pub fn from_capabilities(caps: Vec<u64>) -> (r: Self)
        ensures
            r@ == caps@.to_set(),
    {
        let mut set: BTreeSet<u64> = BTreeSet::new();
        let mut i: usize = 0;
        while i < caps.len()
            invariant
                i <= caps.len(),
                set@ == caps@.take(i as int).to_set(),
            decreases caps.len() - i,
        {
            set.insert(caps[i]);
            proof {
                assert(caps@.take(i + 1) == caps@.take(i as int).push(caps@[i as int]));
                caps@.take(i as int).lemma_push_to_set_commute(caps@[i as int]);
            }
            i = i + 1;
        }
        assert(caps@.take(caps.len() as int) == caps@);
        CapabilitySet { capabilities: set }
    }

    /// Whether every capability of this set is in `other`.
    pub fn is_subset_of(&self, other: &CapabilitySet) -> (r: bool)
        ensures
            r == self@.subset_of(other@),
    {
        let elems = set_elements(&self.capabilities);
        let mut i: usize = 0;
        while i < elems.len()
            invariant
                i <= elems.len(),
                elems@.to_set() == self@,
                forall|k: int| 0 <= k < i ==> other@.contains(#[trigger] elems@[k]),
            decreases elems.len() - i,
        {
            if !other.capabilities.contains(&elems[i]) {
                assert(self@.contains(elems@[i as int]));
                return false;
            }
            i = i + 1;
        }
        assert forall|x: u64| self@.contains(x) implies other@.contains(x) by {
            assert(elems@.contains(x));
        }
        true
    }

    /// The capabilities in both sets.
    pub fn intersection(&self, other: &CapabilitySet) -> (r: CapabilitySet)
        ensures
            r@ == self@.intersect(other@),
    {
        let elems = set_elements(&self.capabilities);
        let mut set: BTreeSet<u64> = BTreeSet::new();
        let mut i: usize = 0;
        while i < elems.len()
            invariant
                i <= elems.len(),
                elems@.to_set() == self@,
                set@ == elems@.take(i as int).to_set().intersect(other@),
            decreases elems.len() - i,
        {
            let x = elems[i];
            proof {
                assert(elems@.take(i + 1) == elems@.take(i as int).push(x));
                elems@.take(i as int).lemma_push_to_set_commute(x);
            }
            if other.capabilities.contains(&x) {
                set.insert(x);
            }
            assert(set@ =~= elems@.take(i + 1).to_set().intersect(other@));
            i = i + 1;
        }
        assert(elems@.take(elems.len() as int) == elems@);
        CapabilitySet { capabilities: set }
    }

    /// The capabilities of this set that are not in `other`.
    pub fn difference(&self, other: &CapabilitySet) -> (r: CapabilitySet)
        ensures
            r@ == self@.difference(other@),
    {
        let elems = set_elements(&self.capabilities);
        let mut set: BTreeSet<u64> = BTreeSet::new();
        let mut i: usize = 0;
        while i < elems.len()
            invariant
                i <= elems.len(),
                elems@.to_set() == self@,
                set@ == elems@.take(i as int).to_set().difference(other@),
            decreases elems.len() - i,
        {
            let x = elems[i];
            proof {
                assert(elems@.take(i + 1) == elems@.take(i as int).push(x));
                elems@.take(i as int).lemma_push_to_set_commute(x);
            }
            if !other.capabilities.contains(&x) {
                set.insert(x);
            }
            assert(set@ =~= elems@.take(i + 1).to_set().difference(other@));
            i = i + 1;
        }
        assert(elems@.take(elems.len() as int) == elems@);
        CapabilitySet { capabilities: set }
    }

    /// Whether the set is empty.
    pub fn is_empty(&self) -> (r: bool)
        ensures
            r == (self@ == Set::<u64>::empty()),
    {
        let e = self.capabilities.is_empty();
        assert(e ==> self@ =~= Set::<u64>::empty());
        e
    }

    /// The number of capabilities in the set.
    pub fn len(&self) -> (r: usize)
        ensures
            r == self@.len(),
    {
        self.capabilities.len()
    }

    /// The capability ids in increasing order.
    pub fn to_vec(&self) -> (r: Vec<u64>)
        ensures
            r@.to_set() == self@,
            strictly_increasing(r@),
    {
        let mut v = set_elements(&self.capabilities);
        let ghost before = v@;
        sort_u64(&mut v);
        proof {
            lemma_permutation_keeps_set(before, v@);
            lemma_sorted_distinct_strict(v@);
        }
        v
    }
}

/// A string vector, element by element, as character sequences.
pub open spec fn strings_view(v: Seq<String>) -> Seq<Seq<char>> {
    v.map_values(|s: String| s@)
}

/// Copies a vector of strings.
fn copy_strings(v: &Vec<String>) -> (r: Vec<String>)
    ensures
        strings_view(r@) == strings_view(v@),
{
    let mut out: Vec<String> = Vec::new();
    let mut i: usize = 0;
    while i < v.len()
        invariant
            i <= v.len(),
            strings_view(out@) == strings_view(v@).take(i as int),
        decreases v.len() - i,
    {
        out.push(v[i].clone());
        assert(strings_view(v@).take(i + 1) == strings_view(v@).take(i as int).push(v@[i as int]@));
        i = i + 1;
    }
    assert(strings_view(v@).take(v.len() as int) == strings_view(v@));
    out
}

/// Copies a capability set.
fn copy_set(s: &CapabilitySet) -> (r: CapabilitySet)
    ensures
        r@ == s@,
{
    CapabilitySet { capabilities: s.capabilities.clone() }
}

/// What a derived authority holds: its capabilities and its constraints.
pub struct AuthorityView {
    pub capabilities: Set<u64>,
    pub constraints: Seq<Seq<char>>,
}

/// A restricted authority: capabilities derived from an original authority.
#[derive(Debug, Clone, PartialEq, Eq)]
pub struct DerivedAuthority {
    /// The restricted set of capabilities
    pub capabilities: CapabilitySet,
    /// Optional constraints
    pub constraints: Vec<String>,
}

impl View for DerivedAuthority {
    type V = AuthorityView;

    open spec fn view(&self) -> AuthorityView {
        AuthorityView { capabilities: self.capabilities@, constraints: strings_view(self.constraints@) }
    }
}

impl DerivedAuthority {
    /// Creates a derived authority with the given capabilities and no
    /// constraints.
    pub fn new(capabilities: CapabilitySet) -> (r: Self)
        ensures
            r@ == (AuthorityView { capabilities: capabilities@, constraints: Seq::empty() }),
    {
        let r = DerivedAuthority { capabilities, constraints: Vec::new() };
        assert(strings_view(r.constraints@) =~= Seq::<Seq<char>>::empty());
        r
    }

    /// Creates a derived authority from capability ids.
    pub fn from_capabilities(caps: Vec<u64>) -> (r: Self)
        ensures
            r@ == (AuthorityView { capabilities: caps@.to_set(), constraints: Seq::empty() }),
    {
        Self::new(CapabilitySet::from_capabilities(caps))
    }

    /// Adds a constraint.
    pub fn with_constraint(self, constraint: &str) -> (r: Self)
        ensures
            r@ == (AuthorityView {
                capabilities: self@.capabilities,
                constraints: self@.constraints.push(constraint@),
            }),
    {
        let mut d = self;
        let ghost old_constraints = d.constraints@;
        d.constraints.push(owned(constraint));
        assert(strings_view(d.constraints@) =~= strings_view(old_constraints).push(constraint@));
        d
    }

    /// Copies a derived authority.
    fn duplicate(&self) -> (r: Self)
        ensures
            r@ == self@,
    {
        DerivedAuthority {
            capabilities: copy_set(&self.capabilities),
            constraints: copy_strings(&self.constraints),
        }
    }
}

/// Describes the capabilities removed and added by a derivation.
#[derive(Debug, Clone, PartialEq, Eq)]
pub struct CapabilityDelta {
    /// Capabilities that were removed
    pub removed: Vec<u64>,
    /// Capabilities that were restricted
    pub restricted: Vec<String>,
    /// Capabilities that were added
    pub added: Vec<u64>,
}

impl CapabilityDelta {
    /// Creates an empty delta.
    pub fn new() -> (r: Self)
        ensures
            r.removed@.len() == 0,
            r.restricted@.len() == 0,
            r.added@.len() == 0,
    {
        CapabilityDelta { removed: Vec::new(), restricted: Vec::new(), added: Vec::new() }
    }

    /// The delta between two capability sets: `removed` holds what is in
    /// `before` but not in `after`, `added` what is in `after` but not in
    /// `before`, both in increasing order.
    pub fn from(before: &CapabilitySet, after: &CapabilitySet) -> (r: Self)
        ensures
            r.removed@.to_set() == before@.difference(after@),
            strictly_increasing(r.removed@),
            r.added@.to_set() == after@.difference(before@),
            strictly_increasing(r.added@),
            r.restricted@.len() == 0,
    {
        let removed = before.difference(after).to_vec();
        let added = after.difference(before).to_vec();
        CapabilityDelta { removed, restricted: Vec::new(), added }
    }

    /// Whether the delta records no change.
    pub fn is_empty(&self) -> (r: bool)
        ensures
            r == (self.removed@.len() == 0 && self.restricted@.len() == 0 && self.added@.len()
                == 0),
    {
        self.removed.len() == 0 && self.restricted.len() == 0 && self.added.len() == 0
    }
}

/// What a policy decision says.
pub enum DecisionView {
    Allow { derived: Option<AuthorityView> },
    Deny { reason: Seq<char> },
    Require { action: Seq<char> },
}

/// Decision of a policy engine: allow (optionally with derived authority),
/// deny with a reason, or require an action first.
#[derive(Debug, Clone, PartialEq, Eq)]
pub enum PolicyDecision {
    /// Operation is allowed, optionally with derived authority
    Allow { derived: Option<DerivedAuthority> },
    /// Operation is denied with a reason
    Deny { reason: String },
    /// Operation requires an action before proceeding
    Require { action: String },
}

impl View for PolicyDecision {
    type V = DecisionView;

    open spec fn view(&self) -> DecisionView {
        match self {
            PolicyDecision::Allow { derived } => DecisionView::Allow {
                derived: match derived {
                    Some(d) => Some(d@),
                    None => None,
                },
            },
            PolicyDecision::Deny { reason } => DecisionView::Deny { reason: reason@ },
            PolicyDecision::Require { action } => DecisionView::Require { action: action@ },
        }
    }
}

impl PolicyDecision {
    /// An Allow decision without derived authority.
    pub fn allow() -> (r: Self)
        ensures
            r@ == (DecisionView::Allow { derived: None }),
    {
        PolicyDecision::Allow { derived: None }
    }

    /// An Allow decision with derived authority.
    pub fn allow_with_derived(derived: DerivedAuthority) -> (r: Self)
        ensures
            r@ == (DecisionView::Allow { derived: Some(derived@) }),
    {
        PolicyDecision::Allow { derived: Some(derived) }
    }

    /// A Deny decision with a reason.
    pub fn deny(reason: &str) -> (r: Self)
        ensures
            r@ == (DecisionView::Deny { reason: reason@ }),
    {
        PolicyDecision::Deny { reason: owned(reason) }
    }

    /// A Require decision with an action.
    pub fn require(action: &str) -> (r: Self)
        ensures
            r@ == (DecisionView::Require { action: action@ }),
    {
        PolicyDecision::Require { action: owned(action) }
    }

    /// Whether the decision is Allow (with or without derived authority).
    pub fn is_allow(&self) -> (r: bool)
        ensures
            r == (self@ is Allow),
    {
        match self {
            PolicyDecision::Allow { .. } => true,
            _ => false,
        }
    }

    /// Whether the decision is Deny.
    pub fn is_deny(&self) -> (r: bool)
        ensures
            r == (self@ is Deny),
    {
        match self {
            PolicyDecision::Deny { .. } => true,
            _ => false,
        }
    }

    /// Whether the decision is Require.
    pub fn is_require(&self) -> (r: bool)
        ensures
            r == (self@ is Require),
    {
        match self {
            PolicyDecision::Require { .. } => true,
            _ => false,
        }
    }

    /// The derived authority of an Allow decision, if any.
    pub fn derived_authority(&self) -> (r: Option<&DerivedAuthority>)
        ensures
            r == (match self {
                PolicyDecision::Allow { derived } => match derived {
                    Some(d) => Some(d),
                    None => None,
                },
                _ => None,
            }),
    {
        match self {
            PolicyDecision::Allow { derived } => match derived {
                Some(d) => Some(d),
                None => None,
            },
            _ => None,
        }
    }

    /// Human-readable rendering: "Allow", "Allow (with derived authority)",
    /// "Deny: <reason>" or "Require: <action>".
    pub fn to_string(&self) -> (r: String)
        ensures
            r@ == (match self@ {
                DecisionView::Allow { derived } => if derived is Some {
                    "Allow (with derived authority)"@
                } else {
                    "Allow"@
                },
                DecisionView::Deny { reason } => "Deny: "@ + reason,
                DecisionView::Require { action } => "Require: "@ + action,
            }),
    {
        match self {
            PolicyDecision::Allow { derived } => {
                if derived.is_some() {
                    owned("Allow (with derived authority)")
                } else {
                    owned("Allow")
                }
            },
            PolicyDecision::Deny { reason } => {
                let mut s = owned("Deny: ");
                push_str(&mut s, reason.as_str());
                s
            },
            PolicyDecision::Require { action } => {
                let mut s = owned("Require: ");
                push_str(&mut s, action.as_str());
                s
            },
        }
    }

    /// Copies a decision.
    pub fn duplicate(&self) -> (r: Self)
        ensures
            r@ == self@,
    {
        match self {
            PolicyDecision::Allow { derived } => match derived {
                Some(d) => PolicyDecision::Allow { derived: Some(d.duplicate()) },
                None => PolicyDecision::Allow { derived: None },
            },
            PolicyDecision::Deny { reason } => PolicyDecision::Deny { reason: reason.clone() },
            PolicyDecision::Require { action } => PolicyDecision::Require { action: action.clone() },
        }
    }
}

/// System events that trigger policy evaluation.
#[derive(Debug, Clone, Copy, PartialEq, Eq, Structural)]
pub enum PolicyEvent {
    /// Task/service spawn
    OnSpawn,
    /// Task/service termination
    OnTerminate,
    /// Capability delegation between tasks
    OnCapabilityDelegate,
    /// Pipeline execution start
    OnPipelineStart,
    /// Pipeline stage start
    OnPipelineStageStart,
    /// Pipeline stage end
    OnPipelineStageEnd,
}

impl PolicyEvent {
    /// The name of the event, as its variant is spelled.
    pub fn to_string(&self) -> (r: String)
        ensures
            r@ == (match *self {
                PolicyEvent::OnSpawn => "OnSpawn"@,
                PolicyEvent::OnTerminate => "OnTerminate"@,
                PolicyEvent::OnCapabilityDelegate => "OnCapabilityDelegate"@,
                PolicyEvent::OnPipelineStart => "OnPipelineStart"@,
                PolicyEvent::OnPipelineStageStart => "OnPipelineStageStart"@,
                PolicyEvent::OnPipelineStageEnd => "OnPipelineStageEnd"@,
            }),
    {
        match self {
            PolicyEvent::OnSpawn => owned("OnSpawn"),
            PolicyEvent::OnTerminate => owned("OnTerminate"),
            PolicyEvent::OnCapabilityDelegate => owned("OnCapabilityDelegate"),
            PolicyEvent::OnPipelineStart => owned("OnPipelineStart"),
            PolicyEvent::OnPipelineStageStart => owned("OnPipelineStageStart"),
            PolicyEvent::OnPipelineStageEnd => owned("OnPipelineStageEnd"),
        }
    }
}

/// Key/value metadata, as character sequences.
pub open spec fn metadata_view(v: Seq<(String, String)>) -> Seq<(Seq<char>, Seq<char>)> {
    v.map_values(|p: (String, String)| (p.0@, p.1@))
}

/// Some entry of the metadata has key `k`.
pub open spec fn has_key(md: Seq<(Seq<char>, Seq<char>)>, k: Seq<char>) -> bool {
    exists|i: int| 0 <= i < md.len() && (#[trigger] md[i]).0 == k
}

/// The first entry of the metadata with key `k` is at index `i`.
pub open spec fn is_first_key(md: Seq<(Seq<char>, Seq<char>)>, k: Seq<char>, i: int) -> bool {
    &&& 0 <= i < md.len()
    &&& md[i].0 == k
    &&& forall|j: int| 0 <= j < i ==> (#[trigger] md[j]).0 != k
}

/// Context of a policy evaluation: who acts, on whom, with which
/// capability, in which pipeline, with which extra metadata.
#[derive(Debug, Clone, PartialEq, Eq)]
pub struct PolicyContext {
    /// Execution identity performing the operation
    pub actor_identity: IdentityMetadata,
    /// Target identity (if applicable)
    pub target_identity: Option<IdentityMetadata>,
    /// Capability involved (if any)
    pub capability_id: Option<u64>,
    /// Pipeline id (if applicable)
    pub pipeline_id: Option<PipelineId>,
    /// Stage id (if applicable)
    pub stage_id: Option<StageId>,
    /// Additional context-specific data
    pub metadata: Vec<(String, String)>,
}

impl PolicyContext {
    /// Actor and target are in the same trust domain (no target counts as
    /// the same domain).
    pub open spec fn same_domain_spec(self) -> bool {
        match self.target_identity {
            Some(t) => self.actor_identity.trust_domain@ == t.trust_domain@,
            None => true,
        }
    }

    /// Context for a spawn operation.
    pub fn for_spawn(actor_identity: IdentityMetadata, target_identity: IdentityMetadata) -> (r: Self)
        ensures
            r.actor_identity == actor_identity,
            r.target_identity == Some(target_identity),
            r.capability_id is None,
            r.pipeline_id is None,
            r.stage_id is None,
            r.metadata@.len() == 0,
    {
        PolicyContext {
            actor_identity,
            target_identity: Some(target_identity),
            capability_id: None,
            pipeline_id: None,
            stage_id: None,
            metadata: Vec::new(),
        }
    }

    /// Context for a capability delegation.
    pub fn for_capability_delegation(
        from_identity: IdentityMetadata,
        to_identity: IdentityMetadata,
        cap_id: u64,
    ) -> (r: Self)
        ensures
            r.actor_identity == from_identity,
            r.target_identity == Some(to_identity),
            r.capability_id == Some(cap_id),
            r.pipeline_id is None,
            r.stage_id is None,
            r.metadata@.len() == 0,
    {
        PolicyContext {
            actor_identity: from_identity,
            target_identity: Some(to_identity),
            capability_id: Some(cap_id),
            pipeline_id: None,
            stage_id: None,
            metadata: Vec::new(),
        }
    }

    /// Context for a pipeline execution.
    pub fn for_pipeline(actor_identity: IdentityMetadata, pipeline_id: PipelineId) -> (r: Self)
        ensures
            r.actor_identity == actor_identity,
            r.target_identity is None,
            r.capability_id is None,
            r.pipeline_id == Some(pipeline_id),
            r.stage_id is None,
            r.metadata@.len() == 0,
    {
        PolicyContext {
            actor_identity,
            target_identity: None,
            capability_id: None,
            pipeline_id: Some(pipeline_id),
            stage_id: None,
            metadata: Vec::new(),
        }
    }

    /// Appends a metadata entry.
    pub fn with_metadata(self, key: &str, value: &str) -> (r: Self)
        ensures
            r.actor_identity == self.actor_identity,
            r.target_identity == self.target_identity,
            r.capability_id == self.capability_id,
            r.pipeline_id == self.pipeline_id,
            r.stage_id == self.stage_id,
            metadata_view(r.metadata@) == metadata_view(self.metadata@).push((key@, value@)),
    {
        let mut c = self;
        let ghost old_md = c.metadata@;
        c.metadata.push((owned(key), owned(value)));
        assert(metadata_view(c.metadata@) =~= metadata_view(old_md).push((key@, value@)));
        c
    }

    /// Whether actor and target are in the same trust domain (true when
    /// there is no target).
    pub fn is_same_domain(&self) -> (r: bool)
        ensures
            r == self.same_domain_spec(),
    {
        match &self.target_identity {
            Some(target) => self.actor_identity.same_domain(target),
            None => true,
        }
    }

    /// Whether actor and target are in different trust domains.
    pub fn is_cross_domain(&self) -> (r: bool)
        ensures
            r == !self.same_domain_spec(),
    {
        !self.is_same_domain()
    }
}

/// A policy engine: evaluates an event in a context and decides.
/// Evaluation is deterministic and side-effect free: the decision is a
/// function of the engine, the event and the context.
pub trait PolicyEngine {
    /// The decision this engine makes for an event in a context.
    spec fn decision(&self, event: PolicyEvent, context: PolicyContext) -> DecisionView;

    /// Evaluates the policy for the event and context.
    fn evaluate(&self, event: PolicyEvent, context: &PolicyContext) -> (r: PolicyDecision)
        ensures
            r@ == self.decision(event, *context),
    ;

    /// The name of this policy engine (for logging and audit).
    fn name(&self) -> &str;
}

/// Always allows every operation.
#[derive(Debug, Clone)]
pub struct NoOpPolicy;

impl PolicyEngine for NoOpPolicy {
    open spec fn decision(&self, event: PolicyEvent, context: PolicyContext) -> DecisionView {
        DecisionView::Allow { derived: None }
    }

    fn evaluate(&self, event: PolicyEvent, context: &PolicyContext) -> (r: PolicyDecision) {
        PolicyDecision::allow()
    }

    fn name(&self) -> (r: &str)
        ensures
            r@ == "NoOpPolicy"@,
    {
        "NoOpPolicy"
    }
}

/// Enforces trust boundaries: the sandbox domain cannot spawn System
/// services nor services in the core domain, and cross-domain capability
/// delegation requires explicit approval.
#[derive(Debug, Clone)]
pub struct TrustDomainPolicy;

/// The decision of the trust domain policy.
pub open spec fn trust_domain_decision(event: PolicyEvent, context: PolicyContext) -> DecisionView {
    match event {
        PolicyEvent::OnSpawn => {
            let sandbox = context.actor_identity.trust_domain@ == "sandbox"@;
            if sandbox && context.target_identity is Some && (context.target_identity->0).kind
                == IdentityKind::System {
                DecisionView::Deny { reason: "Sandbox domain cannot spawn System services"@ }
            } else if sandbox && context.target_identity is Some && (
            context.target_identity->0).trust_domain@ == "core"@ {
                DecisionView::Deny {
                    reason: "Sandbox domain cannot spawn services in core domain"@,
                }
            } else {
                DecisionView::Allow { derived: None }
            }
        },
        PolicyEvent::OnCapabilityDelegate => {
            if !context.same_domain_spec() {
                DecisionView::Require {
                    action: "Cross-domain capability delegation requires explicit approval"@,
                }
            } else {
                DecisionView::Allow { derived: None }
            }
        },
        _ => DecisionView::Allow { derived: None },
    }
}

impl PolicyEngine for TrustDomainPolicy {
    open spec fn decision(&self, event: PolicyEvent, context: PolicyContext) -> DecisionView {
        trust_domain_decision(event, context)
    }

    fn evaluate(&self, event: PolicyEvent, context: &PolicyContext) -> (r: PolicyDecision) {
        match event {
            PolicyEvent::OnSpawn => {
                let sandbox = TrustDomain::sandbox();
                let is_sandbox = context.actor_identity.trust_domain.same_as(&sandbox);
                if is_sandbox {
                    match &context.target_identity {
                        Some(t) => {
                            if t.kind == IdentityKind::System {
                                return PolicyDecision::deny(
                                    "Sandbox domain cannot spawn System services",
                                );
                            }
                            let core = TrustDomain::core_domain();
                            if t.trust_domain.same_as(&core) {
                                return PolicyDecision::deny(
                                    "Sandbox domain cannot spawn services in core domain",
                                );
                            }
                        },
                        None => {},
                    }
                }
                PolicyDecision::allow()
            },
            PolicyEvent::OnCapabilityDelegate => {
                if context.is_cross_domain() {
                    return PolicyDecision::require(
                        "Cross-domain capability delegation requires explicit approval",
                    );
                }
                PolicyDecision::allow()
            },
            _ => PolicyDecision::allow(),
        }
    }

    fn name(&self) -> (r: &str)
        ensures
            r@ == "TrustDomainPolicy"@,
    {
        "TrustDomainPolicy"
    }
}

/// Enforces pipeline safety: pipelines in the user domain must specify a
/// timeout, and pipelines with more stages than allowed need supervision.
#[derive(Debug, Clone, PartialEq, Eq, Structural)]
pub struct PipelineSafetyPolicy {
    /// Maximum stages allowed without supervision
    pub max_stages_unsupervised: usize,
}

/// The message that asks for supervision of a pipeline with `stages`
/// stages.
pub open spec fn supervision_message(stages: nat, max: nat) -> Seq<char> {
    "Pipelines with "@ + decimal(stages) + " stages require supervision (max unsupervised: "@
        + decimal(max) + ")"@
}

/// The decision of the pipeline safety policy.
pub open spec fn pipeline_safety_decision(max: usize, event: PolicyEvent, context: PolicyContext) -> DecisionView {
    let md = metadata_view(context.metadata@);
    if event == PolicyEvent::OnPipelineStart {
        if context.actor_identity.trust_domain@ == "user"@ && !has_key(md, "timeout_ms"@) {
            DecisionView::Require { action: "Pipelines in user domain must specify a timeout"@ }
        } else if exists|i: int| is_first_key(md, "stage_count"@, i) {
            let i = choose|i: int| is_first_key(md, "stage_count"@, i);
            match parse_unsigned_spec(encode_utf8(md[i].1), usize::MAX as nat) {
                Some(n) => if n > max {
                    DecisionView::Require { action: supervision_message(n, max as nat) }
                } else {
                    DecisionView::Allow { derived: None }
                },
                None => DecisionView::Allow { derived: None },
            }
        } else {
            DecisionView::Allow { derived: None }
        }
    } else {
        DecisionView::Allow { derived: None }
    }
}

impl PipelineSafetyPolicy {
    /// A pipeline safety policy with the default limit of five stages.
    pub fn new() -> (r: Self)
        ensures
            r.max_stages_unsupervised == 5,
    {
        PipelineSafetyPolicy { max_stages_unsupervised: 5 }
    }

    /// A pipeline safety policy with a custom stage limit.
    pub fn with_max_stages(max_stages: usize) -> (r: Self)
        ensures
            r.max_stages_unsupervised == max_stages,
    {
        PipelineSafetyPolicy { max_stages_unsupervised: max_stages }
    }
}

/// Whether some metadata entry has the key `key`.
fn metadata_has_key(md: &Vec<(String, String)>, key: &String) -> (r: bool)
    ensures
        r == has_key(metadata_view(md@), key@),
{
    let ghost v = metadata_view(md@);
    let mut i: usize = 0;
    while i < md.len()
        invariant
            i <= md.len(),
            v == metadata_view(md@),
            forall|j: int| 0 <= j < i ==> (#[trigger] v[j]).0 != key@,
        decreases md.len() - i,
    {
        if md[i].0 == *key {
            assert(v[i as int].0 == key@);
            return true;
        }
        i = i + 1;
    }
    false
}

/// The index of the first metadata entry with key `key`.
fn metadata_first_key(md: &Vec<(String, String)>, key: &String) -> (r: Option<usize>)
    ensures
        match r {
            Some(i) => is_first_key(metadata_view(md@), key@, i as int),
            None => !(exists|i: int| is_first_key(metadata_view(md@), key@, i)),
        },
{
    let ghost v = metadata_view(md@);
    let mut i: usize = 0;
    while i < md.len()
        invariant
            i <= md.len(),
            v == metadata_view(md@),
            forall|j: int| 0 <= j < i ==> (#[trigger] v[j]).0 != key@,
        decreases md.len() - i,
    {
        if md[i].0 == *key {
            return Some(i);
        }
        i = i + 1;
    }
    None
}

impl PolicyEngine for PipelineSafetyPolicy {
    open spec fn decision(&self, event: PolicyEvent, context: PolicyContext) -> DecisionView {
        pipeline_safety_decision(self.max_stages_unsupervised, event, context)
    }

    fn evaluate(&self, event: PolicyEvent, context: &PolicyContext) -> (r: PolicyDecision) {
        let ghost md = metadata_view(context.metadata@);
        if event == PolicyEvent::OnPipelineStart {
            let user = TrustDomain::user();
            if context.actor_identity.trust_domain.same_as(&user) {
                let timeout_key = owned("timeout_ms");
                if !metadata_has_key(&context.metadata, &timeout_key) {
                    return PolicyDecision::require(
                        "Pipelines in user domain must specify a timeout",
                    );
                }
            }
            let count_key = owned("stage_count");
            match metadata_first_key(&context.metadata, &count_key) {
                Some(i) => {
                    proof {
                        assert(is_first_key(md, "stage_count"@, i as int));
                        let k = choose|k: int| is_first_key(md, "stage_count"@, k);
                        assert(is_first_key(md, "stage_count"@, k));
                        assert(k == i as int) by {
                            if k < i as int {
                                assert(md[k].0 != "stage_count"@);
                            } else if k > i as int {
                                assert(md[i as int].0 != "stage_count"@);
                            }
                        }
                    }
                    let value = context.metadata[i].1.as_str();
                    match parse_unsigned(value, usize::MAX as u64) {
                        Some(n) => {
                            if n > self.max_stages_unsupervised as u64 {
                                let mut msg = owned("Pipelines with ");
                                push_decimal(&mut msg, n);
                                push_str(&mut msg, " stages require supervision (max unsupervised: ");
                                push_decimal(&mut msg, self.max_stages_unsupervised as u64);
                                push_str(&mut msg, ")");
                                return PolicyDecision::Require { action: msg };
                            }
                        },
                        None => {},
                    }
                },
                None => {},
            }
            PolicyDecision::allow()
        } else {
            PolicyDecision::allow()
        }
    }

    fn name(&self) -> (r: &str)
        ensures
            r@ == "PipelineSafetyPolicy"@,
    {
        "PipelineSafetyPolicy"
    }
}

/// Where a composition of decisions stands: the first denial, the actions
/// required so far, and the most restrictive derived authority so far.
pub struct ComposeState {
    pub deny: Option<Seq<char>>,
    pub required: Seq<Seq<char>>,
    pub derived: Option<AuthorityView>,
}

/// The state before any decision.
pub open spec fn compose_init() -> ComposeState {
    ComposeState { deny: None, required: Seq::empty(), derived: None }
}

/// Takes one more decision into account: a denial is final, a requirement
/// is collected, and derived authorities are intersected.
pub open spec fn compose_step(st: ComposeState, d: DecisionView) -> ComposeState {
    if st.deny is Some {
        st
    } else {
        match d {
            DecisionView::Deny { reason } => ComposeState { deny: Some(reason), ..st },
            DecisionView::Require { action } => ComposeState {
                required: st.required.push(action),
                ..st
            },
            DecisionView::Allow { derived } => match derived {
                Some(nd) => ComposeState {
                    derived: Some(
                        match st.derived {
                            None => nd,
                            Some(ex) => AuthorityView {
                                capabilities: ex.capabilities.intersect(nd.capabilities),
                                constraints: Seq::empty(),
                            },
                        },
                    ),
                    ..st
                },
                None => st,
            },
        }
    }
}

/// The state after a sequence of decisions, taken in order.
pub open spec fn compose_fold(ds: Seq<DecisionView>) -> ComposeState
    decreases ds.len(),
{
    if ds.len() == 0 {
        compose_init()
    } else {
        compose_step(compose_fold(ds.drop_last()), ds.last())
    }
}

/// The combined decision: the first denial wins; otherwise all required
/// actions, joined by "; "; otherwise allow with the most restrictive
/// derived authority.
pub open spec fn combine_decisions(ds: Seq<DecisionView>) -> DecisionView {
    let st = compose_fold(ds);
    if st.deny is Some {
        DecisionView::Deny { reason: st.deny->0 }
    } else if st.required.len() > 0 {
        DecisionView::Require { action: join(st.required, "; "@) }
    } else {
        DecisionView::Allow { derived: st.derived }
    }
}

/// Once a denial has been seen, later decisions change nothing.
pub proof fn lemma_compose_deny_sticky(ds: Seq<DecisionView>, k: int)
    requires
        0 <= k <= ds.len(),
        compose_fold(ds.take(k)).deny is Some,
    ensures
        compose_fold(ds) == compose_fold(ds.take(k)),
    decreases ds.len() - k,
{
    if k < ds.len() {
        assert(ds.take(k + 1).drop_last() == ds.take(k));
        lemma_compose_deny_sticky(ds, k + 1);
    } else {
        assert(ds.take(k) == ds);
    }
}

/// One composed policy engine.
struct PolicySlot {
    engine: Box<dyn PolicyEngine>,
}

/// Evaluates several policies in order and combines their decisions.
pub struct ComposedPolicy {
    policies: Vec<PolicySlot>,
}

impl ComposedPolicy {
    /// The decisions of the composed policies, in order.
    pub closed spec fn decisions(&self, event: PolicyEvent, context: PolicyContext) -> Seq<DecisionView> {
        Seq::new(self.policies@.len(), |i: int| self.policies@[i].engine.decision(event, context))
    }

    /// The number of composed policies.
    pub closed spec fn policy_count(&self) -> nat {
        self.policies@.len()
    }

    /// A composition of no policies.
    pub fn new() -> (r: Self)
        ensures
            r.policy_count() == 0,
    {
        ComposedPolicy { policies: Vec::new() }
    }

    /// Adds a policy after the existing ones: the decisions of the earlier
    /// policies come first, unchanged.
    pub fn add_policy(self, policy: Box<dyn PolicyEngine>) -> (r: Self)
        ensures
            r.policy_count() == self.policy_count() + 1,
            forall|e: PolicyEvent, c: PolicyContext| #[trigger] r.decisions(e, c).drop_last()
                == self.decisions(e, c),
    {
        let mut policies = self.policies;
        let slot = PolicySlot { engine: policy };
        let ghost g = slot;
        policies.push(slot);
        let r = ComposedPolicy { policies };
        assert(r.policies@ == self.policies@.push(g));
        proof {
            vstd::seq::axiom_seq_push_len(self.policies@, g);
        }
        assert forall|e: PolicyEvent, c: PolicyContext| #[trigger] r.decisions(e, c).drop_last()
            == self.decisions(e, c) by {
            let old_ds = self.decisions(e, c);
            let new_ds = r.decisions(e, c);
            assert forall|k: int| 0 <= k < old_ds.len() implies new_ds.drop_last()[k] == old_ds[k] by {
                vstd::seq::axiom_seq_push_index_different(self.policies@, g, k);
            }
            assert(new_ds.drop_last() =~= old_ds);
        }
        r
    }

    /// Evaluates all policies in order and combines their decisions: the
    /// first Deny wins (later policies are not evaluated); otherwise the
    /// Require actions are joined; otherwise Allow, with the intersection of
    /// the derived authorities.
    pub fn evaluate_all(&self, event: PolicyEvent, context: &PolicyContext) -> (r: PolicyDecision)
        ensures
            r@ == combine_decisions(self.decisions(event, *context)),
    {
        let ghost ds = self.decisions(event, *context);
        let mut required: Vec<String> = Vec::new();
        let mut most: Option<DerivedAuthority> = None;
        let mut i: usize = 0;
        while i < self.policies.len()
            invariant
                i <= self.policies.len(),
                ds == self.decisions(event, *context),
                ds.len() == self.policies@.len(),
                compose_fold(ds.take(i as int)).deny is None,
                strings_view(required@) == compose_fold(ds.take(i as int)).required,
                match most {
                    Some(m) => compose_fold(ds.take(i as int)).derived == Some(m@),
                    None => compose_fold(ds.take(i as int)).derived is None,
                },
            decreases self.policies.len() - i,
        {
            let d = self.policies[i].engine.evaluate(event, context);
            assert(ds[i as int] == d@);
            assert(ds.take(i + 1).drop_last() == ds.take(i as int));
            assert(ds.take(i + 1).last() == d@);
            match d {
                PolicyDecision::Deny { reason } => {
                    proof {
                        lemma_compose_deny_sticky(ds, i + 1);
                    }
                    return PolicyDecision::Deny { reason };
                },
                PolicyDecision::Require { action } => {
                    let ghost old_required = required@;
                    required.push(action);
                    assert(strings_view(required@) =~= strings_view(old_required).push(d@->action));
                },
                PolicyDecision::Allow { derived } => {
                    match derived {
                        Some(new_derived) => {
                            most = Some(
                                match most {
                                    None => new_derived,
                                    Some(existing) => {
                                        let inter = existing.capabilities.intersection(
                                            &new_derived.capabilities,
                                        );
                                        DerivedAuthority::new(inter)
                                    },
                                },
                            );
                        },
                        None => {},
                    }
                },
            }
            i = i + 1;
        }
        assert(ds.take(i as int) == ds);
        if required.len() > 0 {
            let joined = join_strings(&required, "; ");
            PolicyDecision::Require { action: joined }
        } else {
            PolicyDecision::Allow { derived: most }
        }
    }

    /// Evaluates all policies and reports each decision with the policy's
    /// name, together with the combined decision.
    pub fn evaluate_with_report(&self, event: PolicyEvent, context: &PolicyContext) -> (r: PolicyDecisionReport)
        ensures
            r.decision@ == combine_decisions(self.decisions(event, *context)),
            r.evaluated_policies@.len() == self.policy_count(),
            forall|k: int| 0 <= k < r.evaluated_policies@.len() ==> (#[trigger] r.evaluated_policies@[k]).decision@
                == self.decisions(event, *context)[k],
            r.deny_reason_view() == first_deny(self.decisions(event, *context)),
            strings_view(r.required_actions@) == require_actions(self.decisions(event, *context)),
    {
        let ghost ds = self.decisions(event, *context);
        let mut evaluations: Vec<(String, PolicyDecision)> = Vec::new();
        let mut i: usize = 0;
        while i < self.policies.len()
            invariant
                i <= self.policies.len(),
                ds == self.decisions(event, *context),
                ds.len() == self.policies@.len(),
                evaluations@.len() == i,
                forall|k: int| 0 <= k < i ==> (#[trigger] evaluations@[k]).1@ == ds[k],
            decreases self.policies.len() - i,
        {
            let decision = self.policies[i].engine.evaluate(event, context);
            let name = owned(self.policies[i].engine.name());
            evaluations.push((name, decision));
            i = i + 1;
        }
        let final_decision = self.evaluate_all(event, context);
        let ghost evs = evaluations@;
        assert(evs.map_values(|p: (String, PolicyDecision)| p.1@) =~= ds);
        PolicyDecisionReport::from_composed(evaluations, final_decision)
    }
}

impl PolicyEngine for ComposedPolicy {
    open spec fn decision(&self, event: PolicyEvent, context: PolicyContext) -> DecisionView {
        combine_decisions(self.decisions(event, context))
    }

    fn evaluate(&self, event: PolicyEvent, context: &PolicyContext) -> (r: PolicyDecision) {
        self.evaluate_all(event, context)
    }

    fn name(&self) -> &str {
        "ComposedPolicy"
    }
}

/// Joins strings with a separator.
fn join_strings(parts: &Vec<String>, sep: &str) -> (r: String)
    ensures
        r@ == join(strings_view(parts@), sep@),
{
    let mut s = String::new();
    let ghost prefix = s@;
    let mut i: usize = 0;
    assert(strings_view(parts@).take(0) =~= Seq::<Seq<char>>::empty());
    while i < parts.len()
        invariant
            i <= parts.len(),
            prefix == Seq::<char>::empty(),
            s@ == prefix + join(strings_view(parts@).take(i as int), sep@),
        decreases parts.len() - i,
    {
        push_joined(
            &mut s,
            Ghost(prefix),
            Ghost(strings_view(parts@).take(i as int)),
            i,
            sep,
            parts[i].as_str(),
        );
        assert(strings_view(parts@).take(i + 1) =~= strings_view(parts@).take(i as int).push(
            parts@[i as int]@,
        ));
        i = i + 1;
    }
    assert(strings_view(parts@).take(parts.len() as int) == strings_view(parts@));
    assert(prefix + join(strings_view(parts@), sep@) == join(strings_view(parts@), sep@));
    s
}

/// The reason of the first denial among the decisions.
pub open spec fn first_deny(ds: Seq<DecisionView>) -> Option<Seq<char>>
    decreases ds.len(),
{
    if ds.len() == 0 {
        None
    } else {
        match first_deny(ds.drop_last()) {
            Some(r) => Some(r),
            None => match ds.last() {
                DecisionView::Deny { reason } => Some(reason),
                _ => None,
            },
        }
    }
}

/// The actions of all Require decisions, in order.
pub open spec fn require_actions(ds: Seq<DecisionView>) -> Seq<Seq<char>>
    decreases ds.len(),
{
    if ds.len() == 0 {
        Seq::empty()
    } else {
        match ds.last() {
            DecisionView::Require { action } => require_actions(ds.drop_last()).push(action),
            _ => require_actions(ds.drop_last()),
        }
    }
}

/// One policy's decision in a report.
#[derive(Debug, Clone, PartialEq, Eq)]
pub struct PolicyEvaluation {
    /// Name of the policy engine
    pub policy_name: String,
    /// Decision made by this policy
    pub decision: PolicyDecision,
}

/// A policy decision with its explanation: the individual evaluations,
/// the denial reason or required actions, and capability changes.
#[derive(Debug, Clone, PartialEq, Eq)]
pub struct PolicyDecisionReport {
    /// Final aggregated decision
    pub decision: PolicyDecision,
    /// Individual policy evaluations
    pub evaluated_policies: Vec<PolicyEvaluation>,
    /// Final deny reason (if decision is Deny)
    pub deny_reason: Option<String>,
    /// Required actions (if decision is Require)
    pub required_actions: Vec<String>,
    /// Input capabilities (before policy evaluation)
    pub input_capabilities: Option<CapabilitySet>,
    /// Output capabilities (after policy evaluation, if derived)
    pub output_capabilities: Option<CapabilitySet>,
    /// Capability delta (changes made by policy)
    pub capability_delta: Option<CapabilityDelta>,
}

impl PolicyDecisionReport {
    /// The denial reason, as a character sequence.
    pub open spec fn deny_reason_view(self) -> Option<Seq<char>> {
        match self.deny_reason {
            Some(r) => Some(r@),
            None => None,
        }
    }

    /// A report of a single policy's decision.
    pub fn new(policy_name: &str, decision: PolicyDecision) -> (r: Self)
        ensures
            r.decision@ == decision@,
            r.evaluated_policies@.len() == 1,
            r.evaluated_policies@[0].policy_name@ == policy_name@,
            r.evaluated_policies@[0].decision@ == decision@,
            r.deny_reason_view() == first_deny(seq![decision@]),
            strings_view(r.required_actions@) == require_actions(seq![decision@]),
            r.input_capabilities is None,
            r.output_capabilities is None,
            r.capability_delta is None,
    {
        let ghost ds = seq![decision@];
        assert(ds.drop_last() =~= Seq::<DecisionView>::empty());
        assert(ds.last() == decision@);
        assert(first_deny(Seq::<DecisionView>::empty()) is None);
        assert(require_actions(Seq::<DecisionView>::empty()) =~= Seq::<Seq<char>>::empty());
        let (deny_reason, required_actions) = match &decision {
            PolicyDecision::Deny { reason } => (Some(reason.clone()), Vec::new()),
            PolicyDecision::Require { action } => {
                let mut v: Vec<String> = Vec::new();
                v.push(action.clone());
                (None, v)
            },
            PolicyDecision::Allow { .. } => (None, Vec::new()),
        };
        assert(strings_view(required_actions@) =~= require_actions(ds));
        let copy = decision.duplicate();
        let mut evaluated: Vec<PolicyEvaluation> = Vec::new();
        evaluated.push(PolicyEvaluation { policy_name: owned(policy_name), decision });
        PolicyDecisionReport {
            decision: copy,
            evaluated_policies: evaluated,
            deny_reason,
            required_actions,
            input_capabilities: None,
            output_capabilities: None,
            capability_delta: None,
        }
    }

    /// Records the input capabilities, the output capabilities and, when
    /// there is an output, the delta between them.
    pub fn with_capabilities(self, input: CapabilitySet, output: Option<CapabilitySet>) -> (r: Self)
        ensures
            r.decision == self.decision,
            r.evaluated_policies == self.evaluated_policies,
            r.deny_reason == self.deny_reason,
            r.required_actions == self.required_actions,
            r.input_capabilities == Some(input),
            r.output_capabilities == output,
            match output {
                Some(out) => r.capability_delta matches Some(d) && d.removed@.to_set()
                    == input@.difference(out@) && d.added@.to_set() == out@.difference(input@)
                    && strictly_increasing(d.removed@) && strictly_increasing(d.added@),
                None => r.capability_delta is None,
            },
    {
        let delta = match &output {
            Some(out) => Some(CapabilityDelta::from(&input, out)),
            None => None,
        };
        let mut rep = self;
        rep.input_capabilities = Some(input);
        rep.output_capabilities = output;
        rep.capability_delta = delta;
        rep
    }

    /// A report of a composed evaluation: each policy's decision, the first
    /// denial reason, all required actions, and the final decision.
    pub fn from_composed(evaluations: Vec<(String, PolicyDecision)>, final_decision: PolicyDecision) -> (r: Self)
        ensures
            r.decision == final_decision,
            r.evaluated_policies@.len() == evaluations@.len(),
            forall|k: int| 0 <= k < evaluations@.len() ==> (#[trigger] r.evaluated_policies@[k]).policy_name
                == evaluations@[k].0 && r.evaluated_policies@[k].decision == evaluations@[k].1,
            r.deny_reason_view() == first_deny(evaluations@.map_values(|p: (String, PolicyDecision)| p.1@)),
            strings_view(r.required_actions@) == require_actions(evaluations@.map_values(|p: (String, PolicyDecision)| p.1@)),
            r.input_capabilities is None,
            r.output_capabilities is None,
            r.capability_delta is None,
    {
        let ghost ds = evaluations@.map_values(|p: (String, PolicyDecision)| p.1@);
        let mut deny_reason: Option<String> = None;
        let mut required_actions: Vec<String> = Vec::new();
        let mut i: usize = 0;
        while i < evaluations.len()
            invariant
                i <= evaluations.len(),
                ds == evaluations@.map_values(|p: (String, PolicyDecision)| p.1@),
                (match deny_reason {
                    Some(r) => Some(r@),
                    None => None,
                }) == first_deny(ds.take(i as int)),
                strings_view(required_actions@) == require_actions(ds.take(i as int)),
            decreases evaluations.len() - i,
        {
            assert(ds.take(i + 1).drop_last() == ds.take(i as int));
            assert(ds.take(i + 1).last() == evaluations@[i as int].1@);
            match &evaluations[i].1 {
                PolicyDecision::Deny { reason } => {
                    if deny_reason.is_none() {
                        deny_reason = Some(reason.clone());
                    }
                },
                PolicyDecision::Require { action } => {
                    let ghost old_req = required_actions@;
                    required_actions.push(action.clone());
                    assert(strings_view(required_actions@) =~= strings_view(old_req).push(action@));
                },
                PolicyDecision::Allow { .. } => {},
            }
            i = i + 1;
        }
        assert(ds.take(evaluations.len() as int) == ds);
        let ghost evs = evaluations@;
        let mut evaluated: Vec<PolicyEvaluation> = Vec::new();
        let mut rest = evaluations;
        while rest.len() > 0
            invariant
                evaluated@.len() + rest@.len() == evs.len(),
                rest@ == evs.skip(evaluated@.len() as int),
                forall|m: int| 0 <= m < evaluated@.len() ==> (#[trigger] evaluated@[m]).policy_name
                    == evs[m].0 && evaluated@[m].decision == evs[m].1,
            decreases rest@.len(),
        {
            let ghost n = evaluated@.len();
            let (policy_name, decision) = rest.remove(0);
            assert(evs[n as int] == (policy_name, decision));
            evaluated.push(PolicyEvaluation { policy_name, decision });
            assert(rest@ =~= evs.skip(evaluated@.len() as int));
        }
        PolicyDecisionReport {
            decision: final_decision,
            evaluated_policies: evaluated,
            deny_reason,
            required_actions,
            input_capabilities: None,
            output_capabilities: None,
            capability_delta: None,
        }
    }

    /// Whether the final decision is Allow.
    pub fn is_allow(&self) -> (r: bool)
        ensures
            r == (self.decision@ is Allow),
    {
        self.decision.is_allow()
    }

    /// Whether the final decision is Deny.
    pub fn is_deny(&self) -> (r: bool)
        ensures
            r == (self.decision@ is Deny),
    {
        self.decision.is_deny()
    }

    /// Whether the final decision is Require.
    pub fn is_require(&self) -> (r: bool)
        ensures
            r == (self.decision@ is Require),
    {
        self.decision.is_require()
    }
}

/// The composition's denial is the first denial among the decisions.
pub proof fn lemma_compose_deny_is_first(ds: Seq<DecisionView>)
    ensures
        compose_fold(ds).deny == first_deny(ds),
    decreases ds.len(),
{
    if ds.len() > 0 {
        lemma_compose_deny_is_first(ds.drop_last());
    }
}

/// Without any denial, the composition collects exactly the actions of the
/// Require decisions, in order.
pub proof fn lemma_compose_required(ds: Seq<DecisionView>)
    requires
        first_deny(ds) is None,
    ensures
        compose_fold(ds).required == require_actions(ds),
    decreases ds.len(),
{
    if ds.len() > 0 {
        lemma_compose_deny_is_first(ds.drop_last());
        lemma_compose_required(ds.drop_last());
    }
}

/// The derived authority of a composition is never larger than any derived
/// authority among the decisions: composing policies cannot escalate.
pub proof fn lemma_compose_derived_restricts(ds: Seq<DecisionView>, i: int)
    requires
        0 <= i < ds.len(),
        first_deny(ds) is None,
        ds[i] matches DecisionView::Allow { derived } && derived is Some,
    ensures
        compose_fold(ds).derived is Some,
        (compose_fold(ds).derived->0).capabilities.subset_of((ds[i]->derived->0).capabilities),
    decreases ds.len(),
{
    let prev = ds.drop_last();
    lemma_compose_deny_is_first(prev);
    lemma_compose_deny_is_first(ds);
    if i < ds.len() - 1 {
        assert(prev[i] == ds[i]);
        lemma_compose_derived_restricts(prev, i);
    }
}

/// The combined decision of policies: the first Deny wins with its reason;
/// without a Deny, any Require yields a Require of all required actions
/// joined by "; "; only when every policy allows is the result an Allow.
pub proof fn lemma_combine_decisions(ds: Seq<DecisionView>)
    ensures
        first_deny(ds) matches Some(reason) ==> combine_decisions(ds) == (DecisionView::Deny {
            reason,
        }),
        first_deny(ds) is None && require_actions(ds).len() > 0 ==> combine_decisions(ds) == (
        DecisionView::Require { action: join(require_actions(ds), "; "@) }),
        combine_decisions(ds) is Allow <==> (first_deny(ds) is None && require_actions(ds).len()
            == 0),
{
    lemma_compose_deny_is_first(ds);
    if first_deny(ds) is None {
        lemma_compose_required(ds);
    }
}

/// A sequence of decisions holds a Deny exactly when it has a first Deny.
pub proof fn lemma_first_deny_exists(ds: Seq<DecisionView>)
    ensures
        first_deny(ds) is Some <==> exists|i: int| 0 <= i < ds.len() && (#[trigger] ds[i]) is Deny,
    decreases ds.len(),
{
    if ds.len() > 0 {
        let prev = ds.drop_last();
        lemma_first_deny_exists(prev);
        if first_deny(prev) is Some {
            let i = choose|i: int| 0 <= i < prev.len() && (#[trigger] prev[i]) is Deny;
            assert(ds[i] == prev[i]);
        }
        if ds.last() is Deny {
            assert(ds[ds.len() - 1] is Deny);
        }
        assert forall|i: int| 0 <= i < ds.len() - 1 implies ds[i] == prev[i] by {}
    }
}

/// Only pipelines started in the user trust domain must name a timeout:
/// a start by any other actor whose metadata gives no stage count is
/// allowed, whether or not it gives `timeout_ms`; a start in the user
/// domain without `timeout_ms` is asked for one. Events other than a
/// pipeline start are always allowed.
pub proof fn lemma_pipeline_timeout_rule(policy: PipelineSafetyPolicy, event: PolicyEvent, context: PolicyContext)
    ensures
        ({
            let md = metadata_view(context.metadata@);
            &&& event == PolicyEvent::OnPipelineStart && context.actor_identity.trust_domain@ != "user"@
                && !has_key(md, "stage_count"@) ==> policy.decision(event, context) == (DecisionView::Allow {
                derived: None,
            })
            &&& event == PolicyEvent::OnPipelineStart && context.actor_identity.trust_domain@ == "user"@ && !has_key(
                md,
                "timeout_ms"@,
            ) ==> policy.decision(event, context) == (DecisionView::Require {
                action: "Pipelines in user domain must specify a timeout"@,
            })
            &&& event != PolicyEvent::OnPipelineStart ==> policy.decision(event, context) == (DecisionView::Allow {
                derived: None,
            })
        }),
{
    let md = metadata_view(context.metadata@);
    if !has_key(md, "stage_count"@) {
        assert forall|i: int| !is_first_key(md, "stage_count"@, i) by {
            if is_first_key(md, "stage_count"@, i) {
                assert(md[i].0 == "stage_count"@);
            }
        }
    }
}

/// A pipeline start whose first stage count is read as the number `n`
/// (and that needs no timeout) is asked for supervision exactly when `n`
/// is above the policy's limit, and is allowed otherwise.
pub proof fn lemma_pipeline_stage_rule(policy: PipelineSafetyPolicy, context: PolicyContext, i: int, n: nat)
    requires
        is_first_key(metadata_view(context.metadata@), "stage_count"@, i),
        parse_unsigned_spec(encode_utf8(metadata_view(context.metadata@)[i].1), usize::MAX as nat) == Some(n),
        context.actor_identity.trust_domain@ != "user"@ || has_key(metadata_view(context.metadata@), "timeout_ms"@),
    ensures
        n > policy.max_stages_unsupervised ==> policy.decision(PolicyEvent::OnPipelineStart, context) == (
        DecisionView::Require { action: supervision_message(n, policy.max_stages_unsupervised as nat) }),
        n <= policy.max_stages_unsupervised ==> policy.decision(PolicyEvent::OnPipelineStart, context) == (
        DecisionView::Allow { derived: None }),
{
    let md = metadata_view(context.metadata@);
    let k = choose|k: int| is_first_key(md, "stage_count"@, k);
    assert(k == i) by {
        if k < i {
            assert(md[k].0 != "stage_count"@);
        } else if k > i {
            assert(md[i].0 != "stage_count"@);
        }
    }
}

/// The trust domain policy denies only spawns by a sandbox actor, and
/// only of a System service or of a service in the core domain; those it
/// always denies. Delegating a capability within one trust domain is
/// allowed, across domains it needs approval.
pub proof fn lemma_trust_domain_rules(policy: TrustDomainPolicy, event: PolicyEvent, context: PolicyContext)
    ensures
        policy.decision(event, context) is Deny ==> event == PolicyEvent::OnSpawn
            && context.actor_identity.trust_domain@ == "sandbox"@ && context.target_identity is Some && ((
        context.target_identity->0).kind == IdentityKind::System || (context.target_identity->0).trust_domain@
            == "core"@),
        event == PolicyEvent::OnSpawn && context.actor_identity.trust_domain@ == "sandbox"@
            && context.target_identity is Some && ((context.target_identity->0).kind == IdentityKind::System || (
        context.target_identity->0).trust_domain@ == "core"@) ==> policy.decision(event, context) is Deny,
        event == PolicyEvent::OnCapabilityDelegate ==> (policy.decision(event, context) is Allow
            <==> context.same_domain_spec()),
        event == PolicyEvent::OnCapabilityDelegate && !context.same_domain_spec() ==> policy.decision(event, context)
            is Require,
        event != PolicyEvent::OnSpawn && event != PolicyEvent::OnCapabilityDelegate ==> policy.decision(
            event,
            context,
        ) == (DecisionView::Allow { derived: None }),
{
}

} // verus!
