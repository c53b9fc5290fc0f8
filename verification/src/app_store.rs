//! App storefront for curated components: listings with default budgets,
//! an install policy, and install plans resolved against the registry.

use vstd::prelude::*;
use crate::package_registry::{find_package, packages_view, BuildPlan, PackageEntry, RegistryIndex, RegistryResolver};
use crate::resources::ResourceBudget;
use crate::text::{decimal, push_decimal, push_str};

verus! {

/// An app offered by the store.
#[derive(Debug, Clone)]
pub struct AppListing {
    pub name: String,
    pub version: String,
    pub description: String,
    pub default_budget: ResourceBudget,
}

/// What installing an app takes: its package and its budget.
#[derive(Debug, Clone)]
pub struct InstallPlan {
    pub package: PackageEntry,
    pub budget: ResourceBudget,
}

/// Why an install cannot be planned.
#[derive(Debug)]
pub enum StoreError {
    /// No listing has the name and version.
    ListingNotFound(String, String),
    /// The install policy refuses the listing.
    PolicyDenied(String),
    /// The registry does not resolve the listing.
    Registry(String),
}

/// Why an install cannot be planned, as plain values.
pub enum StoreFault {
    ListingNotFound(Seq<char>, Seq<char>),
    PolicyDenied(Seq<char>),
    Registry(Seq<char>),
}

impl View for StoreError {
    type V = StoreFault;

    open spec fn view(&self) -> StoreFault {
        match self {
            StoreError::ListingNotFound(n, v) => StoreFault::ListingNotFound(n@, v@),
            StoreError::PolicyDenied(m) => StoreFault::PolicyDenied(m@),
            StoreError::Registry(m) => StoreFault::Registry(m@),
        }
    }
}

/// The message of a store error.
pub open spec fn store_fault_text(f: StoreFault) -> Seq<char> {
    match f {
        StoreFault::ListingNotFound(n, v) => "Listing not found: "@ + n + "@"@ + v,
        StoreFault::PolicyDenied(m) => "Policy denied install: "@ + m,
        StoreFault::Registry(m) => "Registry error: "@ + m,
    }
}

impl StoreError {
    /// The error's message.
    pub fn to_string(&self) -> (r: String)
        ensures
            r@ == store_fault_text(self@),
    {
        let mut s = String::new();
        match self {
            StoreError::ListingNotFound(n, v) => {
                push_str(&mut s, "Listing not found: ");
                push_str(&mut s, n.as_str());
                push_str(&mut s, "@");
                push_str(&mut s, v.as_str());
            },
            StoreError::PolicyDenied(m) => {
                push_str(&mut s, "Policy denied install: ");
                push_str(&mut s, m.as_str());
            },
            StoreError::Registry(m) => {
                push_str(&mut s, "Registry error: ");
                push_str(&mut s, m.as_str());
            },
        }
        s
    }
}

/// Decides whether a listing may be installed.
pub trait StorePolicy {
    /// Why the policy refuses a listing, if it does.
    spec fn refusal(&self, listing: AppListing) -> Option<StoreFault>;

    /// Allows the listing, or says why not.
    fn allow(&self, listing: &AppListing) -> (r: Result<(), StoreError>)
        ensures
            match self.refusal(*listing) {
                None => r is Ok,
                Some(f) => r matches Err(e) && e@ == f,
            },
    ;
}

/// Allows every listing.
pub struct AllowAllPolicy;

impl StorePolicy for AllowAllPolicy {
    open spec fn refusal(&self, listing: AppListing) -> Option<StoreFault> {
        None
    }

    fn allow(&self, listing: &AppListing) -> (r: Result<(), StoreError>) {
        Ok(())
    }
}

/// Refuses listings whose CPU budget exceeds a cap.
pub struct BudgetCapPolicy {
    pub max_cpu_ticks: Option<u64>,
}

impl StorePolicy for BudgetCapPolicy {
    open spec fn refusal(&self, listing: AppListing) -> Option<StoreFault> {
        match (self.max_cpu_ticks, listing.default_budget.cpu_ticks) {
            (Some(max), Some(cpu)) => if cpu.0 > max {
                Some(
                    StoreFault::PolicyDenied(
                        "cpu budget "@ + decimal(cpu.0 as nat) + " exceeds cap "@ + decimal(
                            max as nat,
                        ),
                    ),
                )
            } else {
                None
            },
            _ => None,
        }
    }

    fn allow(&self, listing: &AppListing) -> (r: Result<(), StoreError>) {
        if let (Some(max), Some(cpu)) = (self.max_cpu_ticks, listing.default_budget.cpu_ticks) {
            if cpu.0 > max {
                let mut m = String::new();
                push_str(&mut m, "cpu budget ");
                push_decimal(&mut m, cpu.0);
                push_str(&mut m, " exceeds cap ");
                push_decimal(&mut m, max);
                return Err(StoreError::PolicyDenied(m));
            }
        }
        Ok(())
    }
}

/// The first listing with a name and version, if any.
pub open spec fn find_listing(ls: Seq<AppListing>, name: Seq<char>, version: Seq<char>) -> Option<
    AppListing,
>
    decreases ls.len(),
{
    if ls.len() == 0 {
        None
    } else if ls[0].name@ == name && ls[0].version@ == version {
        Some(ls[0])
    } else {
        find_listing(ls.drop_first(), name, version)
    }
}

/// The store: its listings, the registry it resolves against and its
/// install policy.
pub struct AppStorefront {
    listings: Vec<AppListing>,
    registry: RegistryResolver,
    policy: Box<dyn StorePolicy>,
}

impl AppStorefront {
    /// The listings, in the order they were added.
    pub closed spec fn listings(&self) -> Seq<AppListing> {
        self.listings@
    }

    /// The packages of the registry.
    pub closed spec fn packages(&self) -> Seq<(Seq<char>, Seq<char>, Seq<char>)> {
        self.registry@
    }

    /// Why the install policy refuses a listing, if it does.
    pub closed spec fn refusal(&self, listing: AppListing) -> Option<StoreFault> {
        self.policy.refusal(listing)
    }

    /// A store with no listings.
    pub fn new(index: RegistryIndex, policy: Box<dyn StorePolicy>) -> (r: Self)
        ensures
            r.listings() == Seq::<AppListing>::empty(),
            r.packages() == index@,
    {
        AppStorefront { listings: Vec::new(), registry: RegistryResolver::new(index), policy }
    }

    /// Adds a listing after the others.
    pub fn add_listing(&mut self, listing: AppListing)
        ensures
            final(self).listings() == old(self).listings().push(listing),
            final(self).packages() == old(self).packages(),
            forall|l: AppListing| final(self).refusal(l) == old(self).refusal(l),
    {
        self.listings.push(listing);
    }

    /// The listings.
    pub fn list(&self) -> (r: &[AppListing])
        ensures
            r@ == self.listings(),
    {
        self.listings.as_slice()
    }

    /// Where the first listing with the name and version stands, if any.
    fn position(&self, name: &str, version: &str) -> (r: Option<usize>)
        ensures
            match find_listing(self.listings(), name@, version@) {
                None => r is None,
                Some(l) => r matches Some(i) && i < self.listings@.len() && self.listings@[i as int]
                    == l,
            },
    {
        let ghost ls = self.listings@;
        let wanted_name = name.to_owned();
        let wanted_version = version.to_owned();
        let mut i: usize = 0;
        assert(ls.skip(0) == ls);
        while i < self.listings.len()
            invariant
                ls == self.listings@,
                wanted_name@ == name@,
                wanted_version@ == version@,
                i <= ls.len(),
                find_listing(ls, name@, version@) == find_listing(ls.skip(i as int), name@, version@),
            decreases self.listings.len() - i,
        {
            assert(ls.skip(i as int)[0] == ls[i as int]);
            assert(ls.skip(i as int).drop_first() == ls.skip(i + 1));
            if self.listings[i].name == wanted_name && self.listings[i].version == wanted_version {
                return Some(i);
            }
            i = i + 1;
        }
        None
    }

    /// Plans the install of the first listing with the name and version: the
    /// policy must allow it and the registry must resolve it.
    pub fn plan_install(&self, name: &str, version: &str) -> (r: Result<InstallPlan, StoreError>)
        ensures
            match find_listing(self.listings(), name@, version@) {
                None => r matches Err(StoreError::ListingNotFound(n, v)) && n@ == name@ && v@
                    == version@,
                Some(l) => match self.refusal(l) {
                    Some(f) => r matches Err(e) && e@ == f,
                    None => match find_package(self.packages(), l.name@, l.version@) {
                        None => r matches Err(StoreError::Registry(m)) && m@ == "Package not found: "@
                            + l.name@ + "@"@ + l.version@,
                        Some(e) => r matches Ok(plan) && plan.package@ == e && plan.budget
                            == l.default_budget,
                    },
                },
            },
    {
        let i = match self.position(name, version) {
            None => {
                return Err(StoreError::ListingNotFound(name.to_owned(), version.to_owned()));
            },
            Some(i) => i,
        };
        let listing = &self.listings[i];
        match self.policy.allow(listing) {
            Err(e) => {
                return Err(e);
            },
            Ok(()) => {},
        }
        let plan = BuildPlan {
            name: listing.name.clone(),
            version: listing.version.clone(),
            source_digest: "".to_owned(),
            toolchain: "registry".to_owned(),
            build_flags: Vec::new(),
        };
        match self.registry.resolve(&plan) {
            Err(err) => {
                proof {
                    reveal_strlit("@");
                }
                Err(StoreError::Registry(err.to_string()))
            },
            Ok(lock) => {
                assert(packages_view(lock.packages@).len() == 1);
                assert(packages_view(lock.packages@)[0] == lock.packages@[0]@);
                Ok(InstallPlan { package: lock.packages[0].duplicate(), budget: listing.default_budget })
            },
        }
    }
}

} // verus!
