//! Package registry and reproducible build metadata: an index of packages,
//! build plans with a reproducible digest, and locks resolved against the
//! index.

use vstd::prelude::*;
use vstd::utf8::encode_utf8;
use crate::digest::{hex_lower, push_bytes, sha256, sha256_hex};
use crate::text::push_str;
use crate::text_map::{sorted_insert, TextMap};

verus! {

/// A package of the registry: name, version and the digest of its sources.
#[derive(Debug, Clone, PartialEq, Eq)]
pub struct PackageEntry {
    pub name: String,
    pub version: String,
    pub source_digest: String,
}

impl View for PackageEntry {
    type V = (Seq<char>, Seq<char>, Seq<char>);

    open spec fn view(&self) -> (Seq<char>, Seq<char>, Seq<char>) {
        (self.name@, self.version@, self.source_digest@)
    }
}

impl PackageEntry {
    /// A copy of the entry.
    pub fn duplicate(&self) -> (r: Self)
        ensures
            r@ == self@,
    {
        PackageEntry {
            name: self.name.clone(),
            version: self.version.clone(),
            source_digest: self.source_digest.clone(),
        }
    }
}

/// The plain values of package entries, in order.
pub open spec fn packages_view(s: Seq<PackageEntry>) -> Seq<(Seq<char>, Seq<char>, Seq<char>)> {
    s.map_values(|e: PackageEntry| e@)
}

/// The first package with a name and version, if any.
pub open spec fn find_package(
    s: Seq<(Seq<char>, Seq<char>, Seq<char>)>,
    name: Seq<char>,
    version: Seq<char>,
) -> Option<(Seq<char>, Seq<char>, Seq<char>)>
    decreases s.len(),
{
    if s.len() == 0 {
        None
    } else if s[0].0 == name && s[0].1 == version {
        Some(s[0])
    } else {
        find_package(s.drop_first(), name, version)
    }
}

/// The packages known to the registry, in the order they were added.
#[derive(Debug, Clone)]
pub struct RegistryIndex {
    pub packages: Vec<PackageEntry>,
}

impl View for RegistryIndex {
    type V = Seq<(Seq<char>, Seq<char>, Seq<char>)>;

    open spec fn view(&self) -> Seq<(Seq<char>, Seq<char>, Seq<char>)> {
        packages_view(self.packages@)
    }
}

impl Default for RegistryIndex {
    fn default() -> (r: Self)
        ensures
            r@ == Seq::<(Seq<char>, Seq<char>, Seq<char>)>::empty(),
    {
        let r = RegistryIndex { packages: Vec::new() };
        assert(r@ =~= Seq::<(Seq<char>, Seq<char>, Seq<char>)>::empty());
        r
    }
}

impl RegistryIndex {
    /// Adds a package after the known ones.
    pub fn add(&mut self, entry: PackageEntry)
        ensures
            final(self)@ == old(self)@.push(entry@),
    {
        let ghost e = entry@;
        self.packages.push(entry);
        assert(packages_view(self.packages@) =~= packages_view(old(self).packages@).push(e));
    }

    /// The first package with the name and version, if any.
    pub fn find(&self, name: &str, version: &str) -> (r: Option<&PackageEntry>)
        ensures
            match find_package(self@, name@, version@) {
                Some(e) => r matches Some(x) && x@ == e,
                None => r is None,
            },
    {
        let ghost s = self@;
        let wanted_name = name.to_owned();
        let wanted_version = version.to_owned();
        let mut i: usize = 0;
        assert(s.skip(0) == s);
        while i < self.packages.len()
            invariant
                s == self@,
                wanted_name@ == name@,
                wanted_version@ == version@,
                i <= s.len(),
                find_package(s, name@, version@) == find_package(s.skip(i as int), name@, version@),
            decreases self.packages.len() - i,
        {
            assert(s.skip(i as int)[0] == s[i as int]);
            assert(s.skip(i as int).drop_first() == s.skip(i + 1));
            if self.packages[i].name == wanted_name && self.packages[i].version == wanted_version {
                return Some(&self.packages[i]);
            }
            i = i + 1;
        }
        None
    }
}

/// How to build a package: its identity, toolchain and flags.
#[derive(Debug, Clone)]
pub struct BuildPlan {
    pub name: String,
    pub version: String,
    pub source_digest: String,
    pub toolchain: String,
    pub build_flags: Vec<String>,
}

/// The bytes of build flags: each flag followed by `;`.
pub open spec fn flags_bytes(flags: Seq<String>) -> Seq<u8>
    decreases flags.len(),
{
    if flags.len() == 0 {
        Seq::empty()
    } else {
        flags_bytes(flags.drop_last()) + encode_utf8(flags.last()@) + seq![59u8]
    }
}

/// The bytes a build plan is digested from:
/// `name@version|source_digest|toolchain|` and then `flag;` per flag.
pub open spec fn plan_bytes(plan: BuildPlan) -> Seq<u8> {
    encode_utf8(plan.name@) + seq![64u8] + encode_utf8(plan.version@) + seq![124u8] + encode_utf8(
        plan.source_digest@,
    ) + seq![124u8] + encode_utf8(plan.toolchain@) + seq![124u8] + flags_bytes(plan.build_flags@)
}

impl BuildPlan {
    /// The hexadecimal SHA-256 digest of the plan: equal plans have equal
    /// digests.
    pub fn reproducible_hash(&self) -> (r: String)
        ensures
            r@ == hex_lower(sha256(plan_bytes(*self))),
    {
        let mut buf: Vec<u8> = Vec::new();
        push_bytes(&mut buf, self.name.as_str().as_bytes());
        buf.push(64u8);
        push_bytes(&mut buf, self.version.as_str().as_bytes());
        buf.push(124u8);
        push_bytes(&mut buf, self.source_digest.as_str().as_bytes());
        buf.push(124u8);
        push_bytes(&mut buf, self.toolchain.as_str().as_bytes());
        buf.push(124u8);
        let ghost head = buf@;
        let ghost flags = self.build_flags@;
        let mut k: usize = 0;
        assert(flags.take(0) == Seq::<String>::empty());
        while k < self.build_flags.len()
            invariant
                flags == self.build_flags@,
                k <= flags.len(),
                buf@ == head + flags_bytes(flags.take(k as int)),
            decreases self.build_flags.len() - k,
        {
            assert(flags.take(k + 1).drop_last() == flags.take(k as int));
            assert(flags.take(k + 1).last() == flags[k as int]);
            push_bytes(&mut buf, self.build_flags[k].as_str().as_bytes());
            buf.push(59u8);
            k = k + 1;
        }
        assert(flags.take(flags.len() as int) == flags);
        assert(buf@ == plan_bytes(*self));
        sha256_hex(buf.as_slice())
    }
}

/// A resolved build: the packages it uses and the digest of its plan.
#[derive(Debug, Clone)]
pub struct RegistryLock {
    pub packages: Vec<PackageEntry>,
    pub build_hash: String,
}

/// Why a build plan does not resolve.
#[derive(Debug)]
pub enum RegistryError {
    /// No package has the name and version.
    NotFound(String, String),
}

impl RegistryError {
    /// The error's message.
    pub fn to_string(&self) -> (r: String)
        ensures
            match self {
                RegistryError::NotFound(n, v) => r@ == "Package not found: "@ + n@ + "@"@ + v@,
            },
    {
        let mut s = String::new();
        match self {
            RegistryError::NotFound(n, v) => {
                push_str(&mut s, "Package not found: ");
                push_str(&mut s, n.as_str());
                push_str(&mut s, "@");
                push_str(&mut s, v.as_str());
            },
        }
        s
    }
}

/// Resolves build plans against a registry index.
pub struct RegistryResolver {
    index: RegistryIndex,
}

impl View for RegistryResolver {
    type V = Seq<(Seq<char>, Seq<char>, Seq<char>)>;

    /// The packages of the index.
    closed spec fn view(&self) -> Seq<(Seq<char>, Seq<char>, Seq<char>)> {
        self.index@
    }
}

impl RegistryResolver {
    /// A resolver over an index.
    pub fn new(index: RegistryIndex) -> (r: Self)
        ensures
            r@ == index@,
    {
        RegistryResolver { index }
    }

    /// Resolves a plan: the lock holds the first package of the plan's name
    /// and version, and the plan's reproducible digest.
    pub fn resolve(&self, plan: &BuildPlan) -> (r: Result<RegistryLock, RegistryError>)
        ensures
            match find_package(self@, plan.name@, plan.version@) {
                Some(e) => r matches Ok(lock) && packages_view(lock.packages@) == seq![e]
                    && lock.build_hash@ == hex_lower(sha256(plan_bytes(*plan))),
                None => r matches Err(RegistryError::NotFound(n, v)) && n@ == plan.name@ && v@
                    == plan.version@,
            },
    {
        match self.index.find(plan.name.as_str(), plan.version.as_str()) {
            None => Err(RegistryError::NotFound(plan.name.clone(), plan.version.clone())),
            Some(entry) => {
                let build_hash = plan.reproducible_hash();
                let mut packages: Vec<PackageEntry> = Vec::new();
                let copy = entry.duplicate();
                packages.push(copy);
                assert(packages_view(packages@) =~= seq![copy@]);
                Ok(RegistryLock { packages, build_hash })
            },
        }
    }
}

/// The sources of a resolved build, by `name@version`, and its digest.
#[derive(Debug)]
pub struct SupplyChainReport {
    pub build_hash: String,
    pub sources: TextMap,
}

/// The sources of packages by `name@version`, inserted in package order.
pub open spec fn sources_of(packages: Seq<(Seq<char>, Seq<char>, Seq<char>)>) -> Seq<
    (Seq<char>, Seq<char>),
>
    decreases packages.len(),
{
    if packages.len() == 0 {
        Seq::empty()
    } else {
        let p = packages.last();
        sorted_insert(sources_of(packages.drop_last()), p.0 + "@"@ + p.1, p.2)
    }
}

impl SupplyChainReport {
    /// The report of a lock.
    pub fn from_lock(lock: &RegistryLock) -> (r: Self)
        ensures
            r.build_hash@ == lock.build_hash@,
            r.sources@ == sources_of(packages_view(lock.packages@)),
    {
        let ghost ps = packages_view(lock.packages@);
        let mut sources = TextMap::new();
        let mut k: usize = 0;
        assert(ps.take(0) == Seq::<(Seq<char>, Seq<char>, Seq<char>)>::empty());
        while k < lock.packages.len()
            invariant
                ps == packages_view(lock.packages@),
                k <= ps.len(),
                sources@ == sources_of(ps.take(k as int)),
            decreases lock.packages.len() - k,
        {
            assert(ps.take(k + 1).drop_last() == ps.take(k as int));
            assert(ps.take(k + 1).last() == lock.packages@[k as int]@);
            let mut key = lock.packages[k].name.clone();
            push_str(&mut key, "@");
            push_str(&mut key, lock.packages[k].version.as_str());
            sources.insert(key.as_str(), lock.packages[k].source_digest.as_str());
            k = k + 1;
        }
        assert(ps.take(ps.len() as int) == ps);
        SupplyChainReport { build_hash: lock.build_hash.clone(), sources }
    }
}

} // verus!
