//! Package manifests: the components a package declares, the checks a
//! manifest must pass, and the launch plan derived from it.

use vstd::prelude::*;
use std::collections::HashMap;
use crate::resources::ResourceBudget;
use crate::text::{chars_of, push_str, trim, trimmed_all};

verus! {

/// The file name of a package manifest.
pub const PACKAGE_MANIFEST_NAME: &'static str = "pandagend.json";

/// Package manifest format version.
#[derive(Debug, Clone, Copy, PartialEq, Eq, Structural)]
pub struct PackageFormatVersion {
    pub major: u32,
    pub minor: u32,
}

impl PackageFormatVersion {
    /// A format version.
    pub fn new(major: u32, minor: u32) -> (r: Self)
        ensures
            r == (PackageFormatVersion { major, minor }),
    {
        PackageFormatVersion { major, minor }
    }
}

/// The kind of a component.
#[derive(Debug, Clone, Copy, PartialEq, Eq, Hash, Structural)]
pub enum PackageComponentType {
    Editor,
    Cli,
    PipelineExecutor,
    Custom,
}

/// A component declared by a package.
#[derive(Debug, Clone)]
pub struct ComponentSpec {
    pub id: String,
    pub name: String,
    pub component_type: PackageComponentType,
    pub entry: String,
    pub focusable: bool,
    pub metadata: HashMap<String, String>,
    pub budget: Option<ResourceBudget>,
}

/// A package manifest.
#[derive(Debug, Clone)]
pub struct PackageManifest {
    pub format_version: PackageFormatVersion,
    pub name: String,
    pub version: String,
    pub components: Vec<ComponentSpec>,
}

/// What is needed to launch one component.
#[derive(Debug, Clone)]
pub struct ComponentLaunchSpec {
    pub id: String,
    pub name: String,
    pub component_type: PackageComponentType,
    pub entry: String,
    pub focusable: bool,
    pub metadata: HashMap<String, String>,
    pub budget: Option<ResourceBudget>,
}

/// Errors of loading or checking a package.
#[derive(Debug)]
pub enum PackageError {
    ManifestNotFound(String),
    Io(String),
    Parse(String),
    InvalidManifest(String),
    DuplicateComponentId(String),
    DuplicateComponentName(String),
}

/// Errors of loading or checking a package, as plain values.
pub enum PackageFault {
    ManifestNotFound(Seq<char>),
    Io(Seq<char>),
    Parse(Seq<char>),
    InvalidManifest(Seq<char>),
    DuplicateComponentId(Seq<char>),
    DuplicateComponentName(Seq<char>),
}

impl View for PackageError {
    type V = PackageFault;

    open spec fn view(&self) -> PackageFault {
        match self {
            PackageError::ManifestNotFound(s) => PackageFault::ManifestNotFound(s@),
            PackageError::Io(s) => PackageFault::Io(s@),
            PackageError::Parse(s) => PackageFault::Parse(s@),
            PackageError::InvalidManifest(s) => PackageFault::InvalidManifest(s@),
            PackageError::DuplicateComponentId(s) => PackageFault::DuplicateComponentId(s@),
            PackageError::DuplicateComponentName(s) => PackageFault::DuplicateComponentName(s@),
        }
    }
}

/// The message of a package error.
pub open spec fn package_fault_text(f: PackageFault) -> Seq<char> {
    match f {
        PackageFault::ManifestNotFound(s) => "Package manifest not found: "@ + s,
        PackageFault::Io(s) => "Failed to read manifest: "@ + s,
        PackageFault::Parse(s) => "Failed to parse manifest: "@ + s,
        PackageFault::InvalidManifest(s) => "Invalid manifest: "@ + s,
        PackageFault::DuplicateComponentId(s) => "Duplicate component id: "@ + s,
        PackageFault::DuplicateComponentName(s) => "Duplicate component name: "@ + s,
    }
}

impl PackageError {
    /// The error's message.
    pub fn to_string(&self) -> (r: String)
        ensures
            r@ == package_fault_text(self@),
    {
        let mut s = String::new();
        let (head, body) = match self {
            PackageError::ManifestNotFound(b) => ("Package manifest not found: ", b),
            PackageError::Io(b) => ("Failed to read manifest: ", b),
            PackageError::Parse(b) => ("Failed to parse manifest: ", b),
            PackageError::InvalidManifest(b) => ("Invalid manifest: ", b),
            PackageError::DuplicateComponentId(b) => ("Duplicate component id: ", b),
            PackageError::DuplicateComponentName(b) => ("Duplicate component name: ", b),
        };
        push_str(&mut s, head);
        push_str(&mut s, body.as_str());
        s
    }
}

/// Some component among `cs` has the id.
pub open spec fn has_id(cs: Seq<ComponentSpec>, id: Seq<char>) -> bool {
    exists|i: int| 0 <= i < cs.len() && (#[trigger] cs[i]).id@ == id
}

/// Some component among `cs` has the name.
pub open spec fn has_name(cs: Seq<ComponentSpec>, name: Seq<char>) -> bool {
    exists|i: int| 0 <= i < cs.len() && (#[trigger] cs[i]).name@ == name
}

/// Checks components in order: the first whose id or (then) name an earlier
/// component has, or whose entry is blank, fails the check.
pub open spec fn components_check(cs: Seq<ComponentSpec>) -> Result<(), PackageFault>
    decreases cs.len(),
{
    if cs.len() == 0 {
        Ok(())
    } else {
        match components_check(cs.drop_last()) {
            Err(f) => Err(f),
            Ok(()) => {
                let c = cs.last();
                if has_id(cs.drop_last(), c.id@) {
                    Err(PackageFault::DuplicateComponentId(c.id@))
                } else if has_name(cs.drop_last(), c.name@) {
                    Err(PackageFault::DuplicateComponentName(c.name@))
                } else if trim(c.entry@).len() == 0 {
                    Err(PackageFault::InvalidManifest("Component "@ + c.id@ + " has empty entry"@))
                } else {
                    Ok(())
                }
            },
        }
    }
}

/// Checks a manifest: its name is not blank and its components pass.
pub open spec fn manifest_check(m: PackageManifest) -> Result<(), PackageFault> {
    if trim(m.name@).len() == 0 {
        Err(PackageFault::InvalidManifest("Package name cannot be empty"@))
    } else {
        components_check(m.components@)
    }
}

/// Once the check of some components fails, later ones change nothing.
proof fn lemma_components_stop(cs: Seq<ComponentSpec>, k: int)
    requires
        0 <= k <= cs.len(),
        components_check(cs.take(k)) is Err,
    ensures
        components_check(cs) == components_check(cs.take(k)),
    decreases cs.len(),
{
    if k < cs.len() {
        assert(cs.drop_last().take(k) == cs.take(k));
        lemma_components_stop(cs.drop_last(), k);
    } else {
        assert(cs.take(k) == cs);
    }
}

/// Whether the text is blank: empty once trimmed.
fn is_blank(s: &String) -> (r: bool)
    ensures
        r == (trim(s@).len() == 0),
{
    let chars = chars_of(s.as_str());
    trimmed_all(&chars).len() == 0
}

impl PackageManifest {
    /// Checks the manifest.
    pub fn validate(&self) -> (r: Result<(), PackageError>)
        ensures
            match manifest_check(*self) {
                Ok(()) => r is Ok,
                Err(f) => r matches Err(e) && e@ == f,
            },
    {
        if is_blank(&self.name) {
            return Err(PackageError::InvalidManifest("Package name cannot be empty".to_owned()));
        }
        let ghost cs = self.components@;
        let mut i: usize = 0;
        assert(cs.take(0) == Seq::<ComponentSpec>::empty());
        while i < self.components.len()
            invariant
                cs == self.components@,
                i <= cs.len(),
                trim(self.name@).len() != 0,
                components_check(cs.take(i as int)) == Ok::<(), PackageFault>(()),
            decreases self.components.len() - i,
        {
            let c = &self.components[i];
            let ghost before = cs.take(i as int);
            assert(cs.take(i + 1).drop_last() == before);
            assert(cs.take(i + 1).last() == *c);
            let mut j: usize = 0;
            while j < i
                invariant
                    cs == self.components@,
                    j <= i < cs.len(),
                    before == cs.take(i as int),
                    *c == cs[i as int],
                    trim(self.name@).len() != 0,
                    components_check(before) == Ok::<(), PackageFault>(()),
                    cs.take(i + 1).drop_last() == before,
                    cs.take(i + 1).last() == *c,
                    forall|k: int| 0 <= k < j ==> (#[trigger] cs[k]).id@ != c.id@,
                decreases i - j,
            {
                if self.components[j].id == c.id {
                    proof {
                        assert(before[j as int] == cs[j as int]);
                        lemma_components_stop(cs, i + 1);
                    }
                    return Err(PackageError::DuplicateComponentId(c.id.clone()));
                }
                j = j + 1;
            }
            assert(!has_id(before, c.id@)) by {
                assert forall|k: int| 0 <= k < before.len() implies (#[trigger] before[k]).id@
                    != c.id@ by {
                    assert(before[k] == cs[k]);
                }
            }
            let mut j: usize = 0;
            while j < i
                invariant
                    cs == self.components@,
                    j <= i < cs.len(),
                    before == cs.take(i as int),
                    *c == cs[i as int],
                    trim(self.name@).len() != 0,
                    components_check(before) == Ok::<(), PackageFault>(()),
                    cs.take(i + 1).drop_last() == before,
                    cs.take(i + 1).last() == *c,
                    !has_id(before, c.id@),
                    forall|k: int| 0 <= k < j ==> (#[trigger] cs[k]).name@ != c.name@,
                decreases i - j,
            {
                if self.components[j].name == c.name {
                    proof {
                        assert(before[j as int] == cs[j as int]);
                        lemma_components_stop(cs, i + 1);
                    }
                    return Err(PackageError::DuplicateComponentName(c.name.clone()));
                }
                j = j + 1;
            }
            assert(!has_name(before, c.name@)) by {
                assert forall|k: int| 0 <= k < before.len() implies (#[trigger] before[k]).name@
                    != c.name@ by {
                    assert(before[k] == cs[k]);
                }
            }
            if is_blank(&c.entry) {
                let mut message = "Component ".to_owned();
                push_str(&mut message, c.id.as_str());
                push_str(&mut message, " has empty entry");
                proof {
                    lemma_components_stop(cs, i + 1);
                }
                return Err(PackageError::InvalidManifest(message));
            }
            i = i + 1;
        }
        assert(cs.take(cs.len() as int) == cs);
        Ok(())
    }
}

/// The launch spec of a component carries the component's fields.
pub open spec fn launches(l: ComponentLaunchSpec, c: ComponentSpec) -> bool {
    &&& l.id@ == c.id@
    &&& l.name@ == c.name@
    &&& l.component_type == c.component_type
    &&& l.entry@ == c.entry@
    &&& l.focusable == c.focusable
    &&& l.metadata@ == c.metadata@
    &&& l.budget == c.budget
}

/// Builds launch plans from manifests.
pub struct ComponentLoader;

impl ComponentLoader {
    /// The launch plan of a manifest that passes its checks: one launch
    /// spec per component, in order.
    pub fn build_launch_plan(manifest: &PackageManifest) -> (r: Result<
        Vec<ComponentLaunchSpec>,
        PackageError,
    >)
        ensures
            match manifest_check(*manifest) {
                Ok(()) => r matches Ok(plan) && plan@.len() == manifest.components@.len() && forall|
                    i: int,
                | 0 <= i < plan@.len() ==> launches(#[trigger] plan@[i], manifest.components@[i]),
                Err(f) => r matches Err(e) && e@ == f,
            },
    {
        match manifest.validate() {
            Err(e) => Err(e),
            Ok(()) => {
                let mut plan: Vec<ComponentLaunchSpec> = Vec::new();
                let mut i: usize = 0;
                while i < manifest.components.len()
                    invariant
                        i <= manifest.components@.len(),
                        plan@.len() == i,
                        forall|k: int| 0 <= k < i ==> launches(#[trigger] plan@[k], manifest.components@[k]),
                    decreases manifest.components.len() - i,
                {
                    let c = &manifest.components[i];
                    plan.push(
                        ComponentLaunchSpec {
                            id: c.id.clone(),
                            name: c.name.clone(),
                            component_type: c.component_type,
                            entry: c.entry.clone(),
                            focusable: c.focusable,
                            metadata: c.metadata.clone(),
                            budget: c.budget,
                        },
                    );
                    i = i + 1;
                }
                Ok(plan)
            },
        }
    }
}

} // verus!
