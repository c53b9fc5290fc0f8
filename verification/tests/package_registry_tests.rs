use pandagen::package_registry::{BuildPlan, PackageEntry, RegistryError, RegistryIndex, RegistryLock, RegistryResolver, SupplyChainReport};

#[test]
fn test_reproducible_hash_deterministic() {
    let plan = BuildPlan {
        name: "demo".to_string(),
        version: "0.1.0".to_string(),
        source_digest: "abc".to_string(),
        toolchain: "rust-1.75".to_string(),
        build_flags: vec!["-O".to_string()],
    };
    let h1 = plan.reproducible_hash();
    let h2 = plan.reproducible_hash();
    assert_eq!(h1, h2);
}

#[test]
fn test_reproducible_hash_changes() {
    let mut plan = BuildPlan {
        name: "demo".to_string(),
        version: "0.1.0".to_string(),
        source_digest: "abc".to_string(),
        toolchain: "rust-1.75".to_string(),
        build_flags: vec!["-O".to_string()],
    };
    let h1 = plan.reproducible_hash();
    plan.build_flags.push("-C target-cpu=native".to_string());
    let h2 = plan.reproducible_hash();
    assert_ne!(h1, h2);
}

#[test]
fn test_resolve_registry() {
    let mut index = RegistryIndex::default();
    index.add(PackageEntry {
        name: "demo".to_string(),
        version: "0.1.0".to_string(),
        source_digest: "abc".to_string(),
    });

    let resolver = RegistryResolver::new(index);
    let plan = BuildPlan {
        name: "demo".to_string(),
        version: "0.1.0".to_string(),
        source_digest: "abc".to_string(),
        toolchain: "rust-1.75".to_string(),
        build_flags: vec![],
    };
    let lock = resolver.resolve(&plan).unwrap();
    assert_eq!(lock.packages.len(), 1);
    assert_eq!(lock.packages[0].name, "demo");
}

#[test]
fn test_resolve_missing_package() {
    let resolver = RegistryResolver::new(RegistryIndex::default());
    let plan = BuildPlan {
        name: "ghost".to_string(),
        version: "1.0".to_string(),
        source_digest: "x".to_string(),
        toolchain: "rust".to_string(),
        build_flags: vec![],
    };
    match resolver.resolve(&plan) {
        Err(e) => {
            assert_eq!(e.to_string(), "Package not found: ghost@1.0");
            assert!(matches!(e, RegistryError::NotFound(_, _)));
        }
        Ok(_) => panic!("expected not found"),
    }
}

#[test]
fn test_reproducible_hash_framing() {
    let plan = BuildPlan {
        name: "demo".to_string(),
        version: "0.1.0".to_string(),
        source_digest: "abc".to_string(),
        toolchain: "rust-1.75".to_string(),
        build_flags: vec!["-O".to_string(), "-g".to_string()],
    };
    assert_eq!(
        plan.reproducible_hash(),
        pandagen::secure_boot::hash_bytes(b"demo@0.1.0|abc|rust-1.75|-O;-g;")
    );
}

#[test]
fn test_find_first_match_and_supply_chain_report() {
    let mut index = RegistryIndex::default();
    for (n, v, d) in [("b", "1", "d1"), ("a", "2", "d2"), ("b", "1", "d3")] {
        index.add(PackageEntry { name: n.to_string(), version: v.to_string(), source_digest: d.to_string() });
    }
    assert_eq!(index.find("b", "1").unwrap().source_digest, "d1");
    assert!(index.find("a", "1").is_none());
    let lock = RegistryLock { packages: index.packages.clone(), build_hash: "h".to_string() };
    let report = SupplyChainReport::from_lock(&lock);
    assert_eq!(report.build_hash, "h");
    let entries = report.sources.entries();
    assert_eq!(entries.len(), 2);
    assert_eq!(entries[0].0, "a@2");
    assert_eq!(entries[1].0, "b@1");
    assert_eq!(entries[1].1, "d3");
}
