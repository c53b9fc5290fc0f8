use pandagen::app_store::{AllowAllPolicy, AppListing, AppStorefront, BudgetCapPolicy, StoreError};
use pandagen::package_registry::{PackageEntry, RegistryIndex};
use pandagen::resources::{CpuTicks, ResourceBudget};

#[test]
fn test_storefront_plan_install() {
    let mut index = RegistryIndex::default();
    index.add(PackageEntry {
        name: "demo".to_string(),
        version: "0.1.0".to_string(),
        source_digest: "abc".to_string(),
    });

    let mut store = AppStorefront::new(index, Box::new(AllowAllPolicy));
    store.add_listing(AppListing {
        name: "demo".to_string(),
        version: "0.1.0".to_string(),
        description: "Demo app".to_string(),
        default_budget: ResourceBudget::unlimited().with_cpu_ticks(CpuTicks::new(10)),
    });

    let plan = store.plan_install("demo", "0.1.0").unwrap();
    assert_eq!(plan.package.name, "demo");
}

#[test]
fn test_storefront_policy_denied() {
    let mut index = RegistryIndex::default();
    index.add(PackageEntry {
        name: "heavy".to_string(),
        version: "0.1.0".to_string(),
        source_digest: "abc".to_string(),
    });

    let mut store = AppStorefront::new(index, Box::new(BudgetCapPolicy { max_cpu_ticks: Some(5) }));
    store.add_listing(AppListing {
        name: "heavy".to_string(),
        version: "0.1.0".to_string(),
        description: "Heavy app".to_string(),
        default_budget: ResourceBudget::unlimited().with_cpu_ticks(CpuTicks::new(10)),
    });

    let result = store.plan_install("heavy", "0.1.0");
    assert!(matches!(result, Err(StoreError::PolicyDenied(_))));
}

#[test]
fn test_storefront_errors() {
    let mut index = RegistryIndex::default();
    index.add(PackageEntry {
        name: "light".to_string(),
        version: "0.1.0".to_string(),
        source_digest: "abc".to_string(),
    });
    let mut store = AppStorefront::new(index, Box::new(BudgetCapPolicy { max_cpu_ticks: Some(5) }));
    store.add_listing(AppListing {
        name: "heavy".to_string(),
        version: "0.1.0".to_string(),
        description: "Heavy app".to_string(),
        default_budget: ResourceBudget::unlimited().with_cpu_ticks(CpuTicks::new(10)),
    });
    store.add_listing(AppListing {
        name: "light".to_string(),
        version: "0.1.0".to_string(),
        description: "Light app".to_string(),
        default_budget: ResourceBudget::unlimited().with_cpu_ticks(CpuTicks::new(5)),
    });
    store.add_listing(AppListing {
        name: "unlisted".to_string(),
        version: "1".to_string(),
        description: "No package".to_string(),
        default_budget: ResourceBudget::unlimited(),
    });
    assert_eq!(store.list().len(), 3);
    match store.plan_install("heavy", "0.1.0") {
        Err(e) => assert_eq!(e.to_string(), "Policy denied install: cpu budget 10 exceeds cap 5"),
        Ok(_) => panic!("expected a denial"),
    }
    let plan = store.plan_install("light", "0.1.0").unwrap();
    assert_eq!(plan.package.source_digest, "abc");
    assert_eq!(plan.budget.cpu_ticks, Some(CpuTicks::new(5)));
    match store.plan_install("unlisted", "1") {
        Err(StoreError::Registry(m)) => assert_eq!(m, "Package not found: unlisted@1"),
        _ => panic!("expected a registry error"),
    }
    match store.plan_install("nothing", "1") {
        Err(e) => assert_eq!(e.to_string(), "Listing not found: nothing@1"),
        Ok(_) => panic!("expected not found"),
    }
    let _ = AllowAllPolicy;
}
