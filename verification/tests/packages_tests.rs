use std::collections::HashMap;
use pandagen::packages::{ComponentLoader, ComponentSpec, PackageComponentType, PackageError, PackageFormatVersion, PackageManifest};

#[test]
fn test_duplicate_component_ids_fail() {
    let manifest = PackageManifest {
        format_version: PackageFormatVersion::new(1, 0),
        name: "dup".to_string(),
        version: "0.1.0".to_string(),
        components: vec![
            ComponentSpec {
                id: "comp".to_string(),
                name: "One".to_string(),
                component_type: PackageComponentType::Editor,
                entry: "services_editor_vi".to_string(),
                focusable: true,
                metadata: HashMap::new(),
                budget: None,
            },
            ComponentSpec {
                id: "comp".to_string(),
                name: "Two".to_string(),
                component_type: PackageComponentType::Cli,
                entry: "cli_console".to_string(),
                focusable: true,
                metadata: HashMap::new(),
                budget: None,
            },
        ],
    };

    let result = manifest.validate();
    assert!(matches!(result, Err(PackageError::DuplicateComponentId(_))));
}

#[test]
fn test_component_loader_builds_plan() {
    let manifest = PackageManifest {
        format_version: PackageFormatVersion::new(1, 0),
        name: "demo".to_string(),
        version: "0.1.0".to_string(),
        components: vec![ComponentSpec {
            id: "editor".to_string(),
            name: "Demo".to_string(),
            component_type: PackageComponentType::Editor,
            entry: "services_editor_vi".to_string(),
            focusable: true,
            metadata: HashMap::new(),
            budget: None,
        }],
    };

    let plan = ComponentLoader::build_launch_plan(&manifest).unwrap();
    assert_eq!(plan.len(), 1);
    assert_eq!(plan[0].name, "Demo");
    assert_eq!(plan[0].entry, "services_editor_vi");
}

fn component(id: &str, name: &str, entry: &str) -> ComponentSpec {
    ComponentSpec {
        id: id.to_string(),
        name: name.to_string(),
        component_type: PackageComponentType::Custom,
        entry: entry.to_string(),
        focusable: false,
        metadata: HashMap::new(),
        budget: None,
    }
}

fn manifest(name: &str, components: Vec<ComponentSpec>) -> PackageManifest {
    PackageManifest {
        format_version: PackageFormatVersion::new(1, 0),
        name: name.to_string(),
        version: "0.1.0".to_string(),
        components,
    }
}

#[test]
fn test_manifest_errors_in_order() {
    let m = manifest("  \t", vec![component("a", "A", "x")]);
    match m.validate() {
        Err(PackageError::InvalidManifest(msg)) => assert_eq!(msg, "Package name cannot be empty"),
        _ => panic!("expected an invalid manifest"),
    }
    let m = manifest("p", vec![component("a", "A", "x"), component("b", "A", "y")]);
    assert!(matches!(m.validate(), Err(PackageError::DuplicateComponentName(ref n)) if n == "A"));
    let m = manifest("p", vec![component("a", "A", "x"), component("b", "B", "   ")]);
    match m.validate() {
        Err(e) => assert_eq!(e.to_string(), "Invalid manifest: Component b has empty entry"),
        _ => panic!("expected a blank entry"),
    }
    let m = manifest("p", vec![component("a", "A", " "), component("a", "A", "y")]);
    assert!(matches!(m.validate(), Err(PackageError::InvalidManifest(_))));
    assert!(ComponentLoader::build_launch_plan(&m).is_err());
    let mut meta = HashMap::new();
    meta.insert("role".to_string(), "primary".to_string());
    let mut c = component("a", "A", "x");
    c.metadata = meta;
    let plan = ComponentLoader::build_launch_plan(&manifest("p", vec![c])).unwrap();
    assert_eq!(plan[0].metadata.get("role").map(|s| s.as_str()), Some("primary"));
    assert_eq!(plan[0].component_type, PackageComponentType::Custom);
    assert!(!plan[0].focusable);
}
