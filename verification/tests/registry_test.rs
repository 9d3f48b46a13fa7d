use kube_fake_client::registry::ResourceRegistry;

#[test]
fn test_registry_empty() {
    let registry = ResourceRegistry::new();
    assert!(registry.lookup("example.com", "v1", "myapps").is_none());
}

#[test]
fn test_registry_lookup_after_register() {
    let mut registry = ResourceRegistry::new();
    registry.register("MyApp", "example.com", "v1", "myapps", true);

    let m = registry.lookup("example.com", "v1", "myapps").unwrap();
    assert_eq!(m.kind, "MyApp");
    assert_eq!(m.group, "example.com");
    assert_eq!(m.version, "v1");
    assert_eq!(m.plural, "myapps");
    assert!(m.namespaced);

    assert_eq!(
        registry.plural_to_kind("example.com", "v1", "myapps"),
        Some("MyApp".to_string())
    );
    assert_eq!(
        registry.kind_to_plural("example.com", "v1", "MyApp"),
        Some("myapps".to_string())
    );
    assert_eq!(registry.is_namespaced("example.com", "v1", "MyApp"), Some(true));
    assert!(registry.lookup_by_kind("example.com", "v1", "MyApp").is_some());
    assert!(registry.lookup_by_kind("example.com", "v1", "Other").is_none());
}

#[test]
fn test_registry_register_replaces_same_plural() {
    let mut registry = ResourceRegistry::new();
    registry.register("MyApp", "example.com", "v1", "myapps", true);
    registry.register("MyAppTwo", "example.com", "v1", "myapps", true);

    let m = registry.lookup("example.com", "v1", "myapps").unwrap();
    assert_eq!(m.kind, "MyAppTwo");
}

#[test]
fn test_registry_cluster_scoped_registration() {
    let mut registry = ResourceRegistry::new();
    registry.register("ClusterWidget", "example.com", "v1", "clusterwidgets", false);

    let m = registry.lookup("example.com", "v1", "clusterwidgets").unwrap();
    assert!(!m.namespaced);
    assert_eq!(
        registry.is_namespaced("example.com", "v1", "ClusterWidget"),
        Some(false)
    );
}
