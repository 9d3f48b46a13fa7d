use kube_fake_client::discovery::Discovery;
use kube_fake_client::registry::ResourceRegistry;
use kube_fake_client::tracker::{GVK, GVR};

#[test]
fn test_pod_discovery() {
    let gvk = GVK::new("", "v1", "Pod");

    assert_eq!(Discovery::is_namespaced(&gvk), Some(true));
    assert_eq!(Discovery::get_plural(&gvk), Some("pods".to_string()));
    assert_eq!(Discovery::get_singular(&gvk), Some("pod".to_string()));
    assert!(Discovery::has_subresource(&gvk, "status"));
    assert!(Discovery::supports_verb(&gvk, "create"));
    assert!(Discovery::supports_verb(&gvk, "delete"));
    assert!(Discovery::supports_verb(&gvk, "watch"));

    let short_names = Discovery::get_short_names(&gvk);
    assert!(short_names.contains(&"po".to_string()));
}

#[test]
fn test_deployment_discovery() {
    let gvk = GVK::new("apps", "v1", "Deployment");

    assert_eq!(Discovery::is_namespaced(&gvk), Some(true));
    assert_eq!(Discovery::get_plural(&gvk), Some("deployments".to_string()));
    assert!(Discovery::has_subresource(&gvk, "status"));
    assert!(Discovery::has_subresource(&gvk, "scale"));

    let short_names = Discovery::get_short_names(&gvk);
    assert!(short_names.contains(&"deploy".to_string()));
}

#[test]
fn test_namespace_is_cluster_scoped() {
    let gvk = GVK::new("", "v1", "Namespace");

    assert_eq!(Discovery::is_namespaced(&gvk), Some(false));
    assert_eq!(Discovery::get_plural(&gvk), Some("namespaces".to_string()));
}

#[test]
fn test_gvk_to_gvr() {
    let gvk = GVK::new("", "v1", "Service");
    let gvr = Discovery::gvk_to_gvr(&gvk).unwrap();

    assert_eq!(gvr.group, "");
    assert_eq!(gvr.version, "v1");
    assert_eq!(gvr.resource, "services");
}

#[test]
fn test_unknown_resource_returns_none() {
    let gvk = GVK::new("example.com", "v1", "MyResource");

    assert_eq!(Discovery::is_namespaced(&gvk), None);
    assert_eq!(Discovery::get_plural(&gvk), None);
    assert_eq!(Discovery::get_singular(&gvk), None);
    assert!(Discovery::gvk_to_gvr(&gvk).is_none());

    assert_eq!(Discovery::plural_to_kind("example.com", "v1", "myresources"), None);
}

#[test]
fn test_plural_to_kind() {
    assert_eq!(Discovery::plural_to_kind("", "v1", "pods"), Some("Pod".to_string()));
    assert_eq!(
        Discovery::plural_to_kind("", "v1", "services"),
        Some("Service".to_string())
    );
    assert_eq!(
        Discovery::plural_to_kind("", "v1", "namespaces"),
        Some("Namespace".to_string())
    );
    assert_eq!(
        Discovery::plural_to_kind("", "v1", "configmaps"),
        Some("ConfigMap".to_string())
    );

    assert_eq!(
        Discovery::plural_to_kind("apps", "v1", "deployments"),
        Some("Deployment".to_string())
    );
    assert_eq!(
        Discovery::plural_to_kind("apps", "v1", "statefulsets"),
        Some("StatefulSet".to_string())
    );
    assert_eq!(
        Discovery::plural_to_kind("apps", "v1", "daemonsets"),
        Some("DaemonSet".to_string())
    );

    assert_eq!(Discovery::plural_to_kind("unknown", "v1", "foos"), None);
}

#[test]
fn test_gvr_to_gvk() {
    let gvr = GVR::new("", "v1", "pods");
    let gvk = Discovery::gvr_to_gvk(&gvr).unwrap();
    assert_eq!(gvk.group, "");
    assert_eq!(gvk.version, "v1");
    assert_eq!(gvk.kind, "Pod");

    let gvr = GVR::new("apps", "v1", "deployments");
    let gvk = Discovery::gvr_to_gvk(&gvr).unwrap();
    assert_eq!(gvk.group, "apps");
    assert_eq!(gvk.version, "v1");
    assert_eq!(gvk.kind, "Deployment");

    let gvr = GVR::new("unknown", "v1", "foos");
    assert!(Discovery::gvr_to_gvk(&gvr).is_none());
}

#[test]
fn test_gvk_gvr_round_trip() {
    let original_gvk = GVK::new("", "v1", "Service");
    let gvr = Discovery::gvk_to_gvr(&original_gvk).unwrap();
    let recovered_gvk = Discovery::gvr_to_gvk(&gvr).unwrap();

    assert_eq!(original_gvk.group, recovered_gvk.group);
    assert_eq!(original_gvk.version, recovered_gvk.version);
    assert_eq!(original_gvk.kind, recovered_gvk.kind);
}

#[test]
fn test_registry_fallback_resolution() {
    let mut registry = ResourceRegistry::new();
    registry.register("Widget", "example.io", "v1", "widgets", true);

    assert_eq!(
        Discovery::plural_to_kind_with_registry("example.io", "v1", "widgets", &registry),
        Some("Widget".to_string())
    );
    let gvk = GVK::new("example.io", "v1", "Widget");
    let gvr = Discovery::gvk_to_gvr_with_registry(&gvk, &registry).unwrap();
    assert_eq!(gvr.resource, "widgets");
}

#[test]
fn test_list_all_resources_has_core_kinds() {
    let resources = Discovery::list_all_resources();
    assert!(resources.len() >= 20);
    assert!(resources
        .iter()
        .any(|(g, v, k, p)| g == "" && v == "v1" && k == "Pod" && p == "pods"));
}
