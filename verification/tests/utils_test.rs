use kube_fake_client::client_utils::{extract_gvk, pluralize};
use kube_fake_client::json::Json;
use kube_fake_client::meta::increment_resource_version;

fn obj(fields: Vec<(&str, Json)>) -> Json {
    Json::Obj(fields.into_iter().map(|(k, v)| (k.to_string(), v)).collect())
}

fn s(text: &str) -> Json {
    Json::Str(text.to_string())
}

#[test]
fn test_increment_resource_version() {
    assert_eq!(increment_resource_version("").unwrap(), "1");
    assert_eq!(increment_resource_version("1").unwrap(), "2");
    assert_eq!(increment_resource_version("999").unwrap(), "1");
    assert_eq!(increment_resource_version("42").unwrap(), "43");
}

#[test]
fn test_extract_gvk() {
    let o = obj(vec![
        ("apiVersion", s("apps/v1")),
        ("kind", s("Deployment")),
        ("metadata", obj(vec![("name", s("test"))])),
    ]);

    let gvk = extract_gvk(&o).unwrap();
    assert_eq!(gvk.group, "apps");
    assert_eq!(gvk.version, "v1");
    assert_eq!(gvk.kind, "Deployment");
}

#[test]
fn test_pluralize() {
    assert_eq!(pluralize("Pod"), "pods");
    assert_eq!(pluralize("Deployment"), "deployments");
    assert_eq!(pluralize("ReplicaSet"), "replicasets");
}

/// Test cases for the native Kubernetes kinds, checked against the plural
/// names the real discovery data gives them.
#[test]
fn test_pluralize_native_kinds() {
    let native_kinds = vec![
        ("APIService", "apiservices"),
        ("Binding", "bindings"),
        ("CertificateSigningRequest", "certificatesigningrequests"),
        ("ClusterRole", "clusterroles"),
        ("ClusterRoleBinding", "clusterrolebindings"),
        ("ComponentStatus", "componentstatuses"),
        ("ConfigMap", "configmaps"),
        ("ControllerRevision", "controllerrevisions"),
        ("CronJob", "cronjobs"),
        ("CSIDriver", "csidrivers"),
        ("CSINode", "csinodes"),
        ("CSIStorageCapacity", "csistoragecapacities"),
        ("CustomResourceDefinition", "customresourcedefinitions"),
        ("DaemonSet", "daemonsets"),
        ("Deployment", "deployments"),
        ("Endpoints", "endpoints"),
        ("EndpointSlice", "endpointslices"),
        ("Event", "events"),
        ("FlowSchema", "flowschemas"),
        ("HorizontalPodAutoscaler", "horizontalpodautoscalers"),
        ("Ingress", "ingresses"),
        ("IngressClass", "ingressclasses"),
        ("Job", "jobs"),
        ("Lease", "leases"),
        ("LimitRange", "limitranges"),
        ("LocalSubjectAccessReview", "localsubjectaccessreviews"),
        ("MutatingWebhookConfiguration", "mutatingwebhookconfigurations"),
        ("Namespace", "namespaces"),
        ("NetworkPolicy", "networkpolicies"),
        ("Node", "nodes"),
        ("PersistentVolumeClaim", "persistentvolumeclaims"),
        ("PersistentVolume", "persistentvolumes"),
        ("PodDisruptionBudget", "poddisruptionbudgets"),
        ("Pod", "pods"),
        ("PodSecurityPolicy", "podsecuritypolicies"),
        ("PodTemplate", "podtemplates"),
        ("PriorityClass", "priorityclasses"),
        ("PriorityLevelConfiguration", "prioritylevelconfigurations"),
        ("ReplicaSet", "replicasets"),
        ("ReplicationController", "replicationcontrollers"),
        ("ResourceQuota", "resourcequotas"),
        ("Role", "roles"),
        ("RoleBinding", "rolebindings"),
        ("RuntimeClass", "runtimeclasses"),
        ("Secret", "secrets"),
        ("SelfSubjectAccessReview", "selfsubjectaccessreviews"),
        ("SelfSubjectRulesReview", "selfsubjectrulesreviews"),
        ("ServiceAccount", "serviceaccounts"),
        ("Service", "services"),
        ("StatefulSet", "statefulsets"),
        ("StorageClass", "storageclasses"),
        ("StorageVersion", "storageversions"),
        ("SubjectAccessReview", "subjectaccessreviews"),
        ("TokenReview", "tokenreviews"),
        ("ValidatingWebhookConfiguration", "validatingwebhookconfigurations"),
        ("VolumeAttachment", "volumeattachments"),
    ];

    for (kind, expected_plural) in native_kinds {
        assert_eq!(
            pluralize(kind),
            expected_plural,
            "Failed to pluralize {} correctly",
            kind
        );
    }
}
