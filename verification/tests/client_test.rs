use kube_fake_client::client::FakeClient;
use kube_fake_client::error::Error;
use kube_fake_client::json::Json;
use kube_fake_client::tracker::GVK;

fn obj(fields: Vec<(&str, Json)>) -> Json {
    Json::Obj(fields.into_iter().map(|(k, v)| (k.to_string(), v)).collect())
}

fn s(text: &str) -> Json {
    Json::Str(text.to_string())
}

fn pod(name: &str, namespace: &str) -> Json {
    obj(vec![
        ("apiVersion", s("v1")),
        ("kind", s("Pod")),
        ("metadata", obj(vec![("name", s(name)), ("namespace", s(namespace))])),
    ])
}

fn get_str<'a>(doc: &'a Json, path: &[&str]) -> &'a str {
    let mut cur = doc;
    for key in path {
        cur = cur.get(key).expect("path step missing");
    }
    match cur {
        Json::Str(v) => v.as_str(),
        other => panic!("expected a string, found {:?}", other),
    }
}

fn with_meta_field(doc: Json, key: &str, value: Json) -> Json {
    let meta = doc.get("metadata").expect("metadata missing").duplicate();
    let meta = meta.set(key, value);
    doc.set("metadata", meta)
}

fn with_labels(doc: Json, pairs: &[(&str, &str)]) -> Json {
    let labels = Json::Obj(
        pairs
            .iter()
            .map(|(k, v)| (k.to_string(), s(v)))
            .collect(),
    );
    with_meta_field(doc, "labels", labels)
}

fn pod_gvk() -> GVK {
    GVK::new("", "v1", "Pod")
}

#[test]
fn test_create_and_get() {
    let mut client = FakeClient::new();
    let p = pod("test-pod", "default");

    let created = client.create("default", p).unwrap();

    assert_eq!(get_str(&created, &["metadata", "name"]), "test-pod");
    assert_eq!(get_str(&created, &["metadata", "resourceVersion"]), "1");

    let retrieved = client.get(&pod_gvk(), "default", "test-pod").unwrap();
    assert_eq!(get_str(&retrieved, &["metadata", "name"]), "test-pod");
}

#[test]
fn client_test_test_list() {
    let mut client = FakeClient::new();

    for i in 1..=3 {
        let p = pod(&format!("pod-{}", i), "default");
        client.create("default", p).unwrap();
    }

    let pods = client.list(&pod_gvk(), Some("default"), None, None).unwrap();

    assert_eq!(pods.len(), 3);
}

#[test]
fn test_readme_patch_example() {
    let mut client = FakeClient::new();

    let p = pod("test-pod", "default");
    client.create("default", p).unwrap();

    let patch = obj(vec![(
        "metadata",
        obj(vec![("labels", obj(vec![("new-label", s("value"))]))]),
    )]);

    let patched = client.patch(&pod_gvk(), "default", "test-pod", &patch).unwrap();

    assert_eq!(get_str(&patched, &["metadata", "labels", "new-label"]), "value");
}

#[test]
fn test_resource_version_conflict_detection() {
    let mut client = FakeClient::new();

    let p = pod("test-pod", "default");
    let created = client.create("default", p).unwrap();
    assert_eq!(get_str(&created, &["metadata", "resourceVersion"]), "1");

    let pod1 = client.get(&pod_gvk(), "default", "test-pod").unwrap();
    let pod2 = client.get(&pod_gvk(), "default", "test-pod").unwrap();

    let pod1 = with_labels(pod1, &[("test", "value1")]);
    let updated1 = client.update("default", pod1).unwrap();
    assert_eq!(get_str(&updated1, &["metadata", "resourceVersion"]), "2");

    let pod2 = with_labels(pod2, &[("test", "value2")]);
    let result = client.update("default", pod2);

    assert!(result.is_err());
    let err = result.unwrap_err();
    assert!(matches!(err, Error::Conflict(_)), "Expected Conflict error, got: {:?}", err);
}

#[test]
fn test_resource_version_increments() {
    let mut client = FakeClient::new();

    let p = pod("test-pod", "default");

    let created = client.create("default", p).unwrap();
    assert_eq!(get_str(&created, &["metadata", "resourceVersion"]), "1");

    let updated = with_labels(created.duplicate(), &[("v", "1")]);
    let updated = client.update("default", updated).unwrap();
    assert_eq!(get_str(&updated, &["metadata", "resourceVersion"]), "2");

    let updated = with_labels(updated.duplicate(), &[("v", "2")]);
    let updated = client.update("default", updated).unwrap();
    assert_eq!(get_str(&updated, &["metadata", "resourceVersion"]), "3");
}

#[test]
fn test_field_selector_metadata_name() {
    let mut client = FakeClient::new();

    for i in 1..=3 {
        let p = pod(&format!("pod-{}", i), "default");
        client.create("default", p).unwrap();
    }

    let pods = client
        .list(&pod_gvk(), Some("default"), None, Some("metadata.name=pod-2"))
        .unwrap();

    assert_eq!(pods.len(), 1);
    assert_eq!(get_str(&pods[0], &["metadata", "name"]), "pod-2");
}

#[test]
fn test_field_selector_metadata_namespace() {
    let mut client = FakeClient::new();

    let p1 = pod("pod-1", "default");
    client.create("default", p1).unwrap();

    let p2 = pod("pod-2", "kube-system");
    client.create("kube-system", p2).unwrap();

    let pods = client
        .list(&pod_gvk(), None, None, Some("metadata.namespace=default"))
        .unwrap();

    assert_eq!(pods.len(), 1);
    assert_eq!(get_str(&pods[0], &["metadata", "namespace"]), "default");
}

#[test]
fn test_field_selector_spec_nodename_for_pods() {
    let mut client = FakeClient::new();

    let p1 = pod("pod-1", "default").set("spec", obj(vec![("nodeName", s("node-1"))]));
    client.create("default", p1).unwrap();

    let p2 = pod("pod-2", "default").set("spec", obj(vec![("nodeName", s("node-2"))]));
    client.create("default", p2).unwrap();

    let pods = client
        .list(&pod_gvk(), Some("default"), None, Some("spec.nodeName=node-1"))
        .unwrap();

    assert_eq!(pods.len(), 1);
    assert_eq!(get_str(&pods[0], &["metadata", "name"]), "pod-1");
    assert_eq!(get_str(&pods[0], &["spec", "nodeName"]), "node-1");
}

#[test]
fn test_field_selector_status_phase_for_pods() {
    let mut client = FakeClient::new();

    let p1 = pod("pod-1", "default").set("status", obj(vec![("phase", s("Running"))]));
    client.create("default", p1).unwrap();

    let p2 = pod("pod-2", "default").set("status", obj(vec![("phase", s("Pending"))]));
    client.create("default", p2).unwrap();

    let pods = client
        .list(&pod_gvk(), Some("default"), None, Some("status.phase=Running"))
        .unwrap();

    assert_eq!(pods.len(), 1);
    assert_eq!(get_str(&pods[0], &["metadata", "name"]), "pod-1");
}

#[test]
fn test_field_selector_multiple_common_fields() {
    let mut client = FakeClient::new();

    for i in 1..=3 {
        let p = pod(&format!("pod-{}", i), "default");
        client.create("default", p).unwrap();
    }

    let p = pod("pod-1", "kube-system");
    client.create("kube-system", p).unwrap();

    let pods = client
        .list(
            &pod_gvk(),
            None,
            None,
            Some("metadata.name=pod-1,metadata.namespace=default"),
        )
        .unwrap();

    assert_eq!(pods.len(), 1);
    assert_eq!(get_str(&pods[0], &["metadata", "name"]), "pod-1");
    assert_eq!(get_str(&pods[0], &["metadata", "namespace"]), "default");
}

#[test]
fn test_field_selector_no_match() {
    let mut client = FakeClient::new();

    let p = pod("test-pod", "default");
    client.create("default", p).unwrap();

    let pods = client
        .list(&pod_gvk(), Some("default"), None, Some("metadata.name=nonexistent"))
        .unwrap();

    assert_eq!(pods.len(), 0);
}

#[test]
fn test_verb_validation_unsupported_verb() {
    let mut client = FakeClient::new();

    // ComponentStatus only supports get and list, not create.
    let cs = obj(vec![
        ("apiVersion", s("v1")),
        ("kind", s("ComponentStatus")),
        ("metadata", obj(vec![("name", s("test-cs"))])),
    ]);

    let result = client.create("", cs);

    match result {
        Err(Error::VerbNotSupported { verb, kind }) => {
            assert_eq!(verb, "create");
            assert_eq!(kind, "ComponentStatus");
        }
        Ok(_) => panic!("Expected VerbNotSupported error, got success"),
        Err(e) => panic!("Expected VerbNotSupported error, got: {:?}", e),
    }
}

#[test]
fn test_verb_validation_supported_verbs() {
    let mut client = FakeClient::new();

    let p = pod("test-pod", "default");

    let result = client.create("default", p);
    assert!(result.is_ok(), "Create should succeed for Pod");

    let result = client.get(&pod_gvk(), "default", "test-pod");
    assert!(result.is_ok(), "Get should succeed for Pod");

    let result = client.list(&pod_gvk(), Some("default"), None, None);
    assert!(result.is_ok(), "List should succeed for Pod");

    let updated = with_labels(pod("test-pod", "default"), &[("test", "value")]);
    let result = client.update("default", updated);
    assert!(result.is_ok(), "Update should succeed for Pod");

    let patch = obj(vec![(
        "metadata",
        obj(vec![("labels", obj(vec![("patched", s("true"))]))]),
    )]);
    let result = client.patch(&pod_gvk(), "default", "test-pod", &patch);
    assert!(result.is_ok(), "Patch should succeed for Pod");

    let result = client.delete(&pod_gvk(), "default", "test-pod");
    assert!(result.is_ok(), "Delete should succeed for Pod");
}

#[test]
fn test_verb_validation_for_crds() {
    // All standard verbs (create, get, list, update, patch, delete) are
    // allowed for registered custom resources by default.
    let mut client = FakeClient::new();
    client.register_resource("Widget", "example.io", "v1", "widgets", true);
    let gvk = GVK::new("example.io", "v1", "Widget");

    let w = obj(vec![
        ("apiVersion", s("example.io/v1")),
        ("kind", s("Widget")),
        ("metadata", obj(vec![("name", s("w1")), ("namespace", s("default"))])),
    ]);

    assert!(client.create("default", w).is_ok());
    assert!(client.get(&gvk, "default", "w1").is_ok());
    assert!(client.list(&gvk, Some("default"), None, None).is_ok());
    let patch = obj(vec![(
        "metadata",
        obj(vec![("labels", obj(vec![("a", s("b"))]))]),
    )]);
    assert!(client.patch(&gvk, "default", "w1", &patch).is_ok());
    assert!(client.delete(&gvk, "default", "w1").is_ok());
}

#[test]
fn test_immutable_field_validation_metadata_name() {
    let mut client = FakeClient::new();

    let p = pod("test-pod", "default");
    let created = client.create("default", p).unwrap();

    let updated_pod = with_meta_field(created.duplicate(), "name", s("different-name"));

    let result = client.update("default", updated_pod);

    match result {
        Err(Error::ImmutableField { field }) => {
            assert_eq!(field, "metadata.name");
        }
        Ok(_) => panic!("Expected ImmutableField error, got success"),
        Err(e) => panic!("Expected ImmutableField error, got: {:?}", e),
    }
}

#[test]
fn test_immutable_field_validation_metadata_namespace() {
    let mut client = FakeClient::new();

    let p = pod("test-pod", "default");
    let created = client.create("default", p).unwrap();

    let updated_pod = with_meta_field(created.duplicate(), "namespace", s("kube-system"));

    let result = client.update("default", updated_pod);

    match result {
        Err(Error::ImmutableField { field }) => {
            assert_eq!(field, "metadata.namespace");
        }
        Ok(_) => panic!("Expected ImmutableField error, got success"),
        Err(e) => panic!("Expected ImmutableField error, got: {:?}", e),
    }
}

#[test]
fn test_immutable_field_validation_kind() {
    let mut client = FakeClient::new();

    let cm = obj(vec![
        ("apiVersion", s("v1")),
        ("kind", s("ConfigMap")),
        ("metadata", obj(vec![("name", s("test-cm")), ("namespace", s("default"))])),
    ]);
    let created = client.create("default", cm).unwrap();

    let cm_value = created.set("kind", s("DifferentKind"));

    let gvk = GVK::new("", "v1", "ConfigMap");
    let gvr = kube_fake_client::tracker::GVR::new("", "v1", "configmaps");

    let existing = client.tracker().get(&gvr, "default", "test-cm").unwrap();

    let result = client.validate_immutable_fields(&gvk, &existing, &cm_value);

    match result {
        Err(Error::ImmutableField { field }) => {
            assert_eq!(field, "kind");
        }
        Ok(_) => panic!("Expected ImmutableField error, got success"),
        Err(e) => panic!("Expected ImmutableField error, got: {:?}", e),
    }
}

#[test]
fn test_immutable_field_validation_allows_mutable_fields() {
    let mut client = FakeClient::new();

    let p = pod("test-pod", "default");
    let created = client.create("default", p).unwrap();

    let updated_pod = with_labels(created.duplicate(), &[("test", "value")]);

    let result = client.update("default", updated_pod);
    assert!(result.is_ok(), "Updating mutable fields should succeed");
}

#[test]
fn test_immutable_field_validation_with_patch() {
    let mut client = FakeClient::new();

    let p = pod("test-pod", "default");
    client.create("default", p).unwrap();

    let patch = obj(vec![("metadata", obj(vec![("name", s("different-name"))]))]);

    let result = client.patch(&pod_gvk(), "default", "test-pod", &patch);

    match result {
        Err(Error::ImmutableField { field }) => {
            assert_eq!(field, "metadata.name");
        }
        Ok(_) => panic!("Expected ImmutableField error, got success"),
        Err(e) => panic!("Expected ImmutableField error, got: {:?}", e),
    }
}

#[test]
fn test_immutable_field_validation_patch_allows_mutable() {
    let mut client = FakeClient::new();

    let p = pod("test-pod", "default");
    client.create("default", p).unwrap();

    let patch = obj(vec![(
        "metadata",
        obj(vec![("labels", obj(vec![("patched", s("true"))]))]),
    )]);

    let result = client.patch(&pod_gvk(), "default", "test-pod", &patch);
    assert!(result.is_ok(), "Patching mutable fields should succeed");
}

#[test]
fn test_label_selector_list_scenarios() {
    let mut client = FakeClient::new();

    let p1 = with_labels(pod("p1", "default"), &[("app", "frontend")]);
    let p2 = with_labels(pod("p2", "default"), &[("app", "frontend"), ("env", "dev")]);
    let p3 = with_labels(pod("p3", "default"), &[("app", "backend")]);
    client.create("default", p1).unwrap();
    client.create("default", p2).unwrap();
    client.create("default", p3).unwrap();

    let two = client
        .list(&pod_gvk(), Some("default"), Some("app=frontend"), None)
        .unwrap();
    assert_eq!(two.len(), 2);

    let one = client
        .list(&pod_gvk(), Some("default"), Some("app in (backend)"), None)
        .unwrap();
    assert_eq!(one.len(), 1);

    let no_env = client
        .list(&pod_gvk(), Some("default"), Some("!env"), None)
        .unwrap();
    assert_eq!(no_env.len(), 2);
}

#[test]
fn test_field_selector_unknown_field_is_rejected() {
    let mut client = FakeClient::new();

    let p = pod("p1", "default");
    client.create("default", p).unwrap();

    let result = client.list(&pod_gvk(), Some("default"), None, Some("spec.unknown=x"));

    match result {
        Err(Error::IndexNotFound { kind, field }) => {
            assert_eq!(kind, "Pod");
            assert_eq!(field, "spec.unknown");
        }
        other => panic!("Expected IndexNotFound, got: {:?}", other.map(|v| v.len())),
    }
}

#[test]
fn test_error_messages_match_the_wire_contract() {
    let nf = Error::NotFound {
        kind: "pods".to_string(),
        name: "my-pod".to_string(),
        namespace: "default".to_string(),
    };
    let body = nf.to_status();
    assert_eq!(body.status, "Failure");
    assert_eq!(body.message, "pods \"my-pod\" not found");
    assert_eq!(body.reason, "NotFound");
    assert_eq!(body.code, 404);

    let ae = Error::AlreadyExists {
        kind: "pods".to_string(),
        name: "my-pod".to_string(),
        namespace: "default".to_string(),
    };
    let body = ae.to_status();
    assert_eq!(body.message, "pods \"my-pod\" already exists");
    assert_eq!(body.reason, "AlreadyExists");
    assert_eq!(body.code, 409);

    let imm = Error::ImmutableField { field: "metadata.name".to_string() };
    let body = imm.to_status();
    assert_eq!(body.message, "field is immutable: metadata.name");
    assert_eq!(body.reason, "Invalid");
    assert_eq!(body.code, 422);

    let verb = Error::VerbNotSupported {
        verb: "create".to_string(),
        kind: "ComponentStatus".to_string(),
    };
    let body = verb.to_status();
    assert_eq!(
        body.message,
        "ComponentStatus \"ComponentStatus\" is forbidden: verb \"create\" is not supported"
    );
    assert_eq!(body.reason, "MethodNotAllowed");
    assert_eq!(body.code, 405);

    let reg = Error::ResourceNotRegistered {
        group: "unknown.io".to_string(),
        version: "v1".to_string(),
        resource: "widgets".to_string(),
    };
    let body = reg.to_status();
    assert_eq!(
        body.message,
        "the server could not find the requested resource (unknown.io/widgets)"
    );
    assert_eq!(body.reason, "NotFound");
    assert_eq!(body.code, 404);

    let fsel = Error::IndexNotFound {
        kind: "Pod".to_string(),
        field: "spec.unknown".to_string(),
    };
    let body = fsel.to_status();
    assert_eq!(body.message, "field selector spec.unknown not supported for Pod");
    assert_eq!(body.reason, "BadRequest");
    assert_eq!(body.code, 400);

    let val = Error::ValidationFailed {
        kind: "Pod".to_string(),
        errors: vec!["a".to_string(), "b".to_string()],
    };
    let body = val.to_status();
    assert_eq!(body.message, "Pod failed schema validation: a, b");
    assert_eq!(body.reason, "Invalid");
    assert_eq!(body.code, 422);
}

#[test]
fn test_merge_patch_removes_fields_with_null() {
    let mut client = FakeClient::new();

    let p = with_labels(pod("p1", "default"), &[("keep", "yes"), ("drop", "old")]);
    client.create("default", p).unwrap();

    let patch = obj(vec![(
        "metadata",
        obj(vec![("labels", obj(vec![("drop", Json::Null)]))]),
    )]);
    let patched = client.patch(&pod_gvk(), "default", "p1", &patch).unwrap();

    let labels = patched.get("metadata").unwrap().get("labels").unwrap();
    assert!(labels.get("keep").is_some());
    assert!(labels.get("drop").is_none());
}

#[test]
fn test_managed_fields_are_stripped_from_reads() {
    let mut client = FakeClient::new();

    let p = with_meta_field(
        pod("test-pod", "default"),
        "managedFields",
        Json::Arr(vec![obj(vec![("manager", s("kubectl"))])]),
    );
    let created = client.create("default", p).unwrap();
    assert!(created.get("metadata").unwrap().get("managedFields").is_none());

    // The stored document still carries them; only handed-out copies drop
    // them.
    let gvr = kube_fake_client::tracker::GVR::new("", "v1", "pods");
    let stored = client.tracker().get(&gvr, "default", "test-pod").unwrap();
    assert!(stored.get("metadata").unwrap().get("managedFields").is_some());
}

#[test]
fn test_update_status_preserves_spec_and_generation() {
    let mut client = FakeClient::new();

    let p = pod("test-pod", "default")
        .set("spec", obj(vec![("nodeName", s("n1"))]))
        .set("status", obj(vec![("phase", s("Pending"))]));
    let created = client.create("default", p).unwrap();
    assert_eq!(get_str(&created, &["metadata", "resourceVersion"]), "1");

    let status_write = pod("test-pod", "default")
        .set("spec", obj(vec![("nodeName", s("other"))]))
        .set("status", obj(vec![("phase", s("Running"))]));
    let status_write = with_meta_field(status_write, "resourceVersion", s("1"));

    let updated = client.update_status("default", status_write).unwrap();
    assert_eq!(get_str(&updated, &["status", "phase"]), "Running");
    assert_eq!(get_str(&updated, &["spec", "nodeName"]), "n1");
    match updated.get("metadata").unwrap().get("generation").unwrap() {
        Json::Int(g) => assert_eq!(*g, 1),
        other => panic!("unexpected {:?}", other),
    }
}

#[test]
fn test_deletion_on_finalizer_drain() {
    let mut client = FakeClient::new();
    let gvr = kube_fake_client::tracker::GVR::new("", "v1", "pods");
    let gvk = pod_gvk();

    // Seed an object that is already marked for deletion but blocked by a
    // finalizer.
    let p = with_meta_field(pod("doomed", "default"), "deletionTimestamp", s("2024-01-01T00:00:00Z"));
    let p = with_meta_field(p, "finalizers", Json::Arr(vec![s("block")]));
    client.seed(&gvr, &gvk, p, "default").unwrap();

    // Dropping the last finalizer removes the object on the write.
    let stored = client.tracker().get(&gvr, "default", "doomed").unwrap();
    let drained = with_meta_field(stored, "finalizers", Json::Arr(vec![]));
    let result = client.update("default", drained).unwrap();
    assert_eq!(get_str(&result, &["metadata", "name"]), "doomed");
    assert!(client.tracker().get(&gvr, "default", "doomed").is_err());
}
