use kube_fake_client::json::{json_eq, Json};
use kube_fake_client::tracker::{ObjectTracker, GVK, GVR};

fn obj(fields: Vec<(&str, Json)>) -> Json {
    Json::Obj(fields.into_iter().map(|(k, v)| (k.to_string(), v)).collect())
}

fn s(text: &str) -> Json {
    Json::Str(text.to_string())
}

fn create_test_object(name: &str, namespace: &str) -> Json {
    obj(vec![
        ("apiVersion", s("v1")),
        ("kind", s("Pod")),
        ("metadata", obj(vec![("name", s(name)), ("namespace", s(namespace))])),
        (
            "spec",
            obj(vec![(
                "containers",
                Json::Arr(vec![obj(vec![("name", s("test")), ("image", s("nginx"))])]),
            )]),
        ),
    ])
}

fn get_str<'a>(doc: &'a Json, path: &[&str]) -> &'a str {
    let mut cur = doc;
    for key in path {
        cur = cur.get(key).expect("path step missing");
    }
    match cur {
        Json::Str(v) => v.as_str(),
        other => panic!("expected a string, found {:?}", other),
    }
}

fn get_int(doc: &Json, path: &[&str]) -> i64 {
    let mut cur = doc;
    for key in path {
        cur = cur.get(key).expect("path step missing");
    }
    match cur {
        Json::Int(v) => *v,
        other => panic!("expected an integer, found {:?}", other),
    }
}

fn with_field(doc: Json, parent: &str, key: &str, value: Json) -> Json {
    let sub = doc.get(parent).expect("parent missing").duplicate();
    let sub = sub.set(key, value);
    doc.set(parent, sub)
}

fn container_image(doc: &Json) -> &str {
    let containers = doc.get("spec").unwrap().get("containers").unwrap();
    match containers {
        Json::Arr(items) => get_str(&items[0], &["image"]),
        other => panic!("expected an array, found {:?}", other),
    }
}

fn set_container_image(doc: Json, image: &str) -> Json {
    let spec = doc.get("spec").unwrap().duplicate();
    let containers = obj(vec![("name", s("test")), ("image", s(image))]);
    let spec = spec.set("containers", Json::Arr(vec![containers]));
    doc.set("spec", spec)
}

#[test]
fn test_add_sets_globally_increasing_resource_version() {
    let mut tracker = ObjectTracker::new();
    let gvr = GVR::new("", "v1", "pods");
    let gvk = GVK::new("", "v1", "Pod");
    let o = create_test_object("test-pod", "default");

    let added = tracker.add(&gvr, &gvk, o, "default").unwrap();
    assert_eq!(get_str(&added, &["metadata", "name"]), "test-pod");
    let rv1 = get_str(&added, &["metadata", "resourceVersion"]).to_string();
    assert!(!rv1.is_empty());

    let retrieved = tracker.get(&gvr, "default", "test-pod").unwrap();
    assert_eq!(get_str(&retrieved, &["metadata", "resourceVersion"]), rv1);

    let o2 = create_test_object("test-pod-2", "default");
    let added2 = tracker.add(&gvr, &gvk, o2, "default").unwrap();
    let rv2 = get_str(&added2, &["metadata", "resourceVersion"]).to_string();

    let rv1_num: u64 = rv1.parse().unwrap();
    let rv2_num: u64 = rv2.parse().unwrap();
    assert!(rv2_num > rv1_num, "Resource version should be globally increasing");
}

#[test]
fn test_add_preserves_existing_resource_version() {
    let mut tracker = ObjectTracker::new();
    let gvr = GVR::new("", "v1", "pods");
    let gvk = GVK::new("", "v1", "Pod");
    let o = with_field(create_test_object("test-pod", "default"), "metadata", "resourceVersion", s("42"));

    let added = tracker.add(&gvr, &gvk, o, "default").unwrap();
    assert_eq!(get_str(&added, &["metadata", "resourceVersion"]), "42");
}

#[test]
fn test_add_replaces_existing_object() {
    let mut tracker = ObjectTracker::new();
    let gvr = GVR::new("", "v1", "pods");
    let gvk = GVK::new("", "v1", "Pod");

    let o1 = create_test_object("test-pod", "default");
    tracker.add(&gvr, &gvk, o1, "default").unwrap();

    let o2 = set_container_image(create_test_object("test-pod", "default"), "nginx:latest");
    let added = tracker.add(&gvr, &gvk, o2, "default").unwrap();

    assert_eq!(container_image(&added), "nginx:latest");
}

#[test]
fn test_create_sets_resource_version_1() {
    let mut tracker = ObjectTracker::new();
    let gvr = GVR::new("", "v1", "pods");
    let gvk = GVK::new("", "v1", "Pod");
    let o = create_test_object("test-pod", "default");

    let created = tracker.create(&gvr, &gvk, o, "default").unwrap();
    assert_eq!(get_str(&created, &["metadata", "name"]), "test-pod");
    assert_eq!(get_str(&created, &["metadata", "resourceVersion"]), "1");

    let retrieved = tracker.get(&gvr, "default", "test-pod").unwrap();
    assert_eq!(get_str(&retrieved, &["metadata", "name"]), "test-pod");
}

#[test]
fn test_create_errors_if_resource_version_set() {
    let mut tracker = ObjectTracker::new();
    let gvr = GVR::new("", "v1", "pods");
    let gvk = GVK::new("", "v1", "Pod");
    let o = with_field(create_test_object("test-pod", "default"), "metadata", "resourceVersion", s("1"));

    let result = tracker.create(&gvr, &gvk, o, "default");
    assert!(result.is_err());
    assert!(matches!(
        result,
        Err(kube_fake_client::error::Error::InvalidRequest(_))
    ));

    if let Err(kube_fake_client::error::Error::InvalidRequest(msg)) = result {
        assert!(msg.contains("resourceVersion can not be set"));
    }
}

#[test]
fn test_add_errors_if_deletion_timestamp_without_finalizers() {
    let mut tracker = ObjectTracker::new();
    let gvr = GVR::new("", "v1", "pods");
    let gvk = GVK::new("", "v1", "Pod");
    let o = with_field(
        create_test_object("test-pod", "default"),
        "metadata",
        "deletionTimestamp",
        s("2024-01-01T00:00:00Z"),
    );

    let result = tracker.add(&gvr, &gvk, o, "default");
    assert!(result.is_err());
    assert!(matches!(
        result,
        Err(kube_fake_client::error::Error::InvalidRequest(_))
    ));

    if let Err(kube_fake_client::error::Error::InvalidRequest(msg)) = result {
        assert!(msg.contains("deletionTimestamp but no finalizers"));
    }
}

#[test]
fn test_add_allows_deletion_timestamp_with_finalizers() {
    let mut tracker = ObjectTracker::new();
    let gvr = GVR::new("", "v1", "pods");
    let gvk = GVK::new("", "v1", "Pod");
    let o = with_field(
        create_test_object("test-pod", "default"),
        "metadata",
        "deletionTimestamp",
        s("2024-01-01T00:00:00Z"),
    );
    let o = with_field(o, "metadata", "finalizers", Json::Arr(vec![s("test-finalizer")]));

    let result = tracker.add(&gvr, &gvk, o, "default");
    assert!(result.is_ok());
}

#[test]
fn test_update() {
    let mut tracker = ObjectTracker::new();
    let gvr = GVR::new("", "v1", "pods");
    let gvk = GVK::new("", "v1", "Pod");
    let o = create_test_object("test-pod", "default");

    tracker.create(&gvr, &gvk, o, "default").unwrap();

    let updated_obj = with_field(
        set_container_image(create_test_object("test-pod", "default"), "nginx:latest"),
        "metadata",
        "resourceVersion",
        s("1"),
    );

    let updated = tracker.update(&gvr, &gvk, updated_obj, "default", false).unwrap();
    assert_eq!(get_str(&updated, &["metadata", "resourceVersion"]), "2");
    assert_eq!(container_image(&updated), "nginx:latest");
}

#[test]
fn test_delete() {
    let mut tracker = ObjectTracker::new();
    let gvr = GVR::new("", "v1", "pods");
    let gvk = GVK::new("", "v1", "Pod");
    let o = create_test_object("test-pod", "default");

    tracker.create(&gvr, &gvk, o, "default").unwrap();
    tracker.delete(&gvr, "default", "test-pod").unwrap();

    assert!(tracker.get(&gvr, "default", "test-pod").is_err());
}

#[test]
fn tracker_test_test_list() {
    let mut tracker = ObjectTracker::new();
    let gvr = GVR::new("", "v1", "pods");
    let gvk = GVK::new("", "v1", "Pod");

    tracker
        .create(&gvr, &gvk, create_test_object("pod1", "default"), "default")
        .unwrap();
    tracker
        .create(&gvr, &gvk, create_test_object("pod2", "default"), "default")
        .unwrap();
    tracker
        .create(&gvr, &gvk, create_test_object("pod3", "other"), "other")
        .unwrap();

    let default_list = tracker.list(&gvr, Some("default"));
    assert_eq!(default_list.len(), 2);

    let all_list = tracker.list(&gvr, None);
    assert_eq!(all_list.len(), 3);
}

#[test]
fn test_list_empty_returns_empty_list() {
    let tracker = ObjectTracker::new();
    let gvr = GVR::new("", "v1", "pods");

    let result = tracker.list(&gvr, Some("default"));
    assert_eq!(result.len(), 0, "List should return empty vector");

    let result = tracker.list(&gvr, None);
    assert_eq!(result.len(), 0, "List should return empty vector");
}

#[test]
fn test_generation_initialized_on_create() {
    let mut tracker = ObjectTracker::new();
    let gvr = GVR::new("", "v1", "pods");
    let gvk = GVK::new("", "v1", "Pod");
    let o = create_test_object("test-pod", "default");

    let created = tracker.create(&gvr, &gvk, o, "default").unwrap();
    assert_eq!(get_int(&created, &["metadata", "generation"]), 1);
}

#[test]
fn test_generation_increments_on_spec_update() {
    let mut tracker = ObjectTracker::new();
    let gvr = GVR::new("", "v1", "pods");
    let gvk = GVK::new("", "v1", "Pod");
    let o = create_test_object("test-pod", "default");

    let created = tracker.create(&gvr, &gvk, o, "default").unwrap();
    assert_eq!(get_int(&created, &["metadata", "generation"]), 1);

    let updated_obj = with_field(
        set_container_image(create_test_object("test-pod", "default"), "nginx:latest"),
        "metadata",
        "resourceVersion",
        s("1"),
    );

    let updated = tracker.update(&gvr, &gvk, updated_obj, "default", false).unwrap();
    assert_eq!(get_int(&updated, &["metadata", "generation"]), 2);
}

#[test]
fn test_generation_not_incremented_on_status_update() {
    let mut tracker = ObjectTracker::new();
    let gvr = GVR::new("", "v1", "pods");
    let gvk = GVK::new("", "v1", "Pod");
    tracker.add_status_subresource(gvk.duplicate());

    let o = create_test_object("test-pod", "default");
    let created = tracker.create(&gvr, &gvk, o, "default").unwrap();
    assert_eq!(get_int(&created, &["metadata", "generation"]), 1);

    let status_update = with_field(
        create_test_object("test-pod", "default"),
        "metadata",
        "resourceVersion",
        s("1"),
    );
    let status_update = status_update.set("status", obj(vec![("phase", s("Running"))]));

    let updated = tracker.update(&gvr, &gvk, status_update, "default", true).unwrap();
    assert_eq!(get_int(&updated, &["metadata", "generation"]), 1);
}

#[test]
fn test_generation_multiple_increments() {
    let mut tracker = ObjectTracker::new();
    let gvr = GVR::new("", "v1", "pods");
    let gvk = GVK::new("", "v1", "Pod");
    let o = create_test_object("test-pod", "default");

    let created = tracker.create(&gvr, &gvk, o, "default").unwrap();
    assert_eq!(get_int(&created, &["metadata", "generation"]), 1);

    let updated_obj = with_field(
        set_container_image(create_test_object("test-pod", "default"), "nginx:1.19"),
        "metadata",
        "resourceVersion",
        s("1"),
    );
    let updated = tracker.update(&gvr, &gvk, updated_obj, "default", false).unwrap();
    assert_eq!(get_int(&updated, &["metadata", "generation"]), 2);

    let updated_obj = with_field(
        set_container_image(create_test_object("test-pod", "default"), "nginx:1.20"),
        "metadata",
        "resourceVersion",
        s("2"),
    );
    let updated = tracker.update(&gvr, &gvk, updated_obj, "default", false).unwrap();
    assert_eq!(get_int(&updated, &["metadata", "generation"]), 3);
}

#[test]
fn test_resource_version_globally_increasing_across_types() {
    let mut tracker = ObjectTracker::new();

    let pod_gvr = GVR::new("", "v1", "pods");
    let pod_gvk = GVK::new("", "v1", "Pod");
    let pod = create_test_object("test-pod", "default");
    let created_pod = tracker.create(&pod_gvr, &pod_gvk, pod, "default").unwrap();
    let rv1: u64 = get_str(&created_pod, &["metadata", "resourceVersion"]).parse().unwrap();

    let cm_gvr = GVR::new("", "v1", "configmaps");
    let cm_gvk = GVK::new("", "v1", "ConfigMap");
    let cm = obj(vec![
        ("apiVersion", s("v1")),
        ("kind", s("ConfigMap")),
        ("metadata", obj(vec![("name", s("test-cm")), ("namespace", s("default"))])),
        ("data", obj(vec![("key", s("value"))])),
    ]);
    let created_cm = tracker.create(&cm_gvr, &cm_gvk, cm, "default").unwrap();
    let rv2: u64 = get_str(&created_cm, &["metadata", "resourceVersion"]).parse().unwrap();

    let svc_gvr = GVR::new("", "v1", "services");
    let svc_gvk = GVK::new("", "v1", "Service");
    let svc = obj(vec![
        ("apiVersion", s("v1")),
        ("kind", s("Service")),
        ("metadata", obj(vec![("name", s("test-svc")), ("namespace", s("default"))])),
        ("spec", obj(vec![("ports", Json::Arr(vec![obj(vec![("port", Json::Int(80))])]))])),
    ]);
    let created_svc = tracker.create(&svc_gvr, &svc_gvk, svc, "default").unwrap();
    let rv3: u64 = get_str(&created_svc, &["metadata", "resourceVersion"]).parse().unwrap();

    assert!(rv2 > rv1, "ConfigMap RV ({}) should be > Pod RV ({})", rv2, rv1);
    assert!(rv3 > rv2, "Service RV ({}) should be > ConfigMap RV ({})", rv3, rv2);
    assert!(rv3 > rv1, "Service RV ({}) should be > Pod RV ({})", rv3, rv1);
}

#[test]
fn test_auto_register_status_subresource_on_create() {
    let mut tracker = ObjectTracker::new();
    let gvr = GVR::new("", "v1", "pods");
    let gvk = GVK::new("", "v1", "Pod");

    assert!(!tracker.has_status_subresource(&gvk));

    let o = create_test_object("test-pod", "default")
        .set("status", obj(vec![("phase", s("Pending"))]));

    tracker.create(&gvr, &gvk, o, "default").unwrap();

    assert!(tracker.has_status_subresource(&gvk));
}

#[test]
fn test_auto_register_status_subresource_on_add() {
    let mut tracker = ObjectTracker::new();
    let gvr = GVR::new("", "v1", "pods");
    let gvk = GVK::new("", "v1", "Pod");

    assert!(!tracker.has_status_subresource(&gvk));

    let o = create_test_object("test-pod", "default")
        .set("status", obj(vec![("phase", s("Running"))]));

    tracker.add(&gvr, &gvk, o, "default").unwrap();

    assert!(tracker.has_status_subresource(&gvk));
}

#[test]
fn test_no_auto_register_without_status_field() {
    let mut tracker = ObjectTracker::new();
    let gvr = GVR::new("", "v1", "configmaps");
    let gvk = GVK::new("", "v1", "ConfigMap");

    assert!(!tracker.has_status_subresource(&gvk));

    let o = obj(vec![
        ("apiVersion", s("v1")),
        ("kind", s("ConfigMap")),
        ("metadata", obj(vec![("name", s("test-cm")), ("namespace", s("default"))])),
        ("data", obj(vec![("key", s("value"))])),
    ]);

    tracker.create(&gvr, &gvk, o, "default").unwrap();

    assert!(!tracker.has_status_subresource(&gvk));
}

#[test]
fn test_status_subresource_prevents_status_modification_on_regular_update() {
    let mut tracker = ObjectTracker::new();
    let gvr = GVR::new("", "v1", "pods");
    let gvk = GVK::new("", "v1", "Pod");

    let o = create_test_object("test-pod", "default")
        .set("status", obj(vec![("phase", s("Pending"))]));

    let created = tracker.create(&gvr, &gvk, o, "default").unwrap();
    assert_eq!(get_str(&created, &["status", "phase"]), "Pending");

    assert!(tracker.has_status_subresource(&gvk));

    let updated_obj = with_field(
        set_container_image(create_test_object("test-pod", "default"), "nginx:latest"),
        "metadata",
        "resourceVersion",
        s("1"),
    );
    let updated_obj = updated_obj.set("status", obj(vec![("phase", s("Running"))]));

    let updated = tracker.update(&gvr, &gvk, updated_obj, "default", false).unwrap();

    assert_eq!(container_image(&updated), "nginx:latest");
    assert_eq!(get_str(&updated, &["status", "phase"]), "Pending");
}

#[test]
fn test_seeded_object_round_trip() {
    let mut tracker = ObjectTracker::new();
    let gvr = GVR::new("", "v1", "pods");
    let gvk = GVK::new("", "v1", "Pod");
    let o = create_test_object("round-trip", "default");

    let added = tracker.add(&gvr, &gvk, o, "default").unwrap();
    let got = tracker.get(&gvr, "default", "round-trip").unwrap();

    assert!(json_eq(&added, &got), "the seeded object reads back as stored");
    let uid = get_str(&got, &["metadata", "uid"]);
    assert_eq!(uid.len(), 36, "the server assigned a fresh uid");
    assert!(!get_str(&got, &["metadata", "creationTimestamp"]).is_empty());
}
