use kube_fake_client::client::FakeClient;
use kube_fake_client::dispatch::{handle_request, parse_list_params, parse_path};
use kube_fake_client::json::Json;

fn obj(fields: Vec<(&str, Json)>) -> Json {
    Json::Obj(fields.into_iter().map(|(k, v)| (k.to_string(), v)).collect())
}

fn s(text: &str) -> Json {
    Json::Str(text.to_string())
}

fn get_str<'a>(doc: &'a Json, path: &[&str]) -> &'a str {
    let mut cur = doc;
    for key in path {
        cur = cur.get(key).expect("path step missing");
    }
    match cur {
        Json::Str(v) => v.as_str(),
        other => panic!("expected a string, found {:?}", other),
    }
}

fn get_int(doc: &Json, path: &[&str]) -> i64 {
    let mut cur = doc;
    for key in path {
        cur = cur.get(key).expect("path step missing");
    }
    match cur {
        Json::Int(v) => *v,
        other => panic!("expected an integer, found {:?}", other),
    }
}

fn items_len(body: &Json) -> usize {
    match body.get("items").expect("items missing") {
        Json::Arr(items) => items.len(),
        other => panic!("expected an array, found {:?}", other),
    }
}

fn pod_body(name: &str) -> Json {
    obj(vec![
        ("apiVersion", s("v1")),
        ("kind", s("Pod")),
        ("metadata", obj(vec![("name", s(name))])),
    ])
}

fn pod_with_labels(name: &str, pairs: &[(&str, &str)]) -> Json {
    let labels = Json::Obj(pairs.iter().map(|(k, v)| (k.to_string(), s(v))).collect());
    obj(vec![
        ("apiVersion", s("v1")),
        ("kind", s("Pod")),
        ("metadata", obj(vec![("name", s(name)), ("labels", labels)])),
    ])
}

#[test]
fn test_parse_path_shapes() {
    let p = parse_path("/api/v1/namespaces/default/pods").unwrap();
    assert!(p.group.is_none());
    assert_eq!(p.version, "v1");
    assert_eq!(p.namespace.as_deref(), Some("default"));
    assert_eq!(p.resource, "pods");
    assert!(p.name.is_none());

    let p = parse_path("/api/v1/namespaces/default/pods/my-pod").unwrap();
    assert_eq!(p.name.as_deref(), Some("my-pod"));

    let p = parse_path("/apis/apps/v1/namespaces/default/deployments").unwrap();
    assert_eq!(p.group.as_deref(), Some("apps"));
    assert_eq!(p.resource, "deployments");

    let p = parse_path("/api/v1/nodes").unwrap();
    assert!(p.namespace.is_none());
    assert_eq!(p.resource, "nodes");

    assert!(parse_path("/nothing").is_none());
    assert!(parse_path("").is_none());
}

#[test]
fn test_parse_list_params_decodes_values() {
    let q = parse_list_params(Some("labelSelector=app%3Dfrontend&limit=2&unknown=zzz"));
    assert_eq!(q.label_selector.as_deref(), Some("app=frontend"));
    assert_eq!(q.limit, Some(2));
    assert!(q.field_selector.is_none());

    let q = parse_list_params(Some("labelSelector=app+in+%28backend%29"));
    // A '+' in a query value reads as a space; a literal plus arrives
    // percent-encoded.
    assert_eq!(q.label_selector.as_deref(), Some("app in (backend)"));

    let q = parse_list_params(Some("fieldSelector=spec.nodeName%3Dn1"));
    assert_eq!(q.field_selector.as_deref(), Some("spec.nodeName=n1"));
}

/// Create then read back: a create answers 201 with the server-set
/// metadata, and the read answers 200 with the same document.
#[test]
fn test_scenario_create_and_get() {
    let mut client = FakeClient::new();

    let resp = handle_request(
        &mut client,
        "POST",
        "/api/v1/namespaces/default/pods",
        None,
        None,
        Some(&obj(vec![
            ("apiVersion", s("v1")),
            ("kind", s("Pod")),
            ("metadata", obj(vec![("name", s("p"))])),
        ])),
    )
    .unwrap();
    assert_eq!(resp.code, 201);
    assert_eq!(get_str(&resp.body, &["metadata", "resourceVersion"]), "1");
    assert_eq!(get_int(&resp.body, &["metadata", "generation"]), 1);
    assert!(!get_str(&resp.body, &["metadata", "uid"]).is_empty());

    let got = handle_request(
        &mut client,
        "GET",
        "/api/v1/namespaces/default/pods/p",
        None,
        None,
        None,
    )
    .unwrap();
    assert_eq!(got.code, 200);
    assert!(kube_fake_client::json::json_eq(&resp.body, &got.body));
}

/// Optimistic concurrency: the first replace with the seen version wins,
/// the second answers 409 Conflict.
#[test]
fn test_scenario_optimistic_concurrency() {
    let mut client = FakeClient::new();
    handle_request(
        &mut client,
        "POST",
        "/api/v1/namespaces/default/pods",
        None,
        None,
        Some(&pod_body("p")),
    )
    .unwrap();

    let seen1 = handle_request(&mut client, "GET", "/api/v1/namespaces/default/pods/p", None, None, None)
        .unwrap();
    let seen2 = handle_request(&mut client, "GET", "/api/v1/namespaces/default/pods/p", None, None, None)
        .unwrap();
    assert_eq!(get_str(&seen1.body, &["metadata", "resourceVersion"]), "1");
    assert_eq!(get_str(&seen2.body, &["metadata", "resourceVersion"]), "1");

    let first = handle_request(
        &mut client,
        "PUT",
        "/api/v1/namespaces/default/pods/p",
        None,
        None,
        Some(&seen1.body),
    )
    .unwrap();
    assert_eq!(first.code, 200);
    assert_eq!(get_str(&first.body, &["metadata", "resourceVersion"]), "2");
    assert_eq!(get_int(&first.body, &["metadata", "generation"]), 2);

    let second = handle_request(
        &mut client,
        "PUT",
        "/api/v1/namespaces/default/pods/p",
        None,
        None,
        Some(&seen2.body),
    )
    .unwrap();
    assert_eq!(second.code, 409);
    assert_eq!(get_str(&second.body, &["reason"]), "Conflict");
}

/// Status isolation: a non-status replace keeps the stored status, a
/// status replace keeps the stored spec.
#[test]
fn test_scenario_status_isolation() {
    let mut client = FakeClient::new();
    let p = obj(vec![
        ("apiVersion", s("v1")),
        ("kind", s("Pod")),
        ("metadata", obj(vec![("name", s("p"))])),
        ("spec", obj(vec![("nodeName", s("n1"))])),
        ("status", obj(vec![("phase", s("Pending"))])),
    ]);
    handle_request(&mut client, "POST", "/api/v1/namespaces/default/pods", None, None, Some(&p))
        .unwrap();

    let replace = obj(vec![
        ("apiVersion", s("v1")),
        ("kind", s("Pod")),
        ("metadata", obj(vec![("name", s("p")), ("resourceVersion", s("1"))])),
        ("spec", obj(vec![("nodeName", s("n2"))])),
        ("status", obj(vec![("phase", s("Running"))])),
    ]);
    let r = handle_request(
        &mut client,
        "PUT",
        "/api/v1/namespaces/default/pods/p",
        None,
        None,
        Some(&replace),
    )
    .unwrap();
    assert_eq!(r.code, 200);
    assert_eq!(get_str(&r.body, &["spec", "nodeName"]), "n2");
    assert_eq!(get_str(&r.body, &["status", "phase"]), "Pending");

    let status_replace = obj(vec![
        ("apiVersion", s("v1")),
        ("kind", s("Pod")),
        ("metadata", obj(vec![("name", s("p")), ("resourceVersion", s("2"))])),
        ("spec", obj(vec![("nodeName", s("other"))])),
        ("status", obj(vec![("phase", s("Running"))])),
    ]);
    let r = handle_request(
        &mut client,
        "PUT",
        "/api/v1/namespaces/default/pods/p/status",
        None,
        None,
        Some(&status_replace),
    )
    .unwrap();
    assert_eq!(r.code, 200);
    assert_eq!(get_str(&r.body, &["spec", "nodeName"]), "n2");
    assert_eq!(get_str(&r.body, &["status", "phase"]), "Running");
}

/// Immutable field: a merge patch that renames answers 422 with the exact
/// immutability message.
#[test]
fn test_scenario_immutable_field_patch() {
    let mut client = FakeClient::new();
    handle_request(&mut client, "POST", "/api/v1/namespaces/default/pods", None, None, Some(&pod_body("p")))
        .unwrap();

    let patch = obj(vec![("metadata", obj(vec![("name", s("q"))]))]);
    let r = handle_request(
        &mut client,
        "PATCH",
        "/api/v1/namespaces/default/pods/p",
        None,
        Some("application/merge-patch+json"),
        Some(&patch),
    )
    .unwrap();
    assert_eq!(r.code, 422);
    assert_eq!(get_str(&r.body, &["reason"]), "Invalid");
    assert_eq!(get_str(&r.body, &["message"]), "field is immutable: metadata.name");
}

/// Selector lists: label selectors filter exactly, through encoded query
/// strings.
#[test]
fn test_scenario_selector_list() {
    let mut client = FakeClient::new();
    for p in [
        pod_with_labels("a", &[("app", "frontend")]),
        pod_with_labels("b", &[("app", "frontend"), ("env", "dev")]),
        pod_with_labels("c", &[("app", "backend")]),
    ] {
        handle_request(&mut client, "POST", "/api/v1/namespaces/default/pods", None, None, Some(&p))
            .unwrap();
    }

    let r = handle_request(
        &mut client,
        "GET",
        "/api/v1/namespaces/default/pods",
        Some("labelSelector=app%3Dfrontend"),
        None,
        None,
    )
    .unwrap();
    assert_eq!(r.code, 200);
    assert_eq!(items_len(&r.body), 2);
    assert_eq!(get_str(&r.body, &["kind"]), "PodList");
    assert_eq!(get_str(&r.body, &["metadata", "resourceVersion"]), "1");

    let r = handle_request(
        &mut client,
        "GET",
        "/api/v1/namespaces/default/pods",
        Some("labelSelector=app+in+%28backend%29"),
        None,
        None,
    )
    .unwrap();
    assert_eq!(items_len(&r.body), 1);

    let r = handle_request(
        &mut client,
        "GET",
        "/api/v1/namespaces/default/pods",
        Some("labelSelector=%21env"),
        None,
        None,
    )
    .unwrap();
    assert_eq!(items_len(&r.body), 2);
}

/// Field selectors: a pre-registered field filters exactly; an unknown
/// field answers 400 BadRequest.
#[test]
fn test_scenario_field_selector() {
    let mut client = FakeClient::new();
    for (name, node) in [("a", "n1"), ("b", "n2")] {
        let p = obj(vec![
            ("apiVersion", s("v1")),
            ("kind", s("Pod")),
            ("metadata", obj(vec![("name", s(name))])),
            ("spec", obj(vec![("nodeName", s(node))])),
        ]);
        handle_request(&mut client, "POST", "/api/v1/namespaces/default/pods", None, None, Some(&p))
            .unwrap();
    }

    let r = handle_request(
        &mut client,
        "GET",
        "/api/v1/namespaces/default/pods",
        Some("fieldSelector=spec.nodeName%3Dn1"),
        None,
        None,
    )
    .unwrap();
    assert_eq!(r.code, 200);
    assert_eq!(items_len(&r.body), 1);

    let r = handle_request(
        &mut client,
        "GET",
        "/api/v1/namespaces/default/pods",
        Some("fieldSelector=spec.unknown%3Dx"),
        None,
        None,
    )
    .unwrap();
    assert_eq!(r.code, 400);
    assert_eq!(get_str(&r.body, &["reason"]), "BadRequest");
}

/// Verb gate: a kind whose discovery data lacks `create` answers 405 with
/// the method-not-allowed body.
#[test]
fn test_scenario_verb_gate() {
    let mut client = FakeClient::new();
    let cs = obj(vec![
        ("apiVersion", s("v1")),
        ("kind", s("ComponentStatus")),
        ("metadata", obj(vec![("name", s("x"))])),
    ]);
    let r = handle_request(&mut client, "POST", "/api/v1/componentstatuses", None, None, Some(&cs))
        .unwrap();
    assert_eq!(r.code, 405);
    assert_eq!(get_str(&r.body, &["reason"]), "MethodNotAllowed");
    assert_eq!(
        get_str(&r.body, &["message"]),
        "ComponentStatus \"ComponentStatus\" is forbidden: verb \"create\" is not supported"
    );
}

/// Unregistered resource: the exact not-found body of a resource the
/// server does not serve.
#[test]
fn test_scenario_unregistered_resource() {
    let mut client = FakeClient::new();
    let r = handle_request(&mut client, "GET", "/apis/unknown.io/v1/widgets", None, None, None)
        .unwrap();
    assert_eq!(r.code, 404);
    assert_eq!(get_str(&r.body, &["reason"]), "NotFound");
    assert_eq!(
        get_str(&r.body, &["message"]),
        "the server could not find the requested resource (unknown.io/widgets)"
    );
}

/// Delete, single and collection: a named delete answers with the stored
/// object, a collection delete answers with a summary of what it removed.
#[test]
fn test_scenario_delete_paths() {
    let mut client = FakeClient::new();
    for p in [
        pod_with_labels("a", &[("app", "x")]),
        pod_with_labels("b", &[("app", "x")]),
        pod_with_labels("c", &[("app", "y")]),
    ] {
        handle_request(&mut client, "POST", "/api/v1/namespaces/default/pods", None, None, Some(&p))
            .unwrap();
    }

    let r = handle_request(
        &mut client,
        "DELETE",
        "/api/v1/namespaces/default/pods/c",
        None,
        None,
        None,
    )
    .unwrap();
    assert_eq!(r.code, 200);
    assert_eq!(get_str(&r.body, &["metadata", "name"]), "c");

    let r = handle_request(
        &mut client,
        "DELETE",
        "/api/v1/namespaces/default/pods",
        Some("labelSelector=app%3Dx"),
        None,
        None,
    )
    .unwrap();
    assert_eq!(r.code, 200);
    assert_eq!(get_str(&r.body, &["status"]), "Success");
    assert_eq!(get_int(&r.body, &["details", "deleted"]), 2);

    let r = handle_request(&mut client, "GET", "/api/v1/namespaces/default/pods", None, None, None)
        .unwrap();
    assert_eq!(items_len(&r.body), 0);
}

/// A JSON patch runs its operations in order; a failing test op fails the
/// request.
#[test]
fn test_json_patch_operations_through_dispatch() {
    let mut client = FakeClient::new();
    let p = obj(vec![
        ("apiVersion", s("v1")),
        ("kind", s("Pod")),
        ("metadata", obj(vec![("name", s("p"))])),
        ("spec", obj(vec![("nodeName", s("n1"))])),
    ]);
    handle_request(&mut client, "POST", "/api/v1/namespaces/default/pods", None, None, Some(&p))
        .unwrap();

    let patch = Json::Arr(vec![
        obj(vec![("op", s("test")), ("path", s("/spec/nodeName")), ("value", s("n1"))]),
        obj(vec![("op", s("replace")), ("path", s("/spec/nodeName")), ("value", s("n2"))]),
        obj(vec![("op", s("add")), ("path", s("/spec/schedulerName")), ("value", s("custom"))]),
        obj(vec![("op", s("remove")), ("path", s("/spec/nodeName"))]),
    ]);
    let r = handle_request(
        &mut client,
        "PATCH",
        "/api/v1/namespaces/default/pods/p",
        None,
        Some("application/json-patch+json"),
        Some(&patch),
    )
    .unwrap();
    assert_eq!(r.code, 200);
    assert!(r.body.get("spec").unwrap().get("nodeName").is_none());
    assert_eq!(get_str(&r.body, &["spec", "schedulerName"]), "custom");

    let failing = Json::Arr(vec![obj(vec![
        ("op", s("test")),
        ("path", s("/spec/schedulerName")),
        ("value", s("someone-else")),
    ])]);
    let r = handle_request(
        &mut client,
        "PATCH",
        "/api/v1/namespaces/default/pods/p",
        None,
        Some("application/json-patch+json"),
        Some(&failing),
    )
    .unwrap();
    assert_eq!(r.code, 422);
    assert_eq!(get_str(&r.body, &["reason"]), "Invalid");
    assert_eq!(get_str(&r.body, &["message"]), "Patch error: test failed");
}

/// Merge, strategic and apply patches all merge object-wise.
#[test]
fn test_patch_type_dispatch() {
    let mut client = FakeClient::new();
    handle_request(&mut client, "POST", "/api/v1/namespaces/default/pods", None, None, Some(&pod_body("p")))
        .unwrap();

    for ct in [
        Some("application/merge-patch+json"),
        Some("application/strategic-merge-patch+json"),
        Some("application/apply-patch+yaml"),
        None,
    ] {
        let patch = obj(vec![(
            "metadata",
            obj(vec![("labels", obj(vec![("via", s("merge"))]))]),
        )]);
        let r = handle_request(
            &mut client,
            "PATCH",
            "/api/v1/namespaces/default/pods/p",
            None,
            ct,
            Some(&patch),
        )
        .unwrap();
        assert_eq!(r.code, 200);
        assert_eq!(get_str(&r.body, &["metadata", "labels", "via"]), "merge");
    }
}

/// Unknown methods answer 405 without touching the store.
#[test]
fn test_unknown_method() {
    let mut client = FakeClient::new();
    let r = handle_request(&mut client, "OPTIONS", "/api/v1/namespaces/default/pods", None, None, None)
        .unwrap();
    assert_eq!(r.code, 405);
}

/// The delete verb is gated on collection deletes too: a kind without it
/// answers 405 and removes nothing.
#[test]
fn test_delete_collection_respects_verb_gate() {
    let mut client = FakeClient::new();

    // ComponentStatus supports only get and list.
    let gvr = kube_fake_client::tracker::GVR::new("", "v1", "componentstatuses");
    let gvk = kube_fake_client::tracker::GVK::new("", "v1", "ComponentStatus");
    let cs = obj(vec![
        ("apiVersion", s("v1")),
        ("kind", s("ComponentStatus")),
        ("metadata", obj(vec![("name", s("x"))])),
    ]);
    client.seed(&gvr, &gvk, cs, "").unwrap();

    let r = handle_request(&mut client, "DELETE", "/api/v1/componentstatuses", None, None, None)
        .unwrap();
    assert_eq!(r.code, 405);
    assert_eq!(get_str(&r.body, &["reason"]), "MethodNotAllowed");
    assert!(client.tracker().get(&gvr, "", "x").is_ok(), "nothing was removed");
}

/// Status isolation on an object stored without the protected subtree:
/// a non-status replace of an object stored with no `status` discards the
/// caller's `status`, and a status replace of one stored with no `spec`
/// discards the caller's `spec`.
#[test]
fn test_status_isolation_absent_subtree() {
    let mut client = FakeClient::new();
    client.enable_status_subresource(kube_fake_client::tracker::GVK::new("", "v1", "Pod"));
    handle_request(
        &mut client,
        "POST",
        "/api/v1/namespaces/default/pods",
        None,
        None,
        Some(&pod_body("bare")),
    )
    .unwrap();

    let replace = obj(vec![
        ("apiVersion", s("v1")),
        ("kind", s("Pod")),
        ("metadata", obj(vec![("name", s("bare")), ("resourceVersion", s("1"))])),
        ("status", obj(vec![("phase", s("Running"))])),
    ]);
    let r = handle_request(
        &mut client,
        "PUT",
        "/api/v1/namespaces/default/pods/bare",
        None,
        None,
        Some(&replace),
    )
    .unwrap();
    assert_eq!(r.code, 200);
    assert!(r.body.get("status").is_none(), "the caller's status is discarded");

    let status_replace = obj(vec![
        ("apiVersion", s("v1")),
        ("kind", s("Pod")),
        ("metadata", obj(vec![("name", s("bare")), ("resourceVersion", s("2"))])),
        ("spec", obj(vec![("nodeName", s("sneaked"))])),
        ("status", obj(vec![("phase", s("Running"))])),
    ]);
    let r = handle_request(
        &mut client,
        "PUT",
        "/api/v1/namespaces/default/pods/bare/status",
        None,
        None,
        Some(&status_replace),
    )
    .unwrap();
    assert_eq!(r.code, 200);
    assert!(r.body.get("spec").is_none(), "the caller's spec is discarded");
    assert_eq!(get_str(&r.body, &["status", "phase"]), "Running");
}

/// The same corner through a merge patch: the merged document's status is
/// discarded when the stored object has none.
#[test]
fn test_patch_status_isolation_absent_subtree() {
    let mut client = FakeClient::new();
    client.enable_status_subresource(kube_fake_client::tracker::GVK::new("", "v1", "Pod"));
    handle_request(
        &mut client,
        "POST",
        "/api/v1/namespaces/default/pods",
        None,
        None,
        Some(&pod_body("bare2")),
    )
    .unwrap();

    let patch = obj(vec![("status", obj(vec![("phase", s("Running"))]))]);
    let r = handle_request(
        &mut client,
        "PATCH",
        "/api/v1/namespaces/default/pods/bare2",
        None,
        Some("application/merge-patch+json"),
        Some(&patch),
    )
    .unwrap();
    assert_eq!(r.code, 200);
    assert!(r.body.get("status").is_none(), "the merged status is discarded");
}
