use kube_fake_client::builder::{prepare_fixture_doc, ClientBuilder};
use kube_fake_client::json::{json_eq, Json};
use kube_fake_client::tracker::{GVK, GVR};
use kube_fake_client::jsonpatch::apply_json_patch;
use kube_fake_client::patch::merge;

fn obj(fields: Vec<(&str, Json)>) -> Json {
    Json::Obj(fields.into_iter().map(|(k, v)| (k.to_string(), v)).collect())
}

fn s(text: &str) -> Json {
    Json::Str(text.to_string())
}

/// The merge examples of the merge-patch contract: objects merge
/// field-wise, `null` removes, everything else replaces.
#[test]
fn test_merge_patch_semantics() {
    // {"a":"b","c":{"d":"e","f":"g"}} merged with {"a":"z","c":{"f":null}}
    // gives {"a":"z","c":{"d":"e"}}.
    let target = obj(vec![
        ("a", s("b")),
        ("c", obj(vec![("d", s("e")), ("f", s("g"))])),
    ]);
    let patch = obj(vec![("a", s("z")), ("c", obj(vec![("f", Json::Null)]))]);
    let merged = merge(target, &patch);
    let expected = obj(vec![("a", s("z")), ("c", obj(vec![("d", s("e"))]))]);
    assert!(json_eq(&merged, &expected), "got {:?}", merged);

    // A non-object patch replaces the document.
    let merged = merge(obj(vec![("a", s("b"))]), &s("whole"));
    assert!(json_eq(&merged, &s("whole")));

    // Merging into a non-object starts from an empty object.
    let merged = merge(s("x"), &obj(vec![("a", s("b"))]));
    assert!(json_eq(&merged, &obj(vec![("a", s("b"))])));

    // A patch field that is absent in the target is added.
    let merged = merge(obj(vec![]), &obj(vec![("k", Json::Int(3))]));
    assert!(json_eq(&merged, &obj(vec![("k", Json::Int(3))])));
}

#[test]
fn test_json_patch_add_and_array_ops() {
    let doc = obj(vec![(
        "spec",
        obj(vec![("containers", Json::Arr(vec![s("a"), s("c")]))]),
    )]);

    let patch = Json::Arr(vec![
        obj(vec![("op", s("add")), ("path", s("/spec/containers/1")), ("value", s("b"))]),
        obj(vec![("op", s("add")), ("path", s("/spec/containers/-")), ("value", s("d"))]),
    ]);
    let out = apply_json_patch(doc, &patch).unwrap();
    let expected = obj(vec![(
        "spec",
        obj(vec![("containers", Json::Arr(vec![s("a"), s("b"), s("c"), s("d")]))]),
    )]);
    assert!(json_eq(&out, &expected), "got {:?}", out);
}

#[test]
fn test_json_patch_move_copy_and_escapes() {
    let doc = obj(vec![
        ("a~b", s("tilde")),
        ("c/d", s("slash")),
        ("src", obj(vec![("x", Json::Int(1))])),
    ]);

    let patch = Json::Arr(vec![
        obj(vec![("op", s("copy")), ("path", s("/copied")), ("from", s("/a~0b"))]),
        obj(vec![("op", s("move")), ("path", s("/moved")), ("from", s("/c~1d"))]),
        obj(vec![("op", s("test")), ("path", s("/src/x")), ("value", Json::Int(1))]),
    ]);
    let out = apply_json_patch(doc, &patch).unwrap();
    assert!(json_eq(out.get("copied").unwrap(), &s("tilde")));
    assert!(json_eq(out.get("moved").unwrap(), &s("slash")));
    assert!(out.get("c/d").is_none());

    // A bad pointer fails the whole patch.
    let doc = obj(vec![("a", s("b"))]);
    let bad = Json::Arr(vec![obj(vec![("op", s("remove")), ("path", s("/missing"))])]);
    assert!(apply_json_patch(doc, &bad).is_err());

    // An unknown operation fails the whole patch.
    let doc = obj(vec![("a", s("b"))]);
    let bad = Json::Arr(vec![obj(vec![("op", s("frobnicate")), ("path", s("/a"))])]);
    assert!(apply_json_patch(doc, &bad).is_err());
}

#[test]
fn test_builder_seeds_objects() {
    let pod = obj(vec![
        ("apiVersion", s("v1")),
        ("kind", s("Pod")),
        (
            "metadata",
            obj(vec![("name", s("seeded")), ("resourceVersion", s("42"))]),
        ),
    ]);
    let client = ClientBuilder::new()
        .with_object(pod)
        .with_status_subresource(GVK::new("", "v1", "Pod"))
        .build()
        .unwrap();

    let gvr = GVR::new("", "v1", "pods");
    let got = client.tracker().get(&gvr, "default", "seeded").unwrap();
    match got.get("metadata").unwrap().get("resourceVersion").unwrap() {
        Json::Str(rv) => assert_eq!(rv, "42"),
        other => panic!("unexpected {:?}", other),
    }
    assert!(client.tracker().has_status_subresource(&GVK::new("", "v1", "Pod")));
}

#[test]
fn test_builder_fixture_defaults() {
    let doc = obj(vec![
        ("apiVersion", s("v1")),
        ("kind", s("ConfigMap")),
        ("metadata", obj(vec![("name", s("app-config"))])),
    ]);
    let prepared = prepare_fixture_doc(doc, "2024-01-01T00:00:00+00:00");
    let meta = prepared.get("metadata").unwrap();
    match meta.get("namespace").unwrap() {
        Json::Str(ns) => assert_eq!(ns, "default"),
        other => panic!("unexpected {:?}", other),
    }
    match meta.get("creationTimestamp").unwrap() {
        Json::Str(ts) => assert_eq!(ts, "2024-01-01T00:00:00+00:00"),
        other => panic!("unexpected {:?}", other),
    }
}
