use kube_fake_client::client::FakeClient;
use kube_fake_client::error::Error;
use kube_fake_client::json::Json;
use kube_fake_client::serialize::json_to_string;
use kube_fake_client::validator::{gvk_to_definition_name, RuntimeOpenAPIValidator};

fn obj(fields: Vec<(&str, Json)>) -> Json {
    Json::Obj(fields.into_iter().map(|(k, v)| (k.to_string(), v)).collect())
}

fn s(text: &str) -> Json {
    Json::Str(text.to_string())
}

#[test]
fn test_gvk_to_definition_name_shapes() {
    assert_eq!(
        gvk_to_definition_name("/v1/Pod").unwrap(),
        "io.k8s.api.core.v1.Pod"
    );
    assert_eq!(
        gvk_to_definition_name("apps/v1/Deployment").unwrap(),
        "io.k8s.api.apps.v1.Deployment"
    );
    assert_eq!(
        gvk_to_definition_name("example.com/v1/Widget").unwrap(),
        "com.example.v1.Widget"
    );
    assert!(gvk_to_definition_name("justone").is_err());
}

#[test]
fn test_json_writer_output() {
    let doc = obj(vec![
        ("a", s("x\"y")),
        ("b", Json::Int(-7)),
        ("c", Json::Arr(vec![Json::Null, Json::Bool(true)])),
    ]);
    assert_eq!(
        json_to_string(&doc),
        "{\"a\":\"x\\\"y\",\"b\":-7,\"c\":[null,true]}"
    );
}

fn pod_schema_doc() -> String {
    // An OpenAPI document whose Pod definition requires a `spec` member.
    "{\"definitions\":{\"io.k8s.api.core.v1.Pod\":{\"type\":\"object\",\"required\":[\"spec\"]}}}"
        .to_string()
}

#[test]
fn test_validation_rejects_and_accepts() {
    let mut validator = RuntimeOpenAPIValidator::from_json_text(&pod_schema_doc()).unwrap();
    validator.enable_validation_for("/v1/Pod").unwrap();
    assert!(validator.enable_validation_for("/v1/Unknown").is_err());

    let mut client = FakeClient::new();
    client.set_validator(validator);

    let bad = obj(vec![
        ("apiVersion", s("v1")),
        ("kind", s("Pod")),
        ("metadata", obj(vec![("name", s("p"))])),
    ]);
    let result = client.create("default", bad);
    match result {
        Err(Error::ValidationFailed { kind, errors }) => {
            assert_eq!(kind, "Pod");
            assert!(!errors.is_empty());
        }
        other => panic!("Expected ValidationFailed, got: {:?}", other.is_ok()),
    }

    let good = obj(vec![
        ("apiVersion", s("v1")),
        ("kind", s("Pod")),
        ("metadata", obj(vec![("name", s("p"))])),
        ("spec", obj(vec![("nodeName", s("n1"))])),
    ]);
    assert!(client.create("default", good).is_ok());

    // A kind that is not enabled is not validated.
    let cm = obj(vec![
        ("apiVersion", s("v1")),
        ("kind", s("ConfigMap")),
        ("metadata", obj(vec![("name", s("c"))])),
    ]);
    assert!(client.create("default", cm).is_ok());
}

/// A definition whose schema points at an external reference is refused
/// rather than fetched: validation of such a kind fails the same way on
/// every machine, connected or not.
#[test]
fn test_external_reference_is_refused() {
    let openapi = r#"{
        "definitions": {
            "io.k8s.api.core.v1.Pod": {"$ref": "https://example.invalid/pod.json"}
        }
    }"#;
    let mut validator = RuntimeOpenAPIValidator::from_json_text(openapi).unwrap();
    validator.enable_validation_for("/v1/Pod").unwrap();
    let doc = obj(vec![
        ("apiVersion", s("v1")),
        ("kind", s("Pod")),
        ("metadata", obj(vec![("name", s("p"))])),
    ]);
    assert!(validator.validate("", "v1", "Pod", &doc).is_err());
}
