use kube_fake_client::selector::{matches_label_selector, parse_label_selector};

fn labels(pairs: &[(&str, &str)]) -> Vec<(String, String)> {
    pairs
        .iter()
        .map(|(k, v)| (k.to_string(), v.to_string()))
        .collect()
}

#[test]
fn test_empty_selector() {
    let ls = labels(&[("app", "test")]);
    assert!(matches_label_selector(&ls, "").unwrap());
    assert!(matches_label_selector(&ls, "   ").unwrap());
}

#[test]
fn test_equality_selector() {
    let ls = labels(&[("app", "myapp"), ("env", "production")]);

    assert!(matches_label_selector(&ls, "app=myapp").unwrap());
    assert!(matches_label_selector(&ls, "app==myapp").unwrap());
    assert!(!matches_label_selector(&ls, "app=other").unwrap());
}

#[test]
fn test_inequality_selector() {
    let ls = labels(&[("env", "production")]);

    assert!(matches_label_selector(&ls, "env!=staging").unwrap());
    assert!(!matches_label_selector(&ls, "env!=production").unwrap());
}

#[test]
fn test_in_selector() {
    let ls = labels(&[("env", "production")]);

    assert!(matches_label_selector(&ls, "env in (production,staging)").unwrap());
    assert!(!matches_label_selector(&ls, "env in (development,testing)").unwrap());
}

#[test]
fn test_notin_selector() {
    let ls = labels(&[("env", "production")]);

    assert!(matches_label_selector(&ls, "env notin (development,testing)").unwrap());
    assert!(!matches_label_selector(&ls, "env notin (production,staging)").unwrap());
}

#[test]
fn test_exists_selector() {
    let ls = labels(&[("app", "myapp")]);

    assert!(matches_label_selector(&ls, "app").unwrap());
    assert!(!matches_label_selector(&ls, "env").unwrap());
}

#[test]
fn test_not_exists_selector() {
    let ls = labels(&[("app", "myapp")]);

    assert!(matches_label_selector(&ls, "!env").unwrap());
    assert!(!matches_label_selector(&ls, "!app").unwrap());
}

#[test]
fn test_combined_selectors() {
    let ls = labels(&[("app", "myapp"), ("env", "production")]);

    assert!(matches_label_selector(&ls, "app=myapp,env=production").unwrap());
    assert!(matches_label_selector(&ls, "app=myapp,env in (production,staging)").unwrap());
    assert!(!matches_label_selector(&ls, "app=myapp,env=staging").unwrap());
}

#[test]
fn test_complex_combined_selectors() {
    let ls = labels(&[("app", "myapp"), ("tier", "frontend")]);

    assert!(matches_label_selector(&ls, "app,tier=frontend").unwrap());
    assert!(matches_label_selector(&ls, "app,tier!=backend").unwrap());
    assert!(matches_label_selector(&ls, "app=myapp,tier notin (backend,middleware)").unwrap());
}

#[test]
fn test_no_labels() {
    let ls: Vec<(String, String)> = Vec::new();

    assert!(matches_label_selector(&ls, "!app").unwrap());
    assert!(!matches_label_selector(&ls, "app").unwrap());
    assert!(!matches_label_selector(&ls, "app=myapp").unwrap());
}

#[test]
fn test_parse_label_selector_valid() {
    assert!(parse_label_selector("app=myapp").is_ok());
    assert!(parse_label_selector("env in (prod,staging)").is_ok());
    assert!(parse_label_selector("!debug").is_ok());
    assert!(parse_label_selector("app=myapp,tier=frontend").is_ok());
}

#[test]
fn test_parse_label_selector_invalid() {
    assert!(parse_label_selector("env in prod").is_err());
    assert!(parse_label_selector("env in (prod").is_err());

    assert!(parse_label_selector("env notin prod").is_err());
    assert!(parse_label_selector("env notin prod)").is_err());
}
