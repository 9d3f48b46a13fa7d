//! Field selectors: the pre-registered field paths that may be filtered
//! on without a custom index, mirroring the indexes a real API server
//! keeps per kind, plus `metadata.name` and `metadata.namespace` for
//! every resource.

use crate::json::{Json, JsonV, spec_get};
use crate::strutil::{i64_to_string, spec_dec_i64, str_eq};
use vstd::prelude::*;
use vstd::string::*;

verus! {

/// The value two path steps down, if any.
pub open spec fn spec_path2(obj: JsonV, parent: Seq<char>, field: Seq<char>) -> Option<JsonV> {
    match spec_get(obj, parent) {
        Option::Some(p) => spec_get(p, field),
        Option::None => Option::None,
    }
}

/// A string value two path steps down, as a one-element value list.
pub open spec fn spec_str_path(obj: JsonV, parent: Seq<char>, field: Seq<char>) -> Option<
    Seq<Seq<char>>,
> {
    match spec_path2(obj, parent, field) {
        Option::Some(JsonV::Str(s)) => Option::Some(seq![s]),
        _ => Option::None,
    }
}

/// A boolean value two path steps down, rendered as text.
pub open spec fn spec_bool_path(obj: JsonV, parent: Seq<char>, field: Seq<char>) -> Option<
    Seq<Seq<char>>,
> {
    match spec_path2(obj, parent, field) {
        Option::Some(JsonV::Bool(b)) => Option::Some(
            seq![
                if b {
                    "true"@
                } else {
                    "false"@
                },
            ],
        ),
        _ => Option::None,
    }
}

/// An integer value two path steps down, rendered as text.
pub open spec fn spec_int_path(obj: JsonV, parent: Seq<char>, field: Seq<char>) -> Option<
    Seq<Seq<char>>,
> {
    match spec_path2(obj, parent, field) {
        Option::Some(JsonV::Int(n)) => Option::Some(seq![spec_dec_i64(n)]),
        _ => Option::None,
    }
}

/// A string value at the top level.
pub open spec fn spec_top_str(obj: JsonV, field: Seq<char>) -> Option<Seq<Seq<char>>> {
    match spec_get(obj, field) {
        Option::Some(JsonV::Str(s)) => Option::Some(seq![s]),
        _ => Option::None,
    }
}

/// The pre-registered field values of an object: `metadata.name` and
/// `metadata.namespace` for every resource, and the fixed per-kind table.
pub open spec fn spec_preregistered(obj: JsonV, field: Seq<char>, kind: Seq<char>) -> Option<
    Seq<Seq<char>>,
> {
    if field == "metadata.name"@ {
        spec_str_path(obj, "metadata"@, "name"@)
    } else if field == "metadata.namespace"@ {
        spec_str_path(obj, "metadata"@, "namespace"@)
    } else if kind == "Pod"@ {
        if field == "spec.nodeName"@ {
            spec_str_path(obj, "spec"@, "nodeName"@)
        } else if field == "spec.restartPolicy"@ {
            spec_str_path(obj, "spec"@, "restartPolicy"@)
        } else if field == "spec.schedulerName"@ {
            spec_str_path(obj, "spec"@, "schedulerName"@)
        } else if field == "spec.serviceAccountName"@ {
            spec_str_path(obj, "spec"@, "serviceAccountName"@)
        } else if field == "spec.hostNetwork"@ {
            spec_bool_path(obj, "spec"@, "hostNetwork"@)
        } else if field == "status.phase"@ {
            spec_str_path(obj, "status"@, "phase"@)
        } else if field == "status.podIP"@ {
            spec_str_path(obj, "status"@, "podIP"@)
        } else if field == "status.nominatedNodeName"@ {
            spec_str_path(obj, "status"@, "nominatedNodeName"@)
        } else {
            Option::None
        }
    } else if kind == "Event"@ {
        if field == "involvedObject.kind"@ {
            spec_str_path(obj, "involvedObject"@, "kind"@)
        } else if field == "involvedObject.namespace"@ {
            spec_str_path(obj, "involvedObject"@, "namespace"@)
        } else if field == "involvedObject.name"@ {
            spec_str_path(obj, "involvedObject"@, "name"@)
        } else if field == "involvedObject.uid"@ {
            spec_str_path(obj, "involvedObject"@, "uid"@)
        } else if field == "involvedObject.apiVersion"@ {
            spec_str_path(obj, "involvedObject"@, "apiVersion"@)
        } else if field == "involvedObject.resourceVersion"@ {
            spec_str_path(obj, "involvedObject"@, "resourceVersion"@)
        } else if field == "involvedObject.fieldPath"@ {
            spec_str_path(obj, "involvedObject"@, "fieldPath"@)
        } else if field == "reason"@ {
            spec_top_str(obj, "reason"@)
        } else if field == "reportingComponent"@ {
            spec_top_str(obj, "reportingComponent"@)
        } else if field == "source"@ {
            spec_top_str(obj, "source"@)
        } else if field == "type"@ {
            spec_top_str(obj, "type"@)
        } else {
            Option::None
        }
    } else if kind == "Secret"@ {
        if field == "type"@ {
            spec_top_str(obj, "type"@)
        } else {
            Option::None
        }
    } else if kind == "Namespace"@ {
        if field == "status.phase"@ {
            spec_str_path(obj, "status"@, "phase"@)
        } else {
            Option::None
        }
    } else if kind == "ReplicaSet"@ || kind == "ReplicationController"@ {
        if field == "status.replicas"@ {
            spec_int_path(obj, "status"@, "replicas"@)
        } else {
            Option::None
        }
    } else if kind == "Job"@ {
        if field == "status.successful"@ {
            spec_int_path(obj, "status"@, "successful"@)
        } else {
            Option::None
        }
    } else if kind == "Node"@ {
        if field == "spec.unschedulable"@ {
            spec_bool_path(obj, "spec"@, "unschedulable"@)
        } else {
            Option::None
        }
    } else if kind == "CertificateSigningRequest"@ {
        if field == "spec.signerName"@ {
            spec_str_path(obj, "spec"@, "signerName"@)
        } else {
            Option::None
        }
    } else {
        Option::None
    }
}

/// One string value as a one-element list.
fn single(s: String) -> (r: Vec<String>)
    ensures
        crate::selector::views_of(r@) == seq![s@],
{
    let ghost sv = s@;
    let mut r: Vec<String> = Vec::new();
    r.push(s);
    proof {
        assert(crate::selector::views_of(r@) =~= seq![sv]);
    }
    r
}

/// A string field two path steps down.
fn get_string_field(obj: &Json, parent: &str, field: &str) -> (r: Option<Vec<String>>)
    ensures
        match r {
            Some(v) => spec_str_path(obj@, parent@, field@) == Some(
                crate::selector::views_of(v@),
            ),
            None => spec_str_path(obj@, parent@, field@) is None,
        },
{
    match obj.get(parent) {
        Some(p) => match p.get(field) {
            Some(v) => match v {
                Json::Str(s) => Some(single(s.clone())),
                _ => None,
            },
            None => None,
        },
        None => None,
    }
}

/// A boolean field two path steps down, rendered as text.
fn get_bool_field(obj: &Json, parent: &str, field: &str) -> (r: Option<Vec<String>>)
    ensures
        match r {
            Some(v) => spec_bool_path(obj@, parent@, field@) == Some(
                crate::selector::views_of(v@),
            ),
            None => spec_bool_path(obj@, parent@, field@) is None,
        },
{
    match obj.get(parent) {
        Some(p) => match p.get(field) {
            Some(v) => match v {
                Json::Bool(b) => {
                    if *b {
                        Some(single("true".to_owned()))
                    } else {
                        Some(single("false".to_owned()))
                    }
                },
                _ => None,
            },
            None => None,
        },
        None => None,
    }
}

/// An integer field two path steps down, rendered as text.
fn get_int_field(obj: &Json, parent: &str, field: &str) -> (r: Option<Vec<String>>)
    ensures
        match r {
            Some(v) => spec_int_path(obj@, parent@, field@) == Some(crate::selector::views_of(v@)),
            None => spec_int_path(obj@, parent@, field@) is None,
        },
{
    match obj.get(parent) {
        Some(p) => match p.get(field) {
            Some(v) => match v {
                Json::Int(n) => Some(single(i64_to_string(*n))),
                _ => None,
            },
            None => None,
        },
        None => None,
    }
}

/// A string field at the top level.
fn get_top_level_string(obj: &Json, field: &str) -> (r: Option<Vec<String>>)
    ensures
        match r {
            Some(v) => spec_top_str(obj@, field@) == Some(crate::selector::views_of(v@)),
            None => spec_top_str(obj@, field@) is None,
        },
{
    match obj.get(field) {
        Some(v) => match v {
            Json::Str(s) => Some(single(s.clone())),
            _ => None,
        },
        None => None,
    }
}

/// Extract the values of a pre-registered field path from an object of
/// the given kind; `None` where the path is not in the table or the
/// object does not carry it.
pub fn extract_preregistered_field_value(obj_value: &Json, field: &str, kind: &str) -> (r: Option<
    Vec<String>,
>)
    ensures
        match r {
            Some(v) => spec_preregistered(obj_value@, field@, kind@) == Some(
                crate::selector::views_of(v@),
            ),
            None => spec_preregistered(obj_value@, field@, kind@) is None,
        },
{
    if str_eq(field, "metadata.name") {
        return get_string_field(obj_value, "metadata", "name");
    }
    if str_eq(field, "metadata.namespace") {
        return get_string_field(obj_value, "metadata", "namespace");
    }
    if str_eq(kind, "Pod") {
        if str_eq(field, "spec.nodeName") {
            get_string_field(obj_value, "spec", "nodeName")
        } else if str_eq(field, "spec.restartPolicy") {
            get_string_field(obj_value, "spec", "restartPolicy")
        } else if str_eq(field, "spec.schedulerName") {
            get_string_field(obj_value, "spec", "schedulerName")
        } else if str_eq(field, "spec.serviceAccountName") {
            get_string_field(obj_value, "spec", "serviceAccountName")
        } else if str_eq(field, "spec.hostNetwork") {
            get_bool_field(obj_value, "spec", "hostNetwork")
        } else if str_eq(field, "status.phase") {
            get_string_field(obj_value, "status", "phase")
        } else if str_eq(field, "status.podIP") {
            get_string_field(obj_value, "status", "podIP")
        } else if str_eq(field, "status.nominatedNodeName") {
            get_string_field(obj_value, "status", "nominatedNodeName")
        } else {
            None
        }
    } else if str_eq(kind, "Event") {
        if str_eq(field, "involvedObject.kind") {
            get_string_field(obj_value, "involvedObject", "kind")
        } else if str_eq(field, "involvedObject.namespace") {
            get_string_field(obj_value, "involvedObject", "namespace")
        } else if str_eq(field, "involvedObject.name") {
            get_string_field(obj_value, "involvedObject", "name")
        } else if str_eq(field, "involvedObject.uid") {
            get_string_field(obj_value, "involvedObject", "uid")
        } else if str_eq(field, "involvedObject.apiVersion") {
            get_string_field(obj_value, "involvedObject", "apiVersion")
        } else if str_eq(field, "involvedObject.resourceVersion") {
            get_string_field(obj_value, "involvedObject", "resourceVersion")
        } else if str_eq(field, "involvedObject.fieldPath") {
            get_string_field(obj_value, "involvedObject", "fieldPath")
        } else if str_eq(field, "reason") {
            get_top_level_string(obj_value, "reason")
        } else if str_eq(field, "reportingComponent") {
            get_top_level_string(obj_value, "reportingComponent")
        } else if str_eq(field, "source") {
            get_top_level_string(obj_value, "source")
        } else if str_eq(field, "type") {
            get_top_level_string(obj_value, "type")
        } else {
            None
        }
    } else if str_eq(kind, "Secret") {
        if str_eq(field, "type") {
            get_top_level_string(obj_value, "type")
        } else {
            None
        }
    } else if str_eq(kind, "Namespace") {
        if str_eq(field, "status.phase") {
            get_string_field(obj_value, "status", "phase")
        } else {
            None
        }
    } else if str_eq(kind, "ReplicaSet") || str_eq(kind, "ReplicationController") {
        if str_eq(field, "status.replicas") {
            get_int_field(obj_value, "status", "replicas")
        } else {
            None
        }
    } else if str_eq(kind, "Job") {
        if str_eq(field, "status.successful") {
            get_int_field(obj_value, "status", "successful")
        } else {
            None
        }
    } else if str_eq(kind, "Node") {
        if str_eq(field, "spec.unschedulable") {
            get_bool_field(obj_value, "spec", "unschedulable")
        } else {
            None
        }
    } else if str_eq(kind, "CertificateSigningRequest") {
        if str_eq(field, "spec.signerName") {
            get_string_field(obj_value, "spec", "signerName")
        } else {
            None
        }
    } else {
        None
    }
}

/// The `field=value` pair one field-selector requirement asks for: the
/// requirement trimmed, split at its first `=`, the value trimmed again;
/// a requirement without `=` asks nothing.
pub open spec fn spec_field_requirement(req: Seq<char>) -> Option<(Seq<char>, Seq<char>)> {
    let t = crate::strutil::spec_trim(req);
    let i = crate::strutil::spec_find_sub(t, "="@);
    if i < 0 {
        Option::None
    } else {
        Option::Some(
            (t.subrange(0, i), crate::strutil::spec_trim(t.subrange(i + 1, t.len() as int))),
        )
    }
}

/// Split one field-selector requirement into its field path and expected
/// value.
pub fn parse_field_requirement(req: &str) -> (r: Option<(String, String)>)
    ensures
        match r {
            Some(p) => spec_field_requirement(req@) == Some((p.0@, p.1@)),
            None => spec_field_requirement(req@) is None,
        },
{
    proof {
        reveal_strlit("=");
    }
    let t = crate::strutil::trim(req);
    let ts = t.as_str();
    let tlen = ts.unicode_len();
    match crate::strutil::find_sub(ts, "=") {
        None => None,
        Some(i) => {
            proof {
                crate::strutil::lemma_find_from(ts@, "="@, 0);
            }
            let field: String = ts.substring_char(0, i).to_owned();
            let value = crate::strutil::trim(ts.substring_char(i + 1, tlen));
            Some((field, value))
        },
    }
}

/// Whether the extracted values of a field hold the expected one: how one
/// field-selector requirement is decided once a field's values are known.
#[verifier::loop_isolation(false)]
pub fn field_values_contain(values: &Vec<String>, expected: &str) -> (r: bool)
    ensures
        r == crate::strutil::views_of_strings(values@).contains(expected@),
{
    let n = values.len();
    let ghost vv = crate::strutil::views_of_strings(values@);
    let mut i: usize = 0;
    while i < n
        invariant
            0 <= i <= n,
            n == values@.len(),
            forall|j: int| 0 <= j < i ==> #[trigger] vv[j] != expected@,
        decreases n - i,
    {
        if str_eq(values[i].as_str(), expected) {
            assert(vv[i as int] == expected@);
            return true;
        }
        i = i + 1;
    }
    proof {
        if vv.contains(expected@) {
            let j = choose|j: int| 0 <= j < vv.len() && vv[j] == expected@;
            assert(vv[j] != expected@);
        }
    }
    false
}

} // verus!
