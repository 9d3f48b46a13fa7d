//! Object metadata: typed access to the `metadata` subtree of a stored
//! document, the server-set fields, and the finalizer-drain rule.

use crate::error::Error;
use crate::json::{Json, JsonV, spec_get, spec_set, spec_remove, json_eq};
use vstd::prelude::*;
use vstd::string::*;

verus! {

/// Whether a field is absent or bound to `null`.
pub open spec fn spec_absent(m: JsonV, key: Seq<char>) -> bool {
    match spec_get(m, key) {
        Option::None => true,
        Option::Some(v) => v is Null,
    }
}

/// The value of a field, with `null` treated as absent.
pub open spec fn spec_field(m: JsonV, key: Seq<char>) -> Option<JsonV> {
    match spec_get(m, key) {
        Option::None => Option::None,
        Option::Some(v) => if v is Null {
            Option::None
        } else {
            Option::Some(v)
        },
    }
}

/// The text of a string field; `Err` stands for a field of another type.
pub open spec fn spec_str_field(m: JsonV, key: Seq<char>) -> Result<Option<Seq<char>>, ()> {
    match spec_field(m, key) {
        Option::None => Ok(Option::None),
        Option::Some(JsonV::Str(s)) => Ok(Option::Some(s)),
        Option::Some(_) => Err(()),
    }
}

/// The value of an integer field; `Err` stands for a field of another type.
pub open spec fn spec_int_field(m: JsonV, key: Seq<char>) -> Result<Option<int>, ()> {
    match spec_field(m, key) {
        Option::None => Ok(Option::None),
        Option::Some(JsonV::Int(n)) => Ok(Option::Some(n)),
        Option::Some(_) => Err(()),
    }
}

/// A field of an object document, with `null` treated as absent.
pub fn opt_field<'a>(m: &'a Json, key: &str) -> (r: Option<&'a Json>)
    ensures
        match r {
            Some(v) => spec_field(m@, key@) == Some(v@),
            None => spec_field(m@, key@) is None,
        },
{
    match m.get(key) {
        Some(v) => match v {
            Json::Null => None,
            _ => Some(v),
        },
        None => None,
    }
}

/// The text of a string field of the metadata object. An absent or `null`
/// field reads as `None`; a field of another type is a metadata error.
pub fn str_field(m: &Json, key: &str) -> (r: Result<Option<String>, Error>)
    ensures
        match r {
            Ok(Some(s)) => spec_str_field(m@, key@) == Ok::<_, ()>(Some(s@)),
            Ok(None) => spec_str_field(m@, key@) == Ok::<_, ()>(None::<Seq<char>>),
            Err(e) => spec_str_field(m@, key@) is Err && e is MetadataError,
        },
{
    match opt_field(m, key) {
        None => Ok(None),
        Some(v) => match v {
            Json::Str(s) => Ok(Some(s.clone())),
            _ => Err(
                Error::MetadataError("Failed to parse metadata: unexpected field type".to_owned()),
            ),
        },
    }
}

/// The value of an integer field of the metadata object.
pub fn int_field(m: &Json, key: &str) -> (r: Result<Option<i64>, Error>)
    ensures
        match r {
            Ok(Some(n)) => spec_int_field(m@, key@) == Ok::<_, ()>(Some(n as int)),
            Ok(None) => spec_int_field(m@, key@) == Ok::<_, ()>(None::<int>),
            Err(e) => spec_int_field(m@, key@) is Err && e is MetadataError,
        },
{
    match opt_field(m, key) {
        None => Ok(None),
        Some(v) => match v {
            Json::Int(n) => Ok(Some(*n)),
            _ => Err(
                Error::MetadataError("Failed to parse metadata: unexpected field type".to_owned()),
            ),
        },
    }
}

/// Whether the metadata asks for deletion and no finalizer blocks it: the
/// deletion timestamp is set and the finalizer list is absent or empty.
pub open spec fn spec_should_be_deleted(m: JsonV) -> bool {
    &&& !spec_absent(m, "deletionTimestamp"@)
    &&& match spec_field(m, "finalizers"@) {
        Option::None => true,
        Option::Some(JsonV::Arr(items)) => items.len() == 0,
        Option::Some(_) => false,
    }
}

/// Whether a stored object with this metadata is removed on the next write.
pub fn should_be_deleted(m: &Json) -> (r: bool)
    ensures
        r == spec_should_be_deleted(m@),
{
    let dt = opt_field(m, "deletionTimestamp");
    if dt.is_none() {
        return false;
    }
    match opt_field(m, "finalizers") {
        None => true,
        Some(v) => match v {
            Json::Arr(items) => items.len() == 0,
            _ => false,
        },
    }
}

/// Whether two optional deletion timestamps agree.
pub open spec fn spec_dt_equal(a: Option<JsonV>, b: Option<JsonV>) -> bool {
    a == b
}

/// Whether two optional deletion timestamps agree.
pub fn deletion_timestamp_equal(a: Option<&Json>, b: Option<&Json>) -> (r: bool)
    ensures
        r == spec_dt_equal(
            match a {
                Some(v) => Some(v@),
                None => None,
            },
            match b {
                Some(v) => Some(v@),
                None => None,
            },
        ),
{
    match (a, b) {
        (Some(x), Some(y)) => json_eq(x, y),
        (None, None) => true,
        _ => false,
    }
}

/// The namespace rule of a write: a cluster-scoped object (an empty
/// namespace) carries no namespace field; a namespaced one is given the
/// request's namespace where it has none of its own.
pub open spec fn spec_ns_rule(m: JsonV, ns: Seq<char>) -> JsonV {
    if ns.len() == 0 {
        spec_remove(m, "namespace"@)
    } else if spec_absent(m, "namespace"@) {
        spec_set(m, "namespace"@, JsonV::Str(ns))
    } else {
        m
    }
}

/// Apply the namespace rule of a write.
pub fn ns_rule(m: Json, ns: &str) -> (r: Json)
    ensures
        r@ == spec_ns_rule(m@, ns@),
{
    if ns.unicode_len() == 0 {
        m.remove("namespace")
    } else {
        let absent = opt_field(&m, "namespace").is_none();
        if absent {
            m.set("namespace", Json::string(ns))
        } else {
            m
        }
    }
}

/// The metadata object with the server-set fields filled in: the namespace
/// (removed for cluster-scoped objects), the creation timestamp, the uid
/// and the generation, each only where absent.
pub open spec fn spec_ensure_meta(
    m: JsonV,
    ns: Seq<char>,
    now: Seq<char>,
    uid: Seq<char>,
) -> JsonV {
    let m1 = spec_ns_rule(m, ns);
    let m2 = if spec_absent(m1, "creationTimestamp"@) {
        spec_set(m1, "creationTimestamp"@, JsonV::Str(now))
    } else {
        m1
    };
    let m3 = if spec_absent(m2, "uid"@) {
        spec_set(m2, "uid"@, JsonV::Str(uid))
    } else {
        m2
    };
    if spec_absent(m3, "generation"@) {
        spec_set(m3, "generation"@, JsonV::Int(1))
    } else {
        m3
    }
}

/// Fill the server-set metadata fields: namespace, creation timestamp,
/// uid and generation, each only where absent. For cluster-scoped objects
/// (an empty namespace) the namespace field is removed.
pub fn ensure_metadata(m: Json, ns: &str, now: &str, uid: &str) -> (r: Json)
    ensures
        r@ == spec_ensure_meta(m@, ns@, now@, uid@),
{
    let m1 = ns_rule(m, ns);
    let m2 = if opt_field(&m1, "creationTimestamp").is_none() {
        m1.set("creationTimestamp", Json::string(now))
    } else {
        m1
    };
    let m3 = if opt_field(&m2, "uid").is_none() {
        m2.set("uid", Json::string(uid))
    } else {
        m2
    };
    if opt_field(&m3, "generation").is_none() {
        m3.set("generation", Json::Int(1))
    } else {
        m3
    }
}

/// Relies on uuid's `Uuid::new_v4` and its `Display` form: a fresh random
/// UUID renders as 36 hyphenated characters. Nothing is assumed of which
/// UUID comes back.
#[verifier::external_body]
pub(crate) fn new_uid() -> (r: String)
    ensures
        r@.len() == 36,
{
    uuid::Uuid::new_v4().to_string()
}

/// Relies on chrono's `Utc::now` and `to_rfc3339`: the current time as an
/// RFC 3339 timestamp. Nothing is assumed of which instant comes back.
#[verifier::external_body]
pub(crate) fn now_timestamp() -> (r: String)
    ensures
        true,
{
    chrono::Utc::now().to_rfc3339()
}

/// The next resource version after a given one: the empty text and the
/// seed value `"999"` both step to `"1"`; any other number steps up by one.
pub fn increment_resource_version(rv: &str) -> (r: Result<String, Error>)
    ensures
        rv@.len() == 0 ==> (r matches Ok(s) && s@ == crate::strutil::spec_dec(1)),
        rv@ == "999"@ ==> (r matches Ok(s) && s@ == crate::strutil::spec_dec(1)),
        rv@.len() > 0 && rv@ != "999"@ && crate::strutil::all_digits(rv@) && crate::strutil::dec_value(rv@) < u64::MAX
            ==> (r matches Ok(s) && s@ == crate::strutil::spec_dec(
            (crate::strutil::dec_value(rv@) + 1) as nat,
        )),
        rv@.len() > 0 && !crate::strutil::all_digits(rv@) ==> r is Err,
{
    proof {
        reveal_strlit("999");
        reveal_strlit("");
    }
    if rv.unicode_len() == 0 {
        return Ok(crate::strutil::u64_to_string(1));
    }
    if crate::strutil::str_eq(rv, "999") {
        return Ok(crate::strutil::u64_to_string(1));
    }
    match crate::strutil::parse_u64(rv) {
        Some(n) => {
            if n == u64::MAX {
                Err(Error::InvalidRequest("resource version is out of range".to_owned()))
            } else {
                Ok(crate::strutil::u64_to_string(n + 1))
            }
        },
        None => Err(Error::InvalidRequest("resource version is not numeric".to_owned())),
    }
}

} // verus!
