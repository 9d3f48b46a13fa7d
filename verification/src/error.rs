//! The error taxonomy and its rendering into Kubernetes `Status` bodies.
//!
//! Every failing operation produces one of these errors; the dispatcher
//! renders them into wire responses whose `reason`, `code` and `message`
//! match what a real API server would send, byte for byte.

use vstd::prelude::*;
use vstd::string::*;

verus! {

/// An error of the API emulation plane.
#[derive(Debug)]
pub enum Error {
    NotFound { kind: String, name: String, namespace: String },
    AlreadyExists { kind: String, name: String, namespace: String },
    Conflict(String),
    InvalidRequest(String),
    SerializationError(String),
    PatchError(String),
    Internal(String),
    MetadataError(String),
    IndexNotFound { kind: String, field: String },
    ResourceNotRegistered { group: String, version: String, resource: String },
    VerbNotSupported { verb: String, kind: String },
    ValidationFailed { kind: String, errors: Vec<String> },
    ImmutableField { field: String },
}

/// A Kubernetes `Status` response body.
pub struct StatusBody {
    pub status: String,
    pub message: String,
    pub reason: String,
    pub code: u16,
}

/// The HTTP code of an error.
pub open spec fn spec_code(e: Error) -> int {
    match e {
        Error::NotFound { .. } => 404,
        Error::AlreadyExists { .. } => 409,
        Error::Conflict(_) => 409,
        Error::InvalidRequest(_) => 422,
        Error::SerializationError(_) => 400,
        Error::PatchError(_) => 422,
        Error::Internal(_) => 500,
        Error::MetadataError(_) => 422,
        Error::IndexNotFound { .. } => 400,
        Error::ResourceNotRegistered { .. } => 404,
        Error::VerbNotSupported { .. } => 405,
        Error::ValidationFailed { .. } => 422,
        Error::ImmutableField { .. } => 422,
    }
}

/// The `reason` word of an error.
pub open spec fn spec_reason(e: Error) -> Seq<char> {
    match e {
        Error::NotFound { .. } => "NotFound"@,
        Error::AlreadyExists { .. } => "AlreadyExists"@,
        Error::Conflict(_) => "Conflict"@,
        Error::InvalidRequest(_) => "Invalid"@,
        Error::SerializationError(_) => "BadRequest"@,
        Error::PatchError(_) => "Invalid"@,
        Error::Internal(_) => "InternalError"@,
        Error::MetadataError(_) => "Invalid"@,
        Error::IndexNotFound { .. } => "BadRequest"@,
        Error::ResourceNotRegistered { .. } => "NotFound"@,
        Error::VerbNotSupported { .. } => "MethodNotAllowed"@,
        Error::ValidationFailed { .. } => "Invalid"@,
        Error::ImmutableField { .. } => "Invalid"@,
    }
}

/// A list of messages joined with a comma and a space.
pub open spec fn spec_join_comma(errs: Seq<Seq<char>>) -> Seq<char>
    decreases errs.len(),
{
    if errs.len() == 0 {
        Seq::empty()
    } else if errs.len() == 1 {
        errs[0]
    } else {
        spec_join_comma(errs.drop_last()) + ", "@ + errs.last()
    }
}

/// The views of a list of strings.
pub open spec fn view_strings(v: Seq<String>) -> Seq<Seq<char>> {
    v.map_values(|s: String| s@)
}

/// The `message` text of an error.
pub open spec fn spec_message(e: Error) -> Seq<char> {
    match e {
        Error::NotFound { kind, name, .. } => kind@ + " \""@ + name@ + "\" not found"@,
        Error::AlreadyExists { kind, name, .. } => kind@ + " \""@ + name@ + "\" already exists"@,
        Error::Conflict(m) => m@,
        Error::InvalidRequest(m) => m@,
        Error::SerializationError(m) => "Serialization error: "@ + m@,
        Error::PatchError(m) => "Patch error: "@ + m@,
        Error::Internal(m) => m@,
        Error::MetadataError(m) => m@,
        Error::IndexNotFound { kind, field } => "field selector "@ + field@ + " not supported for "@
            + kind@,
        Error::ResourceNotRegistered { group, resource, .. } => {
            if group@.len() == 0 {
                "the server could not find the requested resource ("@ + resource@ + ")"@
            } else {
                "the server could not find the requested resource ("@ + group@ + "/"@ + resource@
                    + ")"@
            }
        },
        Error::VerbNotSupported { verb, kind } => kind@ + " \""@ + kind@ + "\" is forbidden: verb \""@
            + verb@ + "\" is not supported"@,
        Error::ValidationFailed { kind, errors } => kind@ + " failed schema validation: "@
            + spec_join_comma(view_strings(errors@)),
        Error::ImmutableField { field } => "field is immutable: "@ + field@,
    }
}

/// Join strings with a comma and a space.
#[verifier::loop_isolation(false)]
fn join_comma(items: &Vec<String>) -> (r: String)
    ensures
        r@ == spec_join_comma(view_strings(items@)),
{
    let mut out = String::new();
    let n = items.len();
    let mut i: usize = 0;
    while i < n
        invariant
            0 <= i <= n,
            out@ == spec_join_comma(view_strings(items@.subrange(0, i as int))),
        decreases n - i,
    {
        if i > 0 {
            out.append(", ");
        }
        out.append(items[i].as_str());
        proof {
            let pre = view_strings(items@.subrange(0, i as int));
            let cur = view_strings(items@.subrange(0, i as int + 1));
            assert(cur.drop_last() =~= pre);
            assert(cur.last() == items@[i as int]@);
            if i == 0 {
                assert(out@ =~= spec_join_comma(cur));
            } else {
                assert(out@ =~= spec_join_comma(pre) + ", "@ + items@[i as int]@);
            }
        }
        i = i + 1;
    }
    proof {
        assert(items@.subrange(0, n as int) =~= items@);
    }
    out
}

impl Error {
    /// Render this error as the `Status` body a real API server would send:
    /// the `reason`, HTTP `code` and `message` of the wire contract.
    pub fn to_status(&self) -> (r: StatusBody)
        ensures
            r.status@ == "Failure"@,
            r.code as int == spec_code(*self),
            r.reason@ == spec_reason(*self),
            r.message@ == spec_message(*self),
    {
        let status: String = "Failure".to_owned();
        match self {
            Error::NotFound { kind, name, .. } => {
                let mut m = String::new();
                m.append(kind.as_str());
                m.append(" \"");
                m.append(name.as_str());
                m.append("\" not found");
                proof {
                    assert(m@ =~= spec_message(*self));
                }
                StatusBody { status, message: m, reason: "NotFound".to_owned(), code: 404 }
            },
            Error::AlreadyExists { kind, name, .. } => {
                let mut m = String::new();
                m.append(kind.as_str());
                m.append(" \"");
                m.append(name.as_str());
                m.append("\" already exists");
                proof {
                    assert(m@ =~= spec_message(*self));
                }
                StatusBody { status, message: m, reason: "AlreadyExists".to_owned(), code: 409 }
            },
            Error::Conflict(msg) => StatusBody {
                status,
                message: msg.clone(),
                reason: "Conflict".to_owned(),
                code: 409,
            },
            Error::InvalidRequest(msg) => StatusBody {
                status,
                message: msg.clone(),
                reason: "Invalid".to_owned(),
                code: 422,
            },
            Error::SerializationError(msg) => {
                let mut m: String = "Serialization error: ".to_owned();
                m.append(msg.as_str());
                StatusBody { status, message: m, reason: "BadRequest".to_owned(), code: 400 }
            },
            Error::PatchError(msg) => {
                let mut m: String = "Patch error: ".to_owned();
                m.append(msg.as_str());
                StatusBody { status, message: m, reason: "Invalid".to_owned(), code: 422 }
            },
            Error::Internal(msg) => StatusBody {
                status,
                message: msg.clone(),
                reason: "InternalError".to_owned(),
                code: 500,
            },
            Error::MetadataError(msg) => StatusBody {
                status,
                message: msg.clone(),
                reason: "Invalid".to_owned(),
                code: 422,
            },
            Error::IndexNotFound { kind, field } => {
                let mut m: String = "field selector ".to_owned();
                m.append(field.as_str());
                m.append(" not supported for ");
                m.append(kind.as_str());
                proof {
                    assert(m@ =~= spec_message(*self));
                }
                StatusBody { status, message: m, reason: "BadRequest".to_owned(), code: 400 }
            },
            Error::ResourceNotRegistered { group, resource, .. } => {
                let mut m: String = "the server could not find the requested resource (".to_owned();
                if group.as_str().unicode_len() > 0 {
                    m.append(group.as_str());
                    m.append("/");
                }
                m.append(resource.as_str());
                m.append(")");
                proof {
                    assert(m@ =~= spec_message(*self));
                }
                StatusBody { status, message: m, reason: "NotFound".to_owned(), code: 404 }
            },
            Error::VerbNotSupported { verb, kind } => {
                let mut m = String::new();
                m.append(kind.as_str());
                m.append(" \"");
                m.append(kind.as_str());
                m.append("\" is forbidden: verb \"");
                m.append(verb.as_str());
                m.append("\" is not supported");
                proof {
                    assert(m@ =~= spec_message(*self));
                }
                StatusBody { status, message: m, reason: "MethodNotAllowed".to_owned(), code: 405 }
            },
            Error::ValidationFailed { kind, errors } => {
                let mut m = String::new();
                m.append(kind.as_str());
                m.append(" failed schema validation: ");
                let joined = join_comma(errors);
                m.append(joined.as_str());
                proof {
                    assert(m@ =~= spec_message(*self));
                }
                StatusBody { status, message: m, reason: "Invalid".to_owned(), code: 422 }
            },
            Error::ImmutableField { field } => {
                let mut m: String = "field is immutable: ".to_owned();
                m.append(field.as_str());
                StatusBody { status, message: m, reason: "Invalid".to_owned(), code: 422 }
            },
        }
    }
}

} // verus!
