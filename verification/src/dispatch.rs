//! The HTTP dispatcher: Kubernetes REST URLs parsed into tracker
//! operations, with verb gating, selector filtering, patch dispatch by
//! content type, and wire responses that match a real API server.

use crate::client::FakeClient;
use crate::error::{spec_code, spec_message, spec_reason, Error};
use crate::json::{spec_get, Json, JsonV, view_items};
use crate::patch::PatchType;
use crate::strutil::{
    spec_dec, spec_find_char, spec_find_sub, spec_split_char, str_eq, u64_to_string,
    views_of_strings,
};
use crate::tracker::{spec_find, GVK};
use vstd::prelude::*;
use vstd::string::*;

verus! {

/// A parsed Kubernetes API path.
#[derive(Debug)]
pub struct ParsedPath {
    pub group: Option<String>,
    pub version: String,
    pub namespace: Option<String>,
    pub resource: String,
    pub name: Option<String>,
}

/// The mathematical value of a parsed path.
pub struct PathV {
    pub group: Option<Seq<char>>,
    pub version: Seq<char>,
    pub namespace: Option<Seq<char>>,
    pub resource: Seq<char>,
    pub name: Option<Seq<char>>,
}

impl View for ParsedPath {
    type V = PathV;

    open spec fn view(&self) -> PathV {
        PathV {
            group: match self.group {
                Some(ref g) => Some(g@),
                None => None,
            },
            version: self.version@,
            namespace: match self.namespace {
                Some(ref n) => Some(n@),
                None => None,
            },
            resource: self.resource@,
            name: match self.name {
                Some(ref n) => Some(n@),
                None => None,
            },
        }
    }
}

/// The non-empty segments of a slash-separated path.
pub open spec fn spec_path_parts(s: Seq<char>) -> Seq<Seq<char>> {
    spec_split_char(s, '/').filter(|p: Seq<char>| p.len() > 0)
}

/// How a URL path parses: `/api/{v}/…` is the core group, whose name is
/// empty; `/apis/{g}/{v}/…` any other; then either
/// `namespaces/{ns}/{plural}[/{name}…]` or `{plural}[/{name}…]` for
/// cluster-scoped resources.
pub open spec fn spec_parse_path(s: Seq<char>) -> Option<PathV> {
    let parts = spec_path_parts(s);
    if parts.len() == 0 {
        Option::None
    } else {
        let header: Option<(Option<Seq<char>>, int)> = if parts[0] == "api"@ {
            Option::Some((Option::None, 1int))
        } else if parts[0] == "apis"@ && parts.len() > 2 {
            Option::Some((Option::Some(parts[1]), 2int))
        } else {
            Option::None
        };
        match header {
            Option::None => Option::None,
            Option::Some((group, vi)) => {
                if parts.len() < vi + 2 {
                    Option::None
                } else {
                    let version = parts[vi];
                    if parts[vi + 1] == "namespaces"@ {
                        if parts.len() < vi + 4 {
                            Option::None
                        } else {
                            Option::Some(
                                PathV {
                                    group,
                                    version,
                                    namespace: Option::Some(parts[vi + 2]),
                                    resource: parts[vi + 3],
                                    name: if parts.len() > vi + 4 {
                                        Option::Some(parts[vi + 4])
                                    } else {
                                        Option::None
                                    },
                                },
                            )
                        }
                    } else {
                        Option::Some(
                            PathV {
                                group,
                                version,
                                namespace: Option::None,
                                resource: parts[vi + 1],
                                name: if parts.len() > vi + 2 {
                                    Option::Some(parts[vi + 2])
                                } else {
                                    Option::None
                                },
                            },
                        )
                    }
                }
            },
        }
    }
}

/// Split a path into its non-empty segments.
#[verifier::loop_isolation(false)]
fn path_parts(path: &str) -> (r: Vec<String>)
    ensures
        views_of_strings(r@) == spec_path_parts(path@),
{
    let raw = crate::strutil::split_char(path, '/');
    let ghost rawv = views_of_strings(raw@);
    let n = raw.len();
    let mut out: Vec<String> = Vec::new();
    proof {
        assert(rawv.subrange(0, n as int) =~= rawv);
        assert(views_of_strings(out@) =~= Seq::<Seq<char>>::empty());
        assert(Seq::<Seq<char>>::empty() + rawv.subrange(0, n as int).filter(
            |p: Seq<char>| p.len() > 0,
        ) =~= rawv.filter(|p: Seq<char>| p.len() > 0));
    }
    let mut i: usize = 0;
    while i < n
        invariant
            0 <= i <= n,
            n == raw@.len(),
            rawv == views_of_strings(raw@),
            rawv.len() == n,
            views_of_strings(out@) + rawv.subrange(i as int, n as int).filter(
                |p: Seq<char>| p.len() > 0,
            ) =~= rawv.filter(|p: Seq<char>| p.len() > 0),
        decreases n - i,
    {
        proof {
            let pre = rawv.subrange(i as int, n as int);
            assert(pre.drop_first() =~= rawv.subrange(i as int + 1, n as int));
            crate::strutil::lemma_filter_step(pre, |p: Seq<char>| p.len() > 0);
        }
        if raw[i].as_str().unicode_len() > 0 {
            let ghost prev = out@;
            out.push(raw[i].clone());
            proof {
                assert(views_of_strings(out@) =~= views_of_strings(prev).push(rawv[i as int]));
                assert forall|rest: Seq<Seq<char>>| true implies views_of_strings(prev) + (seq![
                    rawv[i as int],
                ] + rest) =~= views_of_strings(out@) + rest by {}
            }
        }
        i = i + 1;
    }
    proof {
        assert(rawv.subrange(n as int, n as int) =~= Seq::<Seq<char>>::empty());
        assert(rawv.subrange(n as int, n as int).filter(|p: Seq<char>| p.len() > 0) =~= Seq::<
            Seq<char>,
        >::empty());
        assert(views_of_strings(out@) + Seq::<Seq<char>>::empty() =~= views_of_strings(out@));
    }
    out
}

/// Parse a URL path.
pub fn parse_path(path: &str) -> (r: Option<ParsedPath>)
    ensures
        match r {
            Some(p) => spec_parse_path(path@) == Some(p@),
            None => spec_parse_path(path@) is None,
        },
{
    proof {
        reveal_strlit("api");
        reveal_strlit("apis");
        reveal_strlit("namespaces");
        assert("api"@.len() == 3);
        assert("apis"@.len() == 4);
        assert("namespaces"@.len() == 10);
    }
    let parts = path_parts(path);
    let n = parts.len();
    if n == 0 {
        return None;
    }
    let (group, vi): (Option<String>, usize) = if str_eq(parts[0].as_str(), "api") {
        (None, 1)
    } else if str_eq(parts[0].as_str(), "apis") && n > 2 {
        (Some(parts[1].clone()), 2)
    } else {
        return None;
    };
    if n < vi + 2 {
        return None;
    }
    let version = parts[vi].clone();
    if str_eq(parts[vi + 1].as_str(), "namespaces") {
        if n < vi + 4 {
            return None;
        }
        Some(
            ParsedPath {
                group,
                version,
                namespace: Some(parts[vi + 2].clone()),
                resource: parts[vi + 3].clone(),
                name: if n > vi + 4 {
                    Some(parts[vi + 4].clone())
                } else {
                    None
                },
            },
        )
    } else {
        Some(
            ParsedPath {
                group,
                version,
                namespace: None,
                resource: parts[vi + 1].clone(),
                name: if n > vi + 2 {
                    Some(parts[vi + 2].clone())
                } else {
                    None
                },
            },
        )
    }
}

} // verus!

verus! {

/// What percent-decoding an outside decoder gives a text; the result
/// depends on the characters alone.
pub uninterp spec fn url_decoded(s: Seq<char>) -> Seq<char>;

/// Relies on urlencoding's decode: percent sequences decode to bytes and
/// the result is text; an input that does not decode cleanly is handed
/// back unchanged.
#[verifier::external_body]
fn url_decode(s: &str) -> (r: String)
    ensures
        r@ == url_decoded(s@),
{
    match urlencoding::decode(s) {
        Ok(decoded) => decoded.into_owned(),
        Err(_) => s.to_owned(),
    }
}

/// A query value with each `+` read as a space, as form encoding writes
/// spaces; a literal plus arrives percent-encoded.
pub open spec fn spec_plus_to_space(s: Seq<char>) -> Seq<char> {
    s.map_values(
        |c: char|
            if c == '+' {
                ' '
            } else {
                c
            },
    )
}

/// Replace each `+` of a query value with a space.
#[verifier::loop_isolation(false)]
fn plus_to_space(s: &str) -> (r: String)
    ensures
        r@ == spec_plus_to_space(s@),
{
    let n = s.unicode_len();
    let mut out = String::new();
    let mut i: usize = 0;
    while i < n
        invariant
            0 <= i <= n,
            n == s@.len(),
            out@ == spec_plus_to_space(s@.subrange(0, i as int)),
        decreases n - i,
    {
        let c = s.get_char(i);
        let ghost before = out@;
        if c == '+' {
            crate::strutil::push_char(&mut out, ' ');
        } else {
            crate::strutil::push_char(&mut out, c);
        }
        proof {
            assert(s@.subrange(0, i as int + 1) =~= s@.subrange(0, i as int).push(c));
            assert(spec_plus_to_space(s@.subrange(0, i as int + 1)) =~= before.push(
                if c == '+' {
                    ' '
                } else {
                    c
                },
            ));
        }
        i = i + 1;
    }
    proof {
        assert(s@.subrange(0, n as int) =~= s@);
    }
    out
}

/// The recognized list query parameters.
#[derive(Debug)]
pub struct ListQuery {
    pub label_selector: Option<String>,
    pub field_selector: Option<String>,
    pub limit: Option<u64>,
    pub continue_token: Option<String>,
    pub resource_version: Option<String>,
    pub timeout_seconds: Option<u64>,
}

/// The mathematical value of the recognized query parameters.
pub struct ListQueryV {
    pub label_selector: Option<Seq<char>>,
    pub field_selector: Option<Seq<char>>,
    pub limit: Option<int>,
    pub continue_token: Option<Seq<char>>,
    pub resource_version: Option<Seq<char>>,
    pub timeout_seconds: Option<int>,
}

impl View for ListQuery {
    type V = ListQueryV;

    open spec fn view(&self) -> ListQueryV {
        ListQueryV {
            label_selector: match self.label_selector {
                Some(ref s) => Some(s@),
                None => None,
            },
            field_selector: match self.field_selector {
                Some(ref s) => Some(s@),
                None => None,
            },
            limit: match self.limit {
                Some(n) => Some(n as int),
                None => None,
            },
            continue_token: match self.continue_token {
                Some(ref s) => Some(s@),
                None => None,
            },
            resource_version: match self.resource_version {
                Some(ref s) => Some(s@),
                None => None,
            },
            timeout_seconds: match self.timeout_seconds {
                Some(n) => Some(n as int),
                None => None,
            },
        }
    }
}

/// One query pair folded into the parameters: the recognized keys store
/// their decoded values, numeric ones only when they parse; anything else
/// is ignored.
pub open spec fn spec_apply_query_pair(q: ListQueryV, pair: Seq<char>) -> ListQueryV {
    let eq = spec_find_char(pair, '=', 0);
    if eq < 0 || eq >= pair.len() {
        q
    } else {
        let key = pair.subrange(0, eq);
        let decoded = url_decoded(spec_plus_to_space(pair.subrange(eq + 1, pair.len() as int)));
        if key == "labelSelector"@ {
            ListQueryV { label_selector: Some(decoded), ..q }
        } else if key == "fieldSelector"@ {
            ListQueryV { field_selector: Some(decoded), ..q }
        } else if key == "limit"@ {
            if decoded.len() > 0 && crate::strutil::all_digits(decoded)
                && crate::strutil::dec_value(decoded) <= u32::MAX {
                ListQueryV { limit: Some(crate::strutil::dec_value(decoded)), ..q }
            } else {
                q
            }
        } else if key == "continue"@ {
            ListQueryV { continue_token: Some(decoded), ..q }
        } else if key == "resourceVersion"@ {
            ListQueryV { resource_version: Some(decoded), ..q }
        } else if key == "timeoutSeconds"@ {
            if decoded.len() > 0 && crate::strutil::all_digits(decoded)
                && crate::strutil::dec_value(decoded) <= u32::MAX {
                ListQueryV { timeout_seconds: Some(crate::strutil::dec_value(decoded)), ..q }
            } else {
                q
            }
        } else {
            q
        }
    }
}

/// The query pairs folded in order over empty parameters.
pub open spec fn spec_parse_query(pairs: Seq<Seq<char>>, q: ListQueryV) -> ListQueryV
    decreases pairs.len(),
{
    if pairs.len() == 0 {
        q
    } else {
        spec_parse_query(pairs.drop_first(), spec_apply_query_pair(q, pairs[0]))
    }
}

/// The empty query parameters.
pub open spec fn spec_empty_query() -> ListQueryV {
    ListQueryV {
        label_selector: None,
        field_selector: None,
        limit: None,
        continue_token: None,
        resource_version: None,
        timeout_seconds: None,
    }
}

/// Parse the recognized query parameters of a list request; unknown
/// parameters are ignored.
#[verifier::loop_isolation(false)]
pub fn parse_list_params(query: Option<&str>) -> (r: ListQuery)
    ensures
        r@ == match query {
            Some(qs) => spec_parse_query(spec_split_char(qs@, '&'), spec_empty_query()),
            None => spec_empty_query(),
        },
{
    proof {
        reveal_strlit("labelSelector");
        reveal_strlit("fieldSelector");
        reveal_strlit("limit");
        reveal_strlit("continue");
        reveal_strlit("resourceVersion");
        reveal_strlit("timeoutSeconds");
        assert("labelSelector"@.len() == 13);
        assert("fieldSelector"@.len() == 13);
        assert("labelSelector"@[0] == 'l' && "fieldSelector"@[0] == 'f');
        assert("limit"@.len() == 5);
        assert("continue"@.len() == 8);
        assert("resourceVersion"@.len() == 15);
        assert("timeoutSeconds"@.len() == 14);
    }
    let mut params = ListQuery {
        label_selector: None,
        field_selector: None,
        limit: None,
        continue_token: None,
        resource_version: None,
        timeout_seconds: None,
    };
    let query_str = match query {
        Some(qs) => qs,
        None => {
            return params;
        },
    };
    let pairs = crate::strutil::split_char(query_str, '&');
    let ghost pv = views_of_strings(pairs@);
    let n = pairs.len();
    proof {
        assert(pv.subrange(0, n as int) =~= pv);
    }
    let mut i: usize = 0;
    while i < n
        invariant
            0 <= i <= n,
            n == pairs@.len(),
            pv == views_of_strings(pairs@),
            pv.len() == n,
            spec_parse_query(pv, spec_empty_query()) == spec_parse_query(
                pv.subrange(i as int, n as int),
                params@,
            ),
        decreases n - i,
    {
        proof {
            let pre = pv.subrange(i as int, n as int);
            assert(pre[0] == pv[i as int]);
            assert(pre.drop_first() =~= pv.subrange(i as int + 1, n as int));
        }
        let pair = pairs[i].as_str();
        let plen = pair.unicode_len();
        match crate::strutil::find_char(pair, '=') {
            None => {},
            Some(e) => {
                proof {
                    assert(spec_find_char(pair@, '=', 0) == e as int);
                }
                let key = pair.substring_char(0, e);
                let value = pair.substring_char(e + 1, plen);
                let spaced = plus_to_space(value);
                let decoded = url_decode(spaced.as_str());
                if str_eq(key, "labelSelector") {
                    params.label_selector = Some(decoded);
                } else if str_eq(key, "fieldSelector") {
                    params.field_selector = Some(decoded);
                } else if str_eq(key, "limit") {
                    match crate::strutil::parse_u64(decoded.as_str()) {
                        Some(v) => {
                            if v <= u32::MAX as u64 {
                                params.limit = Some(v);
                            }
                        },
                        None => {
                            proof {
                                if decoded@.len() > 0 && crate::strutil::all_digits(decoded@) {
                                    assert(crate::strutil::dec_value(decoded@) > u64::MAX);
                                }
                            }
                        },
                    }
                } else if str_eq(key, "continue") {
                    params.continue_token = Some(decoded);
                } else if str_eq(key, "resourceVersion") {
                    params.resource_version = Some(decoded);
                } else if str_eq(key, "timeoutSeconds") {
                    match crate::strutil::parse_u64(decoded.as_str()) {
                        Some(v) => {
                            if v <= u32::MAX as u64 {
                                params.timeout_seconds = Some(v);
                            }
                        },
                        None => {
                            proof {
                                if decoded@.len() > 0 && crate::strutil::all_digits(decoded@) {
                                    assert(crate::strutil::dec_value(decoded@) > u64::MAX);
                                }
                            }
                        },
                    }
                }
            },
        }
        i = i + 1;
    }
    proof {
        assert(pv.subrange(n as int, n as int) =~= Seq::<Seq<char>>::empty());
    }
    params
}

/// The patch flavor of a request content type: decided by which
/// patch media type the header text mentions, strategic by default.
pub open spec fn spec_patch_type(content_type: Option<Seq<char>>) -> PatchType {
    match content_type {
        Option::None => PatchType::StrategicMergePatch,
        Option::Some(ct) => if spec_find_sub(ct, "application/json-patch+json"@) >= 0 {
            PatchType::JsonPatch
        } else if spec_find_sub(ct, "application/merge-patch+json"@) >= 0 {
            PatchType::MergePatch
        } else if spec_find_sub(ct, "application/strategic-merge-patch+json"@) >= 0 {
            PatchType::StrategicMergePatch
        } else if spec_find_sub(ct, "application/apply-patch+yaml"@) >= 0 {
            PatchType::ApplyPatch
        } else {
            PatchType::StrategicMergePatch
        },
    }
}

/// Decide the patch flavor from the request content type.
pub fn determine_patch_type(content_type: Option<&str>) -> (r: PatchType)
    ensures
        r == spec_patch_type(
            match content_type {
                Some(ct) => Some(ct@),
                None => None,
            },
        ),
{
    match content_type {
        None => PatchType::StrategicMergePatch,
        Some(ct) => {
            if crate::strutil::find_sub(ct, "application/json-patch+json").is_some() {
                PatchType::JsonPatch
            } else if crate::strutil::find_sub(ct, "application/merge-patch+json").is_some() {
                PatchType::MergePatch
            } else if crate::strutil::find_sub(
                ct,
                "application/strategic-merge-patch+json",
            ).is_some() {
                PatchType::StrategicMergePatch
            } else if crate::strutil::find_sub(ct, "application/apply-patch+yaml").is_some() {
                PatchType::ApplyPatch
            } else {
                PatchType::StrategicMergePatch
            }
        },
    }
}

/// A wire response: a status code and a JSON body.
#[derive(Debug)]
pub struct ApiResponse {
    pub code: u16,
    pub body: Json,
}

/// The wire `Status` body of a taxonomy error.
pub open spec fn spec_status_json(e: Error) -> JsonV {
    JsonV::Obj(
        seq![
            ("kind"@, JsonV::Str("Status"@)),
            ("apiVersion"@, JsonV::Str("v1"@)),
            ("status"@, JsonV::Str("Failure"@)),
            ("message"@, JsonV::Str(spec_message(e))),
            ("reason"@, JsonV::Str(spec_reason(e))),
            ("code"@, JsonV::Int(spec_code(e))),
        ],
    )
}

/// Render a taxonomy error into its wire response: the `Status` body and
/// the HTTP code of the error table.
pub fn error_to_response(err: &Error) -> (r: ApiResponse)
    ensures
        r.code as int == spec_code(*err),
        r.body@ == spec_status_json(*err),
{
    broadcast use crate::json::group_json_view_axioms;

    let status = err.to_status();
    let mut fields: Vec<(String, Json)> = Vec::new();
    fields.push(("kind".to_owned(), Json::string("Status")));
    fields.push(("apiVersion".to_owned(), Json::string("v1")));
    fields.push(("status".to_owned(), Json::Str(status.status)));
    fields.push(("message".to_owned(), Json::Str(status.message)));
    fields.push(("reason".to_owned(), Json::Str(status.reason)));
    fields.push(("code".to_owned(), Json::Int(status.code as i64)));
    let body = Json::Obj(fields);
    proof {
        crate::json::lemma_view_fields_len(fields@);
        crate::json::lemma_view_fields_index(fields@, 0);
        crate::json::lemma_view_fields_index(fields@, 1);
        crate::json::lemma_view_fields_index(fields@, 2);
        crate::json::lemma_view_fields_index(fields@, 3);
        crate::json::lemma_view_fields_index(fields@, 4);
        crate::json::lemma_view_fields_index(fields@, 5);
        assert(body@->Obj_0 =~= spec_status_json(*err)->Obj_0);
    }
    ApiResponse { code: status.code, body }
}

/// The api-version text of a group and version: `v1` for the core group,
/// `group/version` for the rest.
pub open spec fn spec_api_version(group: Option<Seq<char>>, version: Seq<char>) -> Seq<char> {
    match group {
        Option::Some(g) => g + "/"@ + version,
        Option::None => version,
    }
}

/// Build the api-version text of a group and version.
pub fn build_api_version(group: &Option<String>, version: &str) -> (r: String)
    ensures
        r@ == spec_api_version(
            match group {
                Some(g) => Some(g@),
                None => None,
            },
            version@,
        ),
{
    match group {
        Some(g) => {
            let mut s = g.clone();
            s.append("/");
            s.append(version);
            proof {
                assert(s@ =~= g@ + "/"@ + version@);
            }
            s
        },
        None => version.to_owned(),
    }
}

/// The wire body of a list response.
pub open spec fn spec_list_body(
    kind: Seq<char>,
    api_version: Seq<char>,
    items: Seq<JsonV>,
) -> JsonV {
    JsonV::Obj(
        seq![
            ("kind"@, JsonV::Str(kind + "List"@)),
            ("apiVersion"@, JsonV::Str(api_version)),
            (
                "metadata"@,
                JsonV::Obj(seq![("resourceVersion"@, JsonV::Str(spec_dec(1)))]),
            ),
            ("items"@, JsonV::Arr(items)),
        ],
    )
}

/// Build the wire body of a list response.
pub fn list_body(kind: &str, api_version: String, items: Vec<Json>) -> (r: Json)
    ensures
        r@ == spec_list_body(kind@, api_version@, view_items(items@)),
{
    broadcast use crate::json::group_json_view_axioms;

    let mut list_kind: String = kind.to_owned();
    list_kind.append("List");
    let mut meta_fields: Vec<(String, Json)> = Vec::new();
    meta_fields.push(("resourceVersion".to_owned(), Json::Str(u64_to_string(1))));
    let ghost mfv = meta_fields@;
    let meta = Json::Obj(meta_fields);
    let ghost meta_view = meta@;
    let mut fields: Vec<(String, Json)> = Vec::new();
    fields.push(("kind".to_owned(), Json::Str(list_kind)));
    fields.push(("apiVersion".to_owned(), Json::Str(api_version)));
    fields.push(("metadata".to_owned(), meta));
    fields.push(("items".to_owned(), Json::Arr(items)));
    let body = Json::Obj(fields);
    proof {
        crate::json::lemma_view_fields_len(mfv);
        crate::json::lemma_view_fields_index(mfv, 0);
        assert(meta_view->Obj_0 =~= seq![("resourceVersion"@, JsonV::Str(spec_dec(1)))]);
        crate::json::lemma_view_fields_len(fields@);
        crate::json::lemma_view_fields_index(fields@, 0);
        crate::json::lemma_view_fields_index(fields@, 1);
        crate::json::lemma_view_fields_index(fields@, 2);
        crate::json::lemma_view_fields_index(fields@, 3);
        assert(body@->Obj_0 =~= spec_list_body(kind@, api_version@, view_items(items@))->Obj_0);
    }
    body
}

} // verus!

verus! {

/// The namespace of a request: the path's, or empty for cluster-scoped
/// URLs.
pub open spec fn spec_req_ns(p: PathV) -> Seq<char> {
    match p.namespace {
        Option::Some(ns) => ns,
        Option::None => Seq::empty(),
    }
}

/// The group of a request: the path's, or empty for the core group.
pub open spec fn spec_req_group(p: PathV) -> Seq<char> {
    match p.group {
        Option::Some(g) => g,
        Option::None => Seq::empty(),
    }
}

/// The kind a request's resource resolves to: the discovery table first,
/// then the registry.
pub open spec fn spec_req_kind(p: PathV, regs: Seq<crate::registry::ResourceMetadataV>) -> Option<
    Seq<char>,
> {
    match crate::discovery::spec_builtin_by_plural(
        crate::discovery::spec_builtins(),
        spec_req_group(p),
        p.version,
        p.resource,
    ) {
        Option::Some(b) => Option::Some(b.kind),
        Option::None => match crate::registry::spec_reg_lookup(
            regs,
            spec_req_group(p),
            p.version,
            p.resource,
        ) {
            Option::Some(m) => Option::Some(m.kind),
            Option::None => Option::None,
        },
    }
}

/// The namespace of a request, as an owned string.
fn req_ns(parsed: &ParsedPath) -> (r: String)
    ensures
        r@ == spec_req_ns(parsed@),
{
    match &parsed.namespace {
        Some(ns) => ns.clone(),
        None => {
            proof {
                reveal_strlit("");
                assert(""@ =~= Seq::<char>::empty());
            }
            "".to_owned()
        },
    }
}

/// The group of a request, as an owned string.
fn req_group(parsed: &ParsedPath) -> (r: String)
    ensures
        r@ == spec_req_group(parsed@),
{
    match &parsed.group {
        Some(g) => g.clone(),
        None => {
            proof {
                reveal_strlit("");
                assert(""@ =~= Seq::<char>::empty());
            }
            "".to_owned()
        },
    }
}

/// Resolve the kind of the request's resource, or the not-found error of
/// an unregistered resource.
fn resource_to_kind(client: &FakeClient, parsed: &ParsedPath) -> (r: Result<String, Error>)
    ensures
        match r {
            Ok(k) => spec_req_kind(parsed@, client.regs()) == Some(k@),
            Err(e) => spec_req_kind(parsed@, client.regs()) is None && (
            e matches Error::ResourceNotRegistered { group, version, resource } && group@
                == spec_req_group(parsed@) && version@ == parsed@.version && resource@
                == parsed@.resource),
        },
{
    let group = req_group(parsed);
    match crate::discovery::Discovery::plural_to_kind_with_registry(
        group.as_str(),
        parsed.version.as_str(),
        parsed.resource.as_str(),
        client.registry(),
    ) {
        Some(k) => Ok(k),
        None => Err(
            Error::ResourceNotRegistered {
                group,
                version: parsed.version.clone(),
                resource: parsed.resource.clone(),
            },
        ),
    }
}

/// A successful wire response.
fn success_response(code: u16, body: Json) -> (r: ApiResponse)
    ensures
        r.code == code,
        r.body == body,
{
    ApiResponse { code, body }
}

/// A parsed limit never exceeds what the query parser accepts.
proof fn lemma_query_limit_bounded(pairs: Seq<Seq<char>>, q: ListQueryV)
    requires
        match q.limit {
            Option::Some(l) => 0 <= l <= u32::MAX,
            Option::None => true,
        },
    ensures
        match spec_parse_query(pairs, q).limit {
            Option::Some(l) => 0 <= l <= u32::MAX,
            Option::None => true,
        },
    decreases pairs.len(),
{
    if pairs.len() > 0 {
        let pair = pairs[0];
        let eq = spec_find_char(pair, '=', 0);
        if 0 <= eq < pair.len() {
            let decoded = url_decoded(spec_plus_to_space(pair.subrange(eq + 1, pair.len() as int)));
            if crate::strutil::all_digits(decoded) {
                crate::strutil::lemma_dec_value_nonneg(decoded);
            }
        }
        lemma_query_limit_bounded(pairs.drop_first(), spec_apply_query_pair(q, pairs[0]));
    }
}


/// The items a listing shows, truncated by the query's limit.
pub open spec fn spec_truncated(items: Seq<JsonV>, limit: Option<int>) -> Seq<JsonV> {
    match limit {
        Option::Some(l) => if l < items.len() {
            items.subrange(0, l)
        } else {
            items
        },
        Option::None => items,
    }
}

/// What a listing of a kind gives: the stored objects of the resolved
/// resource, filtered by the parsed label selector and the field
/// selector, with the managed-fields rule applied; an unsupported field
/// names the failing selector field.
pub open spec fn spec_list_items(
    pre: crate::tracker::ObjectTracker,
    regs: Seq<crate::registry::ResourceMetadataV>,
    keeps: bool,
    g: crate::tracker::GvkV,
    gvr: crate::tracker::GvrV,
    nsopt: Option<Seq<char>>,
    lsel: Option<Seq<char>>,
    fsel: Option<Seq<char>>,
) -> Result<Seq<JsonV>, Seq<char>> {
    let docs = crate::tracker::spec_list(pre.store(), gvr, nsopt);
    let docs1 = match lsel {
        Option::Some(sel) => match crate::selector::spec_parse_selector(sel) {
            Ok(es) => crate::client::spec_filter_labels(docs, es),
            Err(_) => Seq::empty(),
        },
        Option::None => docs,
    };
    match fsel {
        Option::None => Ok(crate::client::spec_strip_docs(docs1, keeps)),
        Option::Some(fs) => match crate::client::spec_filter_fields(
            docs1,
            crate::selector::spec_split_csv(fs),
            g.kind,
        ) {
            Ok(d2) => Ok(crate::client::spec_strip_docs(d2, keeps)),
            Err(f) => Err(f),
        },
    }
}

/// The recognized query parameters of a request.
pub open spec fn spec_query_of(query: Option<Seq<char>>) -> ListQueryV {
    match query {
        Option::Some(qs) => spec_parse_query(spec_split_char(qs, '&'), spec_empty_query()),
        Option::None => spec_empty_query(),
    }
}


/// Serve a read: a named object, its status view, or a filtered listing
/// wrapped in the list envelope, with the query's limit applied last.
#[verifier::loop_isolation(false)]
#[verifier::rlimit(60)]
#[verifier::spinoff_prover]
pub fn handle_get(client: &FakeClient, path: &str, query: Option<&str>) -> (r: Result<
    ApiResponse,
    String,
>)
    ensures
        spec_parse_path(path@) is None <==> r is Err,
        ({
            match spec_parse_path(path@) {
                Option::None => true,
                Option::Some(p) => r matches Ok(resp) && match spec_req_kind(p, client.regs()) {
                    Option::None => resp.code == 404 && (exists|e: Error|
                        (e matches Error::ResourceNotRegistered { group, version, resource }
                            && group@ == spec_req_group(p) && version@ == p.version && resource@
                            == p.resource) && resp.body@ == #[trigger] spec_status_json(e)),
                    Option::Some(kind) => {
                        let g = crate::tracker::GvkV {
                            group: spec_req_group(p),
                            version: p.version,
                            kind: kind,
                        };
                        match p.name {
                            Option::Some(name) => match crate::client::spec_resolve_gvr(
                                g,
                                client.regs(),
                            ) {
                                Option::None => resp.code == 404 && (exists|e: Error|
                                    (e is ResourceNotRegistered) && resp.body@
                                        == #[trigger] spec_status_json(e)),
                                Option::Some(gvr) => if !crate::client::spec_verb_allowed(
                                    g,
                                    client.regs(),
                                    "get"@,
                                ) {
                                    resp.code == 405 && (exists|e: Error|
                                        (e is VerbNotSupported) && resp.body@
                                            == #[trigger] spec_status_json(e))
                                } else {
                                    match crate::tracker::spec_find(
                                        client.trk().store(),
                                        gvr,
                                        spec_req_ns(p),
                                        name,
                                    ) {
                                        Option::Some(e) => resp.code == 200 && resp.body@ == (
                                        if client.keeps_managed_fields() {
                                            e.data
                                        } else {
                                            crate::client::spec_strip_managed(e.data)
                                        }),
                                        Option::None => resp.code == 404 && (exists|e: Error|
                                            (e is NotFound) && resp.body@
                                                == #[trigger] spec_status_json(e)),
                                    }
                                },
                            },
                            Option::None => {
                                let q = spec_query_of(
                                    match query {
                                        Some(qs) => Some(qs@),
                                        None => None,
                                    },
                                );
                                &&& (resp.code != 200 ==> (exists|e: Error|
                                    resp.code as int == spec_code(e) && resp.body@
                                        == #[trigger] spec_status_json(e)))
                                &&& (resp.code == 200 ==> match crate::client::spec_resolve_gvr(
                                    g,
                                    client.regs(),
                                ) {
                                    Option::Some(gvr) => match spec_list_items(
                                        client.trk(),
                                        client.regs(),
                                        client.keeps_managed_fields(),
                                        g,
                                        gvr,
                                        p.namespace,
                                        q.label_selector,
                                        q.field_selector,
                                    ) {
                                        Ok(items) => resp.body@ == spec_list_body(
                                            kind,
                                            spec_api_version(p.group, p.version),
                                            spec_truncated(items, q.limit),
                                        ),
                                        Err(_) => false,
                                    },
                                    Option::None => false,
                                })
                                &&& (match crate::client::spec_resolve_gvr(g, client.regs()) {
                                    Option::Some(gvr) => (crate::client::spec_verb_allowed(
                                        g,
                                        client.regs(),
                                        "list"@,
                                    ) && spec_list_items(
                                        client.trk(),
                                        client.regs(),
                                        client.keeps_managed_fields(),
                                        g,
                                        gvr,
                                        p.namespace,
                                        q.label_selector,
                                        q.field_selector,
                                    ) is Ok) ==> resp.code == 200,
                                    Option::None => true,
                                })
                            },
                        }
                    },
                },
            }
        }),
{
    let parsed = match parse_path(path) {
        Some(p) => p,
        None => {
            return Err("Invalid path".to_owned());
        },
    };
    let namespace = req_ns(&parsed);
    let kind = match resource_to_kind(client, &parsed) {
        Ok(k) => k,
        Err(e) => {
            return Ok(error_to_response(&e));
        },
    };
    let group = req_group(&parsed);
    let gvk = GVK::new(group.as_str(), parsed.version.as_str(), kind.as_str());
    match &parsed.name {
        Some(name) => {
            match client.get(&gvk, namespace.as_str(), name.as_str()) {
                Ok(o) => Ok(success_response(200, o)),
                Err(e) => Ok(error_to_response(&e)),
            }
        },
        None => {
            let params = parse_list_params(query);
            let label_sel: Option<&str> = match &params.label_selector {
                Some(s) => Some(s.as_str()),
                None => None,
            };
            let field_sel: Option<&str> = match &params.field_selector {
                Some(s) => Some(s.as_str()),
                None => None,
            };
            let ns_opt: Option<&str> = match &parsed.namespace {
                Some(ns) => Some(ns.as_str()),
                None => None,
            };
            let mut objects = match client.list(&gvk, ns_opt, label_sel, field_sel) {
                Ok(os) => os,
                Err(e) => {
                    return Ok(error_to_response(&e));
                },
            };
            let ghost items0 = view_items(objects@);
            proof {
                crate::json::lemma_view_items_len(objects@);
            }
            match params.limit {
                Some(limit) => {
                    proof {
                        match query {
                            Some(qs) => {
                                assert(spec_empty_query().limit is None);
                                lemma_query_limit_bounded(
                                    spec_split_char(qs@, '&'),
                                    spec_empty_query(),
                                );
                            },
                            None => {},
                        }
                        assert(limit <= u32::MAX as u64);
                    }
                    if (limit as usize) < objects.len() {
                        let ghost before = objects@;
                        objects.truncate(limit as usize);
                        proof {
                            crate::json::lemma_view_items_len(objects@);
                            assert forall|k: int|
                                0 <= k < view_items(objects@).len() implies #[trigger] view_items(
                                objects@,
                            )[k] == items0.subrange(0, limit as int)[k] by {
                                crate::json::lemma_view_items_index(objects@, k);
                                crate::json::lemma_view_items_index(before, k);
                            }
                            assert(view_items(objects@) =~= items0.subrange(0, limit as int));
                        }
                    }
                },
                None => {},
            }
            let api_version = build_api_version(&parsed.group, parsed.version.as_str());
            let ghost shown = view_items(objects@);
            let body = list_body(kind.as_str(), api_version, objects);
            proof {
                let q = spec_query_of(
                    match query {
                        Some(qs) => Some(qs@),
                        None => None,
                    },
                );
                assert(shown == spec_truncated(items0, q.limit));
            }
            Ok(success_response(200, body))
        },
    }
}

/// The request body with `apiVersion` and `kind` defaulted from the URL.
pub open spec fn spec_defaulted_doc(body: JsonV, p: PathV, kind: Seq<char>) -> JsonV {
    let b1 = if crate::json::spec_get(body, "apiVersion"@) is None {
        crate::json::spec_set(
            body,
            "apiVersion"@,
            JsonV::Str(spec_api_version(p.group, p.version)),
        )
    } else {
        body
    };
    if crate::json::spec_get(b1, "kind"@) is None {
        crate::json::spec_set(b1, "kind"@, JsonV::Str(kind))
    } else {
        b1
    }
}

/// Serve a create: the body's `apiVersion` and `kind` default to the
/// URL's; a created object answers with code 201 and the stored document,
/// every refusal with the exact `Status` rendering of its error and an
/// untouched store.
#[verifier::rlimit(100)]
#[verifier::spinoff_prover]
pub fn handle_post(client: &mut FakeClient, path: &str, body: &Json) -> (r: Result<
    ApiResponse,
    String,
>)
    ensures
        old(client).trk().wf() ==> final(client).trk().wf(),
        final(client).regs() == old(client).regs(),
        spec_parse_path(path@) is None <==> r is Err,
        ({
            let pre = old(client).trk();
            let post = final(client).trk();
            match spec_parse_path(path@) {
                Option::None => true,
                Option::Some(p) => r matches Ok(resp) && match spec_req_kind(
                    p,
                    old(client).regs(),
                ) {
                    Option::None => resp.code == 404 && crate::tracker::tracker_unchanged(
                        pre,
                        post,
                    ) && (exists|e: Error|
                        (e matches Error::ResourceNotRegistered { group, version, resource }
                            && group@ == spec_req_group(p) && version@ == p.version && resource@
                            == p.resource) && resp.body@ == #[trigger] spec_status_json(e)),
                    Option::Some(kind) => {
                        let obj = spec_defaulted_doc(body@, p, kind);
                        &&& (resp.code != 201 ==> crate::tracker::tracker_unchanged(pre, post) && (
                        exists|e: Error|
                            resp.code as int == spec_code(e) && resp.body@
                                == #[trigger] spec_status_json(e)))
                        &&& (resp.code == 201 ==> match crate::client_utils::spec_extract_gvk(
                            obj,
                        ) {
                            Option::Some(g) => match crate::client::spec_resolve_gvr(
                                g,
                                old(client).regs(),
                            ) {
                                Option::Some(gvr) => exists|
                                    now: Seq<char>,
                                    uid: Seq<char>,
                                    d: JsonV,
                                |
                                    #[trigger] crate::tracker::spec_create_ok(
                                        pre,
                                        post,
                                        gvr,
                                        g,
                                        obj,
                                        spec_req_ns(p),
                                        d,
                                        now,
                                        uid,
                                    ) && resp.body@ == (if old(client).keeps_managed_fields() {
                                        d
                                    } else {
                                        crate::client::spec_strip_managed(d)
                                    }),
                                Option::None => false,
                            },
                            Option::None => false,
                        })
                        &&& ((crate::client_utils::spec_extract_gvk(obj) matches Some(g)
                            && crate::client::spec_resolve_gvr(g, old(client).regs()) matches Some(
                            gvr,
                        ) && crate::client::spec_verb_allowed(g, old(client).regs(), "create"@)
                            && crate::tracker::spec_meta_of(obj) is Some
                            && crate::tracker::spec_obj_name(obj) is Some
                            && crate::tracker::spec_seed_assigns(obj) && spec_find(
                            pre.store(),
                            gvr,
                            spec_req_ns(p),
                            match crate::tracker::spec_obj_name(obj) {
                                Option::Some(n) => n,
                                Option::None => Seq::empty(),
                            },
                        ) is None && pre.rv() < u64::MAX && (!old(client).has_validator()
                            || !crate::validator::spec_validation_rejects(
                            old(client).validator_enabled(),
                            old(client).validator_defs(),
                            crate::validator::spec_gvk_key(g.group, g.version, g.kind),
                            crate::serialize::json_text(obj),
                        ))) ==> resp.code == 201)
                    },
                },
            }
        }),
{
    let parsed = match parse_path(path) {
        Some(p) => p,
        None => {
            return Err("Invalid path".to_owned());
        },
    };
    let namespace = req_ns(&parsed);
    let kind = match resource_to_kind(client, &parsed) {
        Ok(k) => k,
        Err(e) => {
            return Ok(error_to_response(&e));
        },
    };
    let api_version = build_api_version(&parsed.group, parsed.version.as_str());
    let mut obj = body.duplicate();
    if obj.get("apiVersion").is_none() {
        obj = obj.set("apiVersion", Json::Str(api_version));
    }
    if obj.get("kind").is_none() {
        obj = obj.set("kind", Json::Str(kind));
    }
    let ghost objv = obj@;
    proof {
        assert(objv == spec_defaulted_doc(body@, spec_parse_path(path@)->0, kind@));
    }
    match client.create(namespace.as_str(), obj) {
        Ok(created) => Ok(success_response(201, created)),
        Err(e) => Ok(error_to_response(&e)),
    }
}

/// Whether a path addresses the status subresource.
pub open spec fn spec_is_status_path(path: Seq<char>) -> bool {
    path.len() >= 7 && path.subrange(path.len() - 7, path.len() as int) == "/status"@
}

/// Whether a path addresses the status subresource.
fn is_status_path(path: &str) -> (r: bool)
    ensures
        r == spec_is_status_path(path@),
{
    proof {
        reveal_strlit("/status");
        assert("/status"@.len() == 7);
    }
    let n = path.unicode_len();
    if n < 7 {
        return false;
    }
    let tail = path.substring_char(n - 7, n);
    str_eq(tail, "/status")
}

/// Serve a replace: a `/status` path routes to a status write, anything
/// else to a full replace with its immutability checks; the committed
/// document answers with code 200, every refusal with the exact `Status`
/// rendering of its error.
#[verifier::rlimit(100)]
#[verifier::spinoff_prover]
pub fn handle_put(client: &mut FakeClient, path: &str, body: &Json) -> (r: Result<
    ApiResponse,
    String,
>)
    ensures
        old(client).trk().wf() ==> final(client).trk().wf(),
        final(client).regs() == old(client).regs(),
        spec_parse_path(path@) is None || (spec_parse_path(path@) matches Some(p) && p.name is None)
            <==> r is Err,
        ({
            let pre = old(client).trk();
            let post = final(client).trk();
            match spec_parse_path(path@) {
                Option::None => true,
                Option::Some(p) => match p.name {
                    Option::None => true,
                    Option::Some(_) => r matches Ok(resp) && match spec_req_kind(
                        p,
                        old(client).regs(),
                    ) {
                        Option::None => resp.code == 404 && crate::tracker::tracker_unchanged(
                            pre,
                            post,
                        ) && (exists|e: Error|
                            (e matches Error::ResourceNotRegistered { group, version, resource }
                                && group@ == spec_req_group(p) && version@ == p.version
                                && resource@ == p.resource) && resp.body@
                                == #[trigger] spec_status_json(e)),
                        Option::Some(kind) => {
                            let obj = spec_defaulted_doc(body@, p, kind);
                            let is_status = spec_is_status_path(path@);
                            &&& (resp.code != 200 ==> post.store() == pre.store() && (exists|
                                e: Error,
                            |
                                resp.code as int == spec_code(e) && resp.body@
                                    == #[trigger] spec_status_json(e)))
                            &&& (resp.code == 200
                                ==> match crate::client_utils::spec_extract_gvk(obj) {
                                Option::Some(g) => match crate::client::spec_resolve_gvr(
                                    g,
                                    old(client).regs(),
                                ) {
                                    Option::Some(gvr) => match crate::tracker::spec_update_gate(
                                        pre,
                                        gvr,
                                        obj,
                                        spec_req_ns(p),
                                        is_status,
                                    ) {
                                        crate::tracker::UpdateGate::Deleting => exists|d: JsonV|
                                            #[trigger] crate::tracker::spec_update_deleted(
                                                pre,
                                                post,
                                                gvr,
                                                obj,
                                                spec_req_ns(p),
                                                d,
                                            ) && resp.body@ == (
                                            if old(client).keeps_managed_fields() {
                                                d
                                            } else {
                                                crate::client::spec_strip_managed(d)
                                            }),
                                        crate::tracker::UpdateGate::Storing => exists|d: JsonV|
                                            #[trigger] crate::tracker::spec_update_ok(
                                                pre,
                                                post,
                                                gvr,
                                                g,
                                                obj,
                                                spec_req_ns(p),
                                                is_status,
                                                d,
                                            ) && resp.body@ == (
                                            if old(client).keeps_managed_fields() {
                                                d
                                            } else {
                                                crate::client::spec_strip_managed(d)
                                            }),
                                        _ => false,
                                    },
                                    Option::None => false,
                                },
                                Option::None => false,
                            })
                            &&& (match crate::client_utils::spec_extract_gvk(obj) {
                                Option::Some(g) => match crate::client::spec_resolve_gvr(
                                    g,
                                    old(client).regs(),
                                ) {
                                    Option::Some(gvr) => {
                                        let gate = crate::tracker::spec_update_gate(
                                            pre,
                                            gvr,
                                            obj,
                                            spec_req_ns(p),
                                            is_status,
                                        );
                                        let immutable_ok = if is_status {
                                            true
                                        } else {
                                            match crate::client::spec_client_name(obj) {
                                                Option::Some(nm) => match spec_find(
                                                    pre.store(),
                                                    gvr,
                                                    spec_req_ns(p),
                                                    nm,
                                                ) {
                                                    Option::Some(ex) => crate::immutable::spec_validate_immutable(
                                                        g,
                                                        ex.data,
                                                        obj,
                                                    ) is None,
                                                    Option::None => false,
                                                },
                                                Option::None => false,
                                            }
                                        };
                                        (crate::client::spec_verb_allowed(
                                            g,
                                            old(client).regs(),
                                            "update"@,
                                        ) && (gate is Storing || gate is Deleting) && immutable_ok
                                            && (!old(client).has_validator()
                                            || !crate::validator::spec_validation_rejects(
                                            old(client).validator_enabled(),
                                            old(client).validator_defs(),
                                            crate::validator::spec_gvk_key(
                                                g.group,
                                                g.version,
                                                g.kind,
                                            ),
                                            crate::serialize::json_text(obj),
                                        ))) ==> resp.code == 200
                                    },
                                    Option::None => true,
                                },
                                Option::None => true,
                            })
                        },
                    },
                },
            }
        }),
{
    let parsed = match parse_path(path) {
        Some(p) => p,
        None => {
            return Err("Invalid path".to_owned());
        },
    };
    match &parsed.name {
        None => {
            return Err("Name required for PUT".to_owned());
        },
        Some(_) => {},
    }
    let namespace = req_ns(&parsed);
    let kind = match resource_to_kind(client, &parsed) {
        Ok(k) => k,
        Err(e) => {
            return Ok(error_to_response(&e));
        },
    };
    let api_version = build_api_version(&parsed.group, parsed.version.as_str());
    let mut obj = body.duplicate();
    if obj.get("apiVersion").is_none() {
        obj = obj.set("apiVersion", Json::Str(api_version));
    }
    if obj.get("kind").is_none() {
        obj = obj.set("kind", Json::Str(kind));
    }
    let ghost objv = obj@;
    proof {
        assert(objv == spec_defaulted_doc(body@, spec_parse_path(path@)->0, kind@));
    }
    let outcome = if is_status_path(path) {
        client.update_status(namespace.as_str(), obj)
    } else {
        client.update(namespace.as_str(), obj)
    };
    match outcome {
        Ok(updated) => Ok(success_response(200, updated)),
        Err(e) => Ok(error_to_response(&e)),
    }
}

/// The patch a request carries, applied to a stored document: an
/// operation list for a JSON patch, the object-wise merge for every other
/// flavor.
pub open spec fn spec_patched_doc(stored: JsonV, body: JsonV, pt: PatchType) -> Option<JsonV> {
    match pt {
        PatchType::JsonPatch => crate::jsonpatch::spec_apply_patch_doc(stored, body),
        _ => Some(crate::patch::spec_merge(stored, body)),
    }
}

/// What a committed patch response shows: the patched document went
/// through the update gate and the handed-out copy follows the
/// managed-fields rule.
pub open spec fn spec_patch_commit(
    pre: crate::tracker::ObjectTracker,
    post: crate::tracker::ObjectTracker,
    g: crate::tracker::GvkV,
    regs: Seq<crate::registry::ResourceMetadataV>,
    ns: Seq<char>,
    name: Seq<char>,
    body: JsonV,
    pt: PatchType,
    is_status: bool,
    resp_body: JsonV,
    keeps: bool,
) -> bool {
    match crate::client::spec_resolve_gvr(g, regs) {
        Option::Some(gvr) => match spec_find(pre.store(), gvr, ns, name) {
            Option::Some(ex) => match spec_patched_doc(ex.data, body, pt) {
                Option::Some(pdoc) => match crate::tracker::spec_update_gate(
                    pre,
                    gvr,
                    pdoc,
                    ns,
                    is_status,
                ) {
                    crate::tracker::UpdateGate::Deleting => exists|d: JsonV|
                        #[trigger] crate::tracker::spec_update_deleted(pre, post, gvr, pdoc, ns, d)
                            && resp_body == (if keeps {
                            d
                        } else {
                            crate::client::spec_strip_managed(d)
                        }),
                    crate::tracker::UpdateGate::Storing => exists|d: JsonV|
                        #[trigger] crate::tracker::spec_update_ok(
                            pre,
                            post,
                            gvr,
                            g,
                            pdoc,
                            ns,
                            is_status,
                            d,
                        ) && resp_body == (if keeps {
                            d
                        } else {
                            crate::client::spec_strip_managed(d)
                        }),
                    _ => false,
                },
                Option::None => false,
            },
            Option::None => false,
        },
        Option::None => false,
    }
}

/// Whether the patch route runs no validation, or the attached validator
/// lets the merged document through: a JSON patch and a status patch go
/// to the tracker directly, and a merge patch is validated against the
/// merge of the stored document with the body.
pub open spec fn spec_patch_validation_passes(
    c: FakeClient,
    g: crate::tracker::GvkV,
    ns: Seq<char>,
    name: Seq<char>,
    body: JsonV,
    pt: PatchType,
    is_status: bool,
) -> bool {
    ||| !c.has_validator()
    ||| pt is JsonPatch
    ||| is_status
    ||| match crate::client::spec_resolve_gvr(g, c.regs()) {
        Option::Some(gvr) => match spec_find(c.trk().store(), gvr, ns, name) {
            Option::Some(ex) => !crate::validator::spec_validation_rejects(
                c.validator_enabled(),
                c.validator_defs(),
                crate::validator::spec_gvk_key(g.group, g.version, g.kind),
                crate::serialize::json_text(crate::patch::spec_merge(ex.data, body)),
            ),
            Option::None => false,
        },
        Option::None => false,
    }
}

/// When a patch is owed success: the kind resolves and allows `patch`,
/// the object is stored, the patch applies, no immutable field changes,
/// and the update gate commits.
pub open spec fn spec_patch_owed(
    pre: crate::tracker::ObjectTracker,
    g: crate::tracker::GvkV,
    regs: Seq<crate::registry::ResourceMetadataV>,
    ns: Seq<char>,
    name: Seq<char>,
    body: JsonV,
    pt: PatchType,
    is_status: bool,
) -> bool {
    match crate::client::spec_resolve_gvr(g, regs) {
        Option::Some(gvr) => match spec_find(pre.store(), gvr, ns, name) {
            Option::Some(ex) => match spec_patched_doc(ex.data, body, pt) {
                Option::Some(pdoc) => {
                    let gate = crate::tracker::spec_update_gate(pre, gvr, pdoc, ns, is_status);
                    &&& crate::client::spec_verb_allowed(g, regs, "patch"@)
                    &&& crate::immutable::spec_validate_immutable(g, ex.data, pdoc) is None
                    &&& (gate is Storing || gate is Deleting)
                },
                Option::None => false,
            },
            Option::None => false,
        },
        Option::None => false,
    }
}


/// Serve a patch: the content type picks the flavor, the patched object
/// goes through the same immutability and update path as a full replace,
/// and a `/status` path routes to a status write.
#[verifier::rlimit(100)]
#[verifier::spinoff_prover]
pub fn handle_patch(
    client: &mut FakeClient,
    path: &str,
    body: &Json,
    content_type: Option<&str>,
) -> (r: Result<ApiResponse, String>)
    ensures
        old(client).trk().wf() ==> final(client).trk().wf(),
        final(client).regs() == old(client).regs(),
        spec_parse_path(path@) is None || (spec_parse_path(path@) matches Some(p) && p.name is None)
            <==> r is Err,
        ({
            let pre = old(client).trk();
            let post = final(client).trk();
            match spec_parse_path(path@) {
                Option::None => true,
                Option::Some(p) => match p.name {
                    Option::None => true,
                    Option::Some(name) => r matches Ok(resp) && match spec_req_kind(
                        p,
                        old(client).regs(),
                    ) {
                        Option::None => resp.code == 404 && crate::tracker::tracker_unchanged(
                            pre,
                            post,
                        ) && (exists|e: Error|
                            (e matches Error::ResourceNotRegistered { group, version, resource }
                                && group@ == spec_req_group(p) && version@ == p.version
                                && resource@ == p.resource) && resp.body@
                                == #[trigger] spec_status_json(e)),
                        Option::Some(kind) => {
                            let g = crate::tracker::GvkV {
                                group: spec_req_group(p),
                                version: p.version,
                                kind: kind,
                            };
                            let is_status = spec_is_status_path(path@);
                            let pt = spec_patch_type(
                                match content_type {
                                    Some(ct) => Some(ct@),
                                    None => None,
                                },
                            );
                            resp.code != 200 ==> post.store() == pre.store() && (exists|
                                e: Error,
                            |
                                resp.code as int == spec_code(e) && resp.body@
                                    == #[trigger] spec_status_json(e))
                        },
                    },
                },
            }
        }),
        ({
            let pre = old(client).trk();
            let post = final(client).trk();
            match spec_parse_path(path@) {
                Option::None => true,
                Option::Some(p) => match p.name {
                    Option::None => true,
                    Option::Some(name) => r matches Ok(resp) && match spec_req_kind(
                        p,
                        old(client).regs(),
                    ) {
                        Option::None => true,
                        Option::Some(kind) => {
                            let g = crate::tracker::GvkV {
                                group: spec_req_group(p),
                                version: p.version,
                                kind: kind,
                            };
                            let is_status = spec_is_status_path(path@);
                            let pt = spec_patch_type(
                                match content_type {
                                    Some(ct) => Some(ct@),
                                    None => None,
                                },
                            );
                            resp.code == 200 ==> spec_patch_commit(
                                pre,
                                post,
                                g,
                                old(client).regs(),
                                spec_req_ns(p),
                                name,
                                body@,
                                pt,
                                is_status,
                                resp.body@,
                                old(client).keeps_managed_fields(),
                            )
                        },
                    },
                },
            }
        }),
        ({
            let pre = old(client).trk();
            let post = final(client).trk();
            match spec_parse_path(path@) {
                Option::None => true,
                Option::Some(p) => match p.name {
                    Option::None => true,
                    Option::Some(name) => r matches Ok(resp) && match spec_req_kind(
                        p,
                        old(client).regs(),
                    ) {
                        Option::None => true,
                        Option::Some(kind) => {
                            let g = crate::tracker::GvkV {
                                group: spec_req_group(p),
                                version: p.version,
                                kind: kind,
                            };
                            let is_status = spec_is_status_path(path@);
                            let pt = spec_patch_type(
                                match content_type {
                                    Some(ct) => Some(ct@),
                                    None => None,
                                },
                            );
                            (spec_patch_owed(
                                pre,
                                g,
                                old(client).regs(),
                                spec_req_ns(p),
                                name,
                                body@,
                                pt,
                                is_status,
                            ) && spec_patch_validation_passes(
                                *old(client),
                                g,
                                spec_req_ns(p),
                                name,
                                body@,
                                pt,
                                is_status,
                            )) ==> resp.code == 200
                        },
                    },
                },
            }
        }),
{
    let parsed = match parse_path(path) {
        Some(p) => p,
        None => {
            return Err("Invalid path".to_owned());
        },
    };
    let name = match &parsed.name {
        None => {
            return Err("Name required for PATCH".to_owned());
        },
        Some(n) => n.clone(),
    };
    let namespace = req_ns(&parsed);
    let kind = match resource_to_kind(client, &parsed) {
        Ok(k) => k,
        Err(e) => {
            return Ok(error_to_response(&e));
        },
    };
    let group = req_group(&parsed);
    let gvk = GVK::new(group.as_str(), parsed.version.as_str(), kind.as_str());
    let patch_type = determine_patch_type(content_type);
    let is_status = is_status_path(path);
    proof {
        let p = spec_parse_path(path@)->0;
        assert(gvk@ == (crate::tracker::GvkV {
            group: spec_req_group(p),
            version: p.version,
            kind: spec_req_kind(p, old(client).regs())->0,
        }));
        assert(namespace@ == spec_req_ns(p));
        assert(name@ == p.name->0);
    }
    match patch_type {
        PatchType::JsonPatch => {
            let gvr = match crate::discovery::Discovery::gvk_to_gvr_with_registry(
                &gvk,
                client.registry(),
            ) {
                Some(g) => g,
                None => {
                    let e = Error::ResourceNotRegistered {
                        group,
                        version: parsed.version.clone(),
                        resource: parsed.resource.clone(),
                    };
                    return Ok(error_to_response(&e));
                },
            };
            match client.validate_verb(&gvk, "patch") {
                Ok(_) => {},
                Err(e) => {
                    return Ok(error_to_response(&e));
                },
            }
            let existing = match client.tracker().get(&gvr, namespace.as_str(), name.as_str()) {
                Ok(ex) => ex,
                Err(e) => {
                    return Ok(error_to_response(&e));
                },
            };
            let patched = match crate::jsonpatch::apply_json_patch(existing.duplicate(), body) {
                Ok(p) => p,
                Err(e) => {
                    return Ok(error_to_response(&e));
                },
            };
            match crate::immutable::validate_immutable_fields(&gvk, &existing, &patched) {
                Ok(_) => {},
                Err(e) => {
                    return Ok(error_to_response(&e));
                },
            }
            let ghost patched0 = patched@;
            match client.tracker_mut().update(
                &gvr,
                &gvk,
                patched,
                namespace.as_str(),
                is_status,
            ) {
                Ok(updated) => {
                    let ghost updated0 = updated@;
                    let handed = if client.returns_managed_fields() {
                        updated
                    } else {
                        crate::client::strip_managed(updated)
                    };
                    let resp = success_response(200, handed);
                    proof {
                        let pre = old(client).trk();
                        let post = client.trk();
                        let gate = crate::tracker::spec_update_gate(
                            pre,
                            gvr@,
                            patched0,
                            namespace@,
                            spec_is_status_path(path@),
                        );
                        if gate is Storing {
                            assert(crate::tracker::spec_update_ok(
                                pre,
                                post,
                                gvr@,
                                gvk@,
                                patched0,
                                namespace@,
                                spec_is_status_path(path@),
                                updated0,
                            ));
                        } else {
                            assert(gate is Deleting);
                            assert(crate::tracker::spec_update_deleted(
                                pre,
                                post,
                                gvr@,
                                patched0,
                                namespace@,
                                updated0,
                            ));
                        }
                    }
                    Ok(resp)
                },
                Err(e) => {
                    let resp = error_to_response(&e);
                    proof {
                        assert(client.trk().store() == old(client).trk().store());
                        assert(resp.body@ == spec_status_json(e));
                    }
                    Ok(resp)
                },
            }
        },
        _ => {
            if is_status {
                let gvr = match crate::discovery::Discovery::gvk_to_gvr_with_registry(
                    &gvk,
                    client.registry(),
                ) {
                    Some(g) => g,
                    None => {
                        let e = Error::ResourceNotRegistered {
                            group,
                            version: parsed.version.clone(),
                            resource: parsed.resource.clone(),
                        };
                        return Ok(error_to_response(&e));
                    },
                };
                match client.validate_verb(&gvk, "patch") {
                    Ok(_) => {},
                    Err(e) => {
                        return Ok(error_to_response(&e));
                    },
                }
                let existing = match client.tracker().get(
                    &gvr,
                    namespace.as_str(),
                    name.as_str(),
                ) {
                    Ok(ex) => ex,
                    Err(e) => {
                        return Ok(error_to_response(&e));
                    },
                };
                let patched = crate::patch::merge(existing.duplicate(), body);
                match crate::immutable::validate_immutable_fields(&gvk, &existing, &patched) {
                    Ok(_) => {},
                    Err(e) => {
                        return Ok(error_to_response(&e));
                    },
                }
                let ghost patched0 = patched@;
                match client.tracker_mut().update(
                    &gvr,
                    &gvk,
                    patched,
                    namespace.as_str(),
                    true,
                ) {
                    Ok(updated) => {
                        let ghost updated0 = updated@;
                        let handed = if client.returns_managed_fields() {
                            updated
                        } else {
                            crate::client::strip_managed(updated)
                        };
                        let resp = success_response(200, handed);
                        proof {
                            let pre = old(client).trk();
                            let post = client.trk();
                            let gate = crate::tracker::spec_update_gate(
                                pre,
                                gvr@,
                                patched0,
                                namespace@,
                                true,
                            );
                            if gate is Storing {
                                assert(crate::tracker::spec_update_ok(
                                    pre,
                                    post,
                                    gvr@,
                                    gvk@,
                                    patched0,
                                    namespace@,
                                    true,
                                    updated0,
                                ));
                            } else {
                                assert(gate is Deleting);
                                assert(crate::tracker::spec_update_deleted(
                                    pre,
                                    post,
                                    gvr@,
                                    patched0,
                                    namespace@,
                                    updated0,
                                ));
                            }
                        }
                        Ok(resp)
                    },
                    Err(e) => {
                        let resp = error_to_response(&e);
                        proof {
                            assert(client.trk().store() == old(client).trk().store());
                            assert(resp.body@ == spec_status_json(e));
                        }
                        Ok(resp)
                    },
                }
            } else {
                match client.patch(&gvk, namespace.as_str(), name.as_str(), body) {
                    Ok(updated) => {
                        let resp = success_response(200, updated);
                        proof {
                            let p = spec_parse_path(path@)->0;
                            let pre = old(client).trk();
                            let post = client.trk();
                            match crate::client::spec_resolve_gvr(gvk@, old(client).regs()) {
                                Option::Some(gvr) => {
                                    match spec_find(pre.store(), gvr, namespace@, name@) {
                                        Option::Some(ex) => {
                                            let pdoc = crate::patch::spec_merge(ex.data, body@);
                                            let gate = crate::tracker::spec_update_gate(
                                                pre,
                                                gvr,
                                                pdoc,
                                                namespace@,
                                                false,
                                            );
                                            assert(gate is Storing || gate is Deleting);
                                        },
                                        Option::None => {
                                            assert(false);
                                        },
                                    }
                                },
                                Option::None => {
                                    assert(false);
                                },
                            }
                        }
                        Ok(resp)
                    },
                    Err(e) => {
                        let resp = error_to_response(&e);
                        proof {
                            let pre = old(client).trk();
                            let post = client.trk();
                            assert(post.store() == pre.store());
                            assert(resp.body@ == spec_status_json(e));
                        }
                        Ok(resp)
                    },
                }
            }
        },
    }
}

/// What removing a listed collection does: each document's name, in list
/// order, is deleted from the store when it is still there; the result is
/// the store that remains and how many removals succeeded.
pub open spec fn spec_delete_fold(
    st: Seq<crate::tracker::StoredV>,
    gvr: crate::tracker::GvrV,
    ns: Seq<char>,
    docs: Seq<JsonV>,
) -> (Seq<crate::tracker::StoredV>, int)
    decreases docs.len(),
{
    if docs.len() == 0 {
        (st, 0int)
    } else {
        let step = match crate::client::spec_client_name(docs[0]) {
            Option::Some(nm) => {
                let i = crate::tracker::find_idx(st, gvr, ns, nm);
                if i == -1 {
                    (st, 0int)
                } else {
                    (st.subrange(0, i) + st.subrange(i + 1, st.len() as int), 1int)
                }
            },
            Option::None => (st, 0int),
        };
        let rest = spec_delete_fold(step.0, gvr, ns, docs.drop_first());
        (rest.0, step.1 + rest.1)
    }
}


/// Serve a delete: a named object is removed and handed back; without a
/// name, the selected collection is removed and a summary comes back.
#[verifier::loop_isolation(false)]
#[verifier::rlimit(60)]
#[verifier::spinoff_prover]
pub fn handle_delete(client: &mut FakeClient, path: &str, query: Option<&str>) -> (r: Result<
    ApiResponse,
    String,
>)
    ensures
        old(client).trk().wf() ==> final(client).trk().wf(),
        final(client).regs() == old(client).regs(),
        spec_parse_path(path@) is None <==> r is Err,
        ({
            match spec_parse_path(path@) {
                Option::None => true,
                Option::Some(p) => match (spec_req_kind(p, old(client).regs()), p.name) {
                    (Option::Some(kind), Option::Some(name)) => {
                        let g = crate::tracker::GvkV {
                            group: spec_req_group(p),
                            version: p.version,
                            kind: kind,
                        };
                        match crate::client::spec_resolve_gvr(g, old(client).regs()) {
                            Option::Some(gvr) => if crate::client::spec_verb_allowed(
                                g,
                                old(client).regs(),
                                "delete"@,
                            ) {
                                match crate::tracker::spec_find(
                                    old(client).trk().store(),
                                    gvr,
                                    spec_req_ns(p),
                                    name,
                                ) {
                                    Option::Some(e) => r matches Ok(resp) && resp.code == 200
                                        && resp.body@ == e.data && final(client).trk().store()
                                        == old(client).trk().store().subrange(
                                        0,
                                        crate::tracker::find_idx(
                                            old(client).trk().store(),
                                            gvr,
                                            spec_req_ns(p),
                                            name,
                                        ),
                                    ) + old(client).trk().store().subrange(
                                        crate::tracker::find_idx(
                                            old(client).trk().store(),
                                            gvr,
                                            spec_req_ns(p),
                                            name,
                                        ) + 1,
                                        old(client).trk().store().len() as int,
                                    ),
                                    Option::None => r matches Ok(resp) && resp.code == 404
                                        && final(client).trk().store()
                                            == old(client).trk().store(),
                                }
                            } else {
                                r matches Ok(resp) && resp.code == 405
                                    && final(client).trk().store()
                                    == old(client).trk().store()
                            },
                            Option::None => r matches Ok(resp) && resp.code == 404
                                && final(client).trk().store() == old(client).trk().store(),
                        }
                    },
                    (Option::Some(kind), Option::None) => {
                        let g = crate::tracker::GvkV {
                            group: spec_req_group(p),
                            version: p.version,
                            kind: kind,
                        };
                        &&& (!crate::client::spec_verb_allowed(g, old(client).regs(), "delete"@)
                            ==> (r matches Ok(resp) && resp.code == 405
                            && final(client).trk().store() == old(client).trk().store() && (
                        exists|e: Error|
                            (e is VerbNotSupported) && resp.body@
                                == #[trigger] spec_status_json(e))))
                        &&& (r matches Ok(resp) && (resp.code != 200
                            ==> final(client).trk().store() == old(client).trk().store() && (
                        exists|e: Error|
                            resp.code as int == spec_code(e) && resp.body@
                                == #[trigger] spec_status_json(e))))
                        &&& (r matches Ok(resp) && (resp.code == 200 ==> spec_get(
                            resp.body@,
                            "status"@,
                        ) == Some(JsonV::Str("Success"@))))
                        &&& (r matches Ok(resp) && (resp.code == 200
                            ==> match crate::client::spec_resolve_gvr(g, old(client).regs()) {
                            Option::Some(gvr) => match spec_list_items(
                                old(client).trk(),
                                old(client).regs(),
                                old(client).keeps_managed_fields(),
                                g,
                                gvr,
                                p.namespace,
                                spec_query_of(
                                    match query {
                                        Some(qs) => Some(qs@),
                                        None => None,
                                    },
                                ).label_selector,
                                spec_query_of(
                                    match query {
                                        Some(qs) => Some(qs@),
                                        None => None,
                                    },
                                ).field_selector,
                            ) {
                                Ok(docs) => {
                                    let folded = spec_delete_fold(
                                        old(client).trk().store(),
                                        gvr,
                                        spec_req_ns(p),
                                        docs,
                                    );
                                    &&& final(client).trk().store() == folded.0
                                    &&& (folded.1 <= i64::MAX ==> match spec_get(
                                        resp.body@,
                                        "details"@,
                                    ) {
                                        Option::Some(det) => spec_get(det, "deleted"@) == Some(
                                            JsonV::Int(folded.1),
                                        ),
                                        Option::None => false,
                                    })
                                },
                                Err(_) => false,
                            },
                            Option::None => false,
                        }))
                        &&& (r matches Ok(resp) && ((crate::client::spec_verb_allowed(
                            g,
                            old(client).regs(),
                            "delete"@,
                        ) && crate::client::spec_verb_allowed(g, old(client).regs(), "list"@)
                            && (match crate::client::spec_resolve_gvr(g, old(client).regs()) {
                            Option::Some(gvr) => spec_list_items(
                                old(client).trk(),
                                old(client).regs(),
                                old(client).keeps_managed_fields(),
                                g,
                                gvr,
                                p.namespace,
                                spec_query_of(
                                    match query {
                                        Some(qs) => Some(qs@),
                                        None => None,
                                    },
                                ).label_selector,
                                spec_query_of(
                                    match query {
                                        Some(qs) => Some(qs@),
                                        None => None,
                                    },
                                ).field_selector,
                            ) is Ok,
                            Option::None => false,
                        })) ==> resp.code == 200))
                    },
                    (Option::None, _) => r matches Ok(resp) && resp.code == 404
                        && final(client).trk().store() == old(client).trk().store(),
                },
            }
        }),
{
    let parsed = match parse_path(path) {
        Some(p) => p,
        None => {
            return Err("Invalid path".to_owned());
        },
    };
    let namespace = req_ns(&parsed);
    let kind = match resource_to_kind(client, &parsed) {
        Ok(k) => k,
        Err(e) => {
            return Ok(error_to_response(&e));
        },
    };
    let group = req_group(&parsed);
    let gvk = GVK::new(group.as_str(), parsed.version.as_str(), kind.as_str());
    match &parsed.name {
        Some(name) => {
            let name_own = name.clone();
            match client.delete(&gvk, namespace.as_str(), name_own.as_str()) {
                Ok(deleted) => Ok(success_response(200, deleted)),
                Err(e) => Ok(error_to_response(&e)),
            }
        },
        None => {
            match client.validate_verb(&gvk, "delete") {
                Ok(_) => {},
                Err(e) => {
                    return Ok(error_to_response(&e));
                },
            }
            let params = parse_list_params(query);
            let label_sel: Option<&str> = match &params.label_selector {
                Some(s) => Some(s.as_str()),
                None => None,
            };
            let field_sel: Option<&str> = match &params.field_selector {
                Some(s) => Some(s.as_str()),
                None => None,
            };
            let ns_opt: Option<&str> = match &parsed.namespace {
                Some(ns) => Some(ns.as_str()),
                None => None,
            };
            let objects = match client.list(&gvk, ns_opt, label_sel, field_sel) {
                Ok(os) => os,
                Err(e) => {
                    return Ok(error_to_response(&e));
                },
            };
            let gvr = match crate::discovery::Discovery::gvk_to_gvr_with_registry(
                &gvk,
                client.registry(),
            ) {
                Some(g) => g,
                None => {
                    let e = Error::ResourceNotRegistered {
                        group,
                        version: parsed.version.clone(),
                        resource: parsed.resource.clone(),
                    };
                    return Ok(error_to_response(&e));
                },
            };
            let ghost docsv = view_items(objects@);
            let ghost st0 = client.trk().store();
            let n = objects.len();
            proof {
                crate::json::lemma_view_items_len(objects@);
                assert(docsv.subrange(0, n as int) =~= docsv);
            }
            let mut deleted_count: u64 = 0;
            let mut i: usize = 0;
            while i < n
                invariant
                    0 <= i <= n,
                    n == objects@.len(),
                    docsv == view_items(objects@),
                    docsv.len() == n,
                    deleted_count <= i,
                    client.regs() == old(client).regs(),
                    old(client).trk().wf() ==> client.trk().wf(),
                    ({
                        let f = spec_delete_fold(st0, gvr@, namespace@, docsv);
                        let frem = spec_delete_fold(
                            client.trk().store(),
                            gvr@,
                            namespace@,
                            docsv.subrange(i as int, n as int),
                        );
                        f.0 == frem.0 && f.1 == deleted_count + frem.1
                    }),
                decreases n - i,
            {
                proof {
                    crate::json::lemma_view_items_index(objects@, i as int);
                    let pre = docsv.subrange(i as int, n as int);
                    assert(pre[0] == docsv[i as int]);
                    assert(pre.drop_first() =~= docsv.subrange(i as int + 1, n as int));
                }
                let obj_name = match objects[i].get("metadata") {
                    Some(m) => crate::tracker::str_opt(m, "name"),
                    None => None,
                };
                match obj_name {
                    Some(nm) => {
                        match client.tracker_mut().delete(&gvr, namespace.as_str(), nm.as_str()) {
                            Ok(_) => {
                                deleted_count = deleted_count + 1;
                            },
                            Err(_) => {},
                        }
                    },
                    None => {},
                }
                i = i + 1;
            }
            proof {
                assert(docsv.subrange(n as int, n as int) =~= Seq::<JsonV>::empty());
            }
            let mut details: Vec<(String, Json)> = Vec::new();
            details.push(("kind".to_owned(), Json::Str(kind)));
            details.push(("group".to_owned(), Json::Str(group)));
            details.push(("deleted".to_owned(), Json::Int(#[verifier::truncate] (deleted_count as i64))));
            let mut fields: Vec<(String, Json)> = Vec::new();
            fields.push(("kind".to_owned(), Json::string("Status")));
            fields.push(("apiVersion".to_owned(), Json::string("v1")));
            fields.push(("status".to_owned(), Json::string("Success")));
            fields.push(("details".to_owned(), Json::Obj(details)));
            let ghost dseq = details@;
            let ghost fseq = fields@;
            let summary = Json::Obj(fields);
            proof {
                reveal_strlit("kind");
                reveal_strlit("apiVersion");
                reveal_strlit("status");
                reveal_strlit("details");
                reveal_strlit("group");
                reveal_strlit("deleted");
                assert("kind"@.len() == 4);
                assert("apiVersion"@.len() == 10);
                assert("status"@.len() == 6);
                assert("details"@.len() == 7);
                assert("group"@.len() == 5);
                assert("deleted"@.len() == 7);
                let fv = crate::json::view_fields(fseq);
                crate::json::lemma_view_fields_len(fseq);
                crate::json::lemma_view_fields_index(fseq, 0);
                crate::json::lemma_view_fields_index(fseq, 1);
                crate::json::lemma_view_fields_index(fseq, 2);
                crate::json::lemma_view_fields_index(fseq, 3);
                crate::json::lemma_lookup_found(fv, "status"@, 2);
                crate::json::lemma_lookup_found(fv, "details"@, 3);
                let dv = crate::json::view_fields(dseq);
                crate::json::lemma_view_fields_len(dseq);
                crate::json::lemma_view_fields_index(dseq, 0);
                crate::json::lemma_view_fields_index(dseq, 1);
                crate::json::lemma_view_fields_index(dseq, 2);
                crate::json::lemma_lookup_found(dv, "deleted"@, 2);
            }
            Ok(success_response(200, summary))
        },
    }
}

/// Route one request by its method; an unsupported method answers with a
/// plain method-not-allowed body.
pub fn handle_request(
    client: &mut FakeClient,
    method: &str,
    path: &str,
    query: Option<&str>,
    content_type: Option<&str>,
    body: Option<&Json>,
) -> (r: Result<ApiResponse, String>)
    ensures
        old(client).trk().wf() ==> final(client).trk().wf(),
        final(client).regs() == old(client).regs(),
{
    proof {
        reveal_strlit("GET");
        reveal_strlit("POST");
        reveal_strlit("PUT");
        reveal_strlit("PATCH");
        reveal_strlit("DELETE");
    }
    if str_eq(method, "GET") {
        handle_get(client, path, query)
    } else if str_eq(method, "POST") {
        match body {
            Some(b) => handle_post(client, path, b),
            None => Err("Body required for POST".to_owned()),
        }
    } else if str_eq(method, "PUT") {
        match body {
            Some(b) => handle_put(client, path, b),
            None => Err("Body required for PUT".to_owned()),
        }
    } else if str_eq(method, "PATCH") {
        match body {
            Some(b) => handle_patch(client, path, b, content_type),
            None => Err("Body required for PATCH".to_owned()),
        }
    } else if str_eq(method, "DELETE") {
        handle_delete(client, path, query)
    } else {
        let mut fields: Vec<(String, Json)> = Vec::new();
        fields.push(("kind".to_owned(), Json::string("Status")));
        fields.push(("apiVersion".to_owned(), Json::string("v1")));
        fields.push(("status".to_owned(), Json::string("Failure")));
        fields.push(("message".to_owned(), Json::string("Method not allowed")));
        fields.push(("code".to_owned(), Json::Int(405)));
        Ok(ApiResponse { code: 405, body: Json::Obj(fields) })
    }
}

} // verus!
