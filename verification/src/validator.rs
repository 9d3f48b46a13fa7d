//! The optional OpenAPI validator: schemas come from an OpenAPI document,
//! validation is enabled per kind, and each validation compiles the
//! enabled kind's schema from the loaded definitions.

use crate::error::Error;
use crate::json::Json;
use crate::strutil::{spec_find_char, spec_split_char, str_eq, views_of_strings};
use vstd::prelude::*;
use vstd::string::*;

verus! {

/// What the definitions member of an OpenAPI document prints as, if the
/// document parses and has one; the result depends on the text alone.
pub uninterp spec fn spec_definitions_text(openapi: Seq<char>) -> Option<Seq<char>>;

/// Whether an object text carries a member of the given name; the result
/// depends on the two texts alone.
pub uninterp spec fn definitions_member(defs_text: Seq<char>, name: Seq<char>) -> bool;

/// Whether a schema text parses and compiles as a JSON schema; the
/// result depends on the text alone.
pub uninterp spec fn schema_compiles(schema_text: Seq<char>) -> bool;

/// Whether a text parses as JSON; the result depends on the text alone.
pub uninterp spec fn json_text_parses(text: Seq<char>) -> bool;

/// The validation errors of an instance text against a schema text, each
/// with its instance path; the result depends on the two texts alone.
pub uninterp spec fn schema_validation_errors(
    schema_text: Seq<char>,
    instance_text: Seq<char>,
) -> Seq<Seq<char>>;

/// Relies on serde_json's `from_str` and the `Display` of its values:
/// the printed `definitions` member of a parsed OpenAPI document.
#[verifier::external_body]
fn extract_definitions_text(openapi_text: &str) -> (r: Option<String>)
    ensures
        match r {
            Some(t) => spec_definitions_text(openapi_text@) == Some(t@),
            None => spec_definitions_text(openapi_text@) is None,
        },
{
    let doc: serde_json::Value = serde_json::from_str(openapi_text).ok()?;
    Some(doc.get("definitions")?.to_string())
}

/// Relies on serde_json's `Value::get`: whether the object text carries
/// the member.
#[verifier::external_body]
fn member_of_object_text(defs_text: &str, name: &str) -> (r: bool)
    ensures
        r == definitions_member(defs_text@, name@),
{
    match serde_json::from_str::<serde_json::Value>(defs_text) {
        Ok(v) => v.get(name).is_some(),
        Err(_) => false,
    }
}

/// Relies on jsonschema's `options().offline().build` and `iter_errors`
/// (with serde_json's `from_str` converting the two texts): the
/// validation errors of the instance against the schema. The validator
/// is built offline, so a reference the schema text does not carry is
/// refused rather than fetched, and the whole outcome is a function of
/// the two texts; its parts are named above because the intermediate
/// values are opaque types of the outside crates.
#[verifier::external_body]
fn validate_schema_text(schema_text: &str, instance_text: &str) -> (r: Result<Vec<String>, bool>)
    ensures
        r matches Ok(errs) ==> schema_compiles(schema_text@) && json_text_parses(instance_text@)
            && views_of_strings(errs@) == schema_validation_errors(
            schema_text@,
            instance_text@,
        ),
        r matches Err(schema_bad) ==> (schema_bad ==> !schema_compiles(schema_text@)) && (
        !schema_bad ==> !json_text_parses(instance_text@)),
{
    let schema: serde_json::Value = serde_json::from_str(schema_text).map_err(|_| true)?;
    let validator = jsonschema::options().offline().build(&schema).map_err(|_| true)?;
    let instance: serde_json::Value = serde_json::from_str(instance_text).map_err(|_| false)?;
    Ok(validator
        .iter_errors(&instance)
        .map(|e| format!("{}: {}", e.instance_path(), e))
        .collect())
}

/// A text without its leading occurrences of a character.
pub open spec fn spec_drop_leading(s: Seq<char>, c: char) -> Seq<char>
    decreases s.len(),
{
    if s.len() > 0 && s[0] == c {
        spec_drop_leading(s.drop_first(), c)
    } else {
        s
    }
}

/// The parts of a group name joined in reverse order with dots.
pub open spec fn spec_rev_join(parts: Seq<Seq<char>>) -> Seq<char>
    decreases parts.len(),
{
    if parts.len() == 0 {
        Seq::empty()
    } else if parts.len() == 1 {
        parts[0]
    } else {
        parts.last() + seq!['.'] + spec_rev_join(parts.drop_last())
    }
}

/// The OpenAPI definition name of a kind key `group/version/Kind` (or
/// `/version/Kind` for the core group): the core group lives under
/// `io.k8s.api.core`, a dotted group is reversed like a package name, and
/// a plain group lives under `io.k8s.api`.
pub open spec fn spec_definition_name(gvk: Seq<char>) -> Option<Seq<char>> {
    let parts = spec_split_char(spec_drop_leading(gvk, '/'), '/');
    if parts.len() < 2 {
        Option::None
    } else {
        let (group, version, kind) = if parts.len() == 2 {
            (Seq::<char>::empty(), parts[0], parts[1])
        } else {
            (parts[0], parts[1], parts[2])
        };
        if group.len() == 0 {
            Option::Some("io.k8s.api.core."@ + version + seq!['.'] + kind)
        } else if spec_find_char(group, '.', 0) >= 0 {
            Option::Some(spec_rev_join(spec_split_char(group, '.')) + seq!['.'] + version + seq!['.'] + kind)
        } else {
            Option::Some("io.k8s.api."@ + group + seq!['.'] + version + seq!['.'] + kind)
        }
    }
}

/// Drop the leading occurrences of a character.
fn drop_leading<'a>(s: &'a str, c: char) -> (r: &'a str)
    ensures
        r@ == spec_drop_leading(s@, c),
{
    let n = s.unicode_len();
    proof {
        assert(s@.subrange(0, n as int) =~= s@);
    }
    let mut i: usize = 0;
    while i < n
        invariant
            0 <= i <= n,
            n == s@.len(),
            spec_drop_leading(s@, c) == spec_drop_leading(s@.subrange(i as int, n as int), c),
            forall|j: int| 0 <= j < i ==> s@[j] == c,
        ensures
            0 <= i <= n,
            n == s@.len(),
            spec_drop_leading(s@, c) == spec_drop_leading(s@.subrange(i as int, n as int), c),
            i < n ==> s@[i as int] != c,
        decreases n - i,
    {
        let ghost pre = s@.subrange(i as int, n as int);
        proof {
            assert(pre.len() > 0 && pre[0] == s@[i as int]);
            assert(pre.drop_first() =~= s@.subrange(i as int + 1, n as int));
        }
        if s.get_char(i) != c {
            break;
        }
        i = i + 1;
    }
    let r = s.substring_char(i, n);
    proof {
        let tail = s@.subrange(i as int, n as int);
        if i < n {
            assert(spec_drop_leading(tail, c) == tail);
        } else {
            assert(tail =~= Seq::<char>::empty());
        }
    }
    r
}

/// The OpenAPI definition name of a kind key; a key without at least a
/// version and kind is an error.
#[verifier::loop_isolation(false)]
#[verifier::rlimit(100)]
#[verifier::spinoff_prover]
pub fn gvk_to_definition_name(gvk: &str) -> (r: Result<String, Error>)
    ensures
        match r {
            Ok(name) => spec_definition_name(gvk@) == Some(name@),
            Err(e) => spec_definition_name(gvk@) is None && e is Internal,
        },
{
    proof {
        reveal_strlit("io.k8s.api.core.");
        reveal_strlit("io.k8s.api.");
        reveal_strlit(".");
        assert("."@ =~= seq!['.']);
    }
    let trimmed = drop_leading(gvk, '/');
    let parts = crate::strutil::split_char(trimmed, '/');
    let ghost pv = views_of_strings(parts@);
    if parts.len() < 2 {
        return Err(Error::Internal("a kind key names a version and kind".to_owned()));
    }
    let (group, version, kind): (String, &String, &String) = if parts.len() == 2 {
        proof {
            reveal_strlit("");
            assert(""@ =~= Seq::<char>::empty());
        }
        ("".to_owned(), &parts[0], &parts[1])
    } else {
        (parts[0].clone(), &parts[1], &parts[2])
    };
    if group.as_str().unicode_len() == 0 {
        let mut name: String = "io.k8s.api.core.".to_owned();
        name.append(version.as_str());
        name.append(".");
        name.append(kind.as_str());
        proof {
            assert(name@ =~= "io.k8s.api.core."@ + version@ + seq!['.'] + kind@);
        }
        Ok(name)
    } else if crate::strutil::find_char(group.as_str(), '.').is_some() {
        let segs = crate::strutil::split_char(group.as_str(), '.');
        let ghost sv = views_of_strings(segs@);
        let m = segs.len();
        let mut name = String::new();
        let mut k: usize = 0;
        proof {
            assert(sv.len() >= 1);
        }
        while k < m
            invariant
                0 <= k <= m,
                m == segs@.len(),
                sv == views_of_strings(segs@),
                sv.len() == m,
                m >= 1,
                k == 0 ==> name@ == Seq::<char>::empty(),
                k >= 1 ==> spec_rev_join(sv) == name@ + (if k < m {
                    seq!['.'] + spec_rev_join(sv.subrange(0, (m - k) as int))
                } else {
                    Seq::<char>::empty()
                }),
            decreases m - k,
        {
            let ghost name0 = name@;
            if k > 0 {
                name.append(".");
            }
            name.append(segs[m - 1 - k].as_str());
            proof {
                if k == 0 {
                    assert(sv.drop_last() =~= sv.subrange(0, (m - 1) as int));
                    assert(name@ =~= sv[(m - 1) as int]);
                    if m == 1 {
                        assert(spec_rev_join(sv) == sv[0]);
                        assert(spec_rev_join(sv) =~= name@ + Seq::<char>::empty());
                    } else {
                        assert(spec_rev_join(sv) == sv.last() + seq!['.'] + spec_rev_join(
                            sv.subrange(0, (m - 1) as int),
                        ));
                        assert(spec_rev_join(sv) =~= name@ + (seq!['.'] + spec_rev_join(
                            sv.subrange(0, (m - 1) as int),
                        )));
                    }
                } else {
                    let rest = sv.subrange(0, (m - k) as int);
                    assert(rest.last() == sv[(m - k - 1) as int]);
                    assert(rest.drop_last() =~= sv.subrange(0, (m - k - 1) as int));
                    assert(name@ =~= name0 + seq!['.'] + sv[(m - 1 - k) as int]);
                    if m - k == 1 {
                        assert(spec_rev_join(rest) == rest[0]);
                        assert(spec_rev_join(sv) =~= name@ + Seq::<char>::empty());
                    } else {
                        assert(spec_rev_join(rest) == rest.last() + seq!['.'] + spec_rev_join(
                            rest.drop_last(),
                        ));
                        assert(spec_rev_join(sv) =~= name@ + (seq!['.'] + spec_rev_join(
                            sv.subrange(0, (m - k - 1) as int),
                        )));
                    }
                }
            }
            k = k + 1;
        }
        name.append(".");
        name.append(version.as_str());
        name.append(".");
        name.append(kind.as_str());
        proof {
            assert(name@ =~= spec_rev_join(sv) + seq!['.'] + version@ + seq!['.'] + kind@);
        }
        Ok(name)
    } else {
        let mut name: String = "io.k8s.api.".to_owned();
        name.append(group.as_str());
        name.append(".");
        name.append(version.as_str());
        name.append(".");
        name.append(kind.as_str());
        proof {
            assert(name@ =~= "io.k8s.api."@ + group@ + seq!['.'] + version@ + seq!['.'] + kind@);
        }
        Ok(name)
    }
}

} // verus!

verus! {

/// The runtime OpenAPI validator: the definitions text of an OpenAPI
/// document and the kind keys enabled for validation.
pub struct RuntimeOpenAPIValidator {
    definitions_text: String,
    enabled_gvks: Vec<String>,
}

/// The kind key of a group, version and kind: `/{v}/{K}` for the core
/// group, `{g}/{v}/{K}` for the rest.
pub open spec fn spec_gvk_key(group: Seq<char>, version: Seq<char>, kind: Seq<char>) -> Seq<char> {
    if group.len() == 0 {
        seq!['/'] + version + seq!['/'] + kind
    } else {
        group + seq!['/'] + version + seq!['/'] + kind
    }
}

/// Build the kind key of a group, version and kind.
fn gvk_key(group: &str, version: &str, kind: &str) -> (r: String)
    ensures
        r@ == spec_gvk_key(group@, version@, kind@),
{
    proof {
        reveal_strlit("/");
        assert("/"@ =~= seq!['/']);
    }
    let mut key = String::new();
    if group.unicode_len() > 0 {
        key.append(group);
    }
    key.append("/");
    key.append(version);
    key.append("/");
    key.append(kind);
    proof {
        assert(key@ =~= spec_gvk_key(group@, version@, kind@));
    }
    key
}

/// The schema document a definition is validated against: the whole
/// definitions table with a reference to the one definition.
pub open spec fn spec_schema_text(defs_text: Seq<char>, def_name: Seq<char>) -> Seq<char> {
    "{\"$schema\":\"http://json-schema.org/draft-04/schema#\",\"definitions\":"@ + defs_text
        + ",\"$ref\":\"#/definitions/"@ + def_name + "\"}"@
}

/// Whether a document of a kind is turned away by validation: the kind
/// key is enabled and its definition name fails to resolve, the schema
/// does not compile, the document's text does not read back, or the
/// schema reports errors.
pub open spec fn spec_validation_rejects(
    enabled: Seq<Seq<char>>,
    defs_text: Seq<char>,
    key: Seq<char>,
    instance_text: Seq<char>,
) -> bool {
    enabled.contains(key) && match spec_definition_name(key) {
        Option::None => true,
        Option::Some(dn) => {
            let st = spec_schema_text(defs_text, dn);
            !schema_compiles(st) || !json_text_parses(instance_text) || schema_validation_errors(
                st,
                instance_text,
            ).len() > 0
        },
    }
}

impl RuntimeOpenAPIValidator {
    /// The kind keys enabled for validation.
    pub closed spec fn enabled(&self) -> Seq<Seq<char>> {
        views_of_strings(self.enabled_gvks@)
    }

    /// The printed definitions table of the loaded document.
    pub closed spec fn defs(&self) -> Seq<char> {
        self.definitions_text@
    }

    /// Build a validator from the text of an OpenAPI document; a document
    /// that does not parse or has no definitions is refused.
    pub fn from_json_text(openapi_text: &str) -> (r: Result<RuntimeOpenAPIValidator, Error>)
        ensures
            match spec_definitions_text(openapi_text@) {
                Option::Some(t) => r matches Ok(v) && v.defs() == t && v.enabled() == Seq::<
                    Seq<char>,
                >::empty(),
                Option::None => r matches Err(e) && e is Internal,
            },
    {
        let definitions_text = match extract_definitions_text(openapi_text) {
            Some(t) => t,
            None => {
                return Err(
                    Error::Internal(
                        "the OpenAPI document does not parse or has no definitions".to_owned(),
                    ),
                );
            },
        };
        let r = RuntimeOpenAPIValidator { definitions_text, enabled_gvks: Vec::new() };
        proof {
            assert(r.enabled() =~= Seq::<Seq<char>>::empty());
        }
        Ok(r)
    }

    /// Enable validation for a kind key; the document must hold a
    /// definition for it.
    pub fn enable_validation_for(&mut self, gvk: &str) -> (r: Result<(), Error>)
        ensures
            final(self).defs() == old(self).defs(),
            match spec_definition_name(gvk@) {
                Option::None => r matches Err(e) && e is Internal && final(self).enabled() == old(
                    self,
                ).enabled(),
                Option::Some(dn) => if definitions_member(old(self).defs(), dn) {
                    r is Ok && final(self).enabled() == old(self).enabled().push(gvk@)
                } else {
                    (r matches Err(e) && e is Internal) && final(self).enabled() == old(
                        self,
                    ).enabled()
                },
            },
    {
        let definition_name = match gvk_to_definition_name(gvk) {
            Ok(n) => n,
            Err(e) => {
                return Err(e);
            },
        };
        if !member_of_object_text(self.definitions_text.as_str(), definition_name.as_str()) {
            let mut msg: String = "No OpenAPI definition found for '".to_owned();
            msg.append(gvk);
            msg.append("'");
            return Err(Error::Internal(msg));
        }
        let ghost prev = self.enabled();
        self.enabled_gvks.push(gvk.to_owned());
        proof {
            assert(self.enabled() =~= prev.push(gvk@));
        }
        Ok(())
    }

    /// Whether a kind key is enabled for validation.
    #[verifier::loop_isolation(false)]
    fn is_enabled(&self, key: &str) -> (r: bool)
        ensures
            r == self.enabled().contains(key@),
    {
        let n = self.enabled_gvks.len();
        let mut i: usize = 0;
        while i < n
            invariant
                0 <= i <= n,
                n == self.enabled_gvks@.len(),
                forall|j: int| 0 <= j < i ==> #[trigger] self.enabled()[j] != key@,
            decreases n - i,
        {
            if str_eq(self.enabled_gvks[i].as_str(), key) {
                assert(self.enabled()[i as int] == key@);
                return true;
            }
            i = i + 1;
        }
        proof {
            if self.enabled().contains(key@) {
                let j = choose|j: int|
                    0 <= j < self.enabled().len() && self.enabled()[j] == key@;
                assert(self.enabled()[j] != key@);
            }
        }
        false
    }

    /// Validate a document against the schema of its kind: nothing is
    /// checked for kinds that are not enabled; an enabled kind passes
    /// exactly when its schema compiles, the document reads back and the
    /// schema reports no errors, and a failing document carries the
    /// schema's messages.
    pub fn validate(&mut self, group: &str, version: &str, kind: &str, value: &Json) -> (r: Result<
        (),
        Error,
    >)
        ensures
            final(self).defs() == old(self).defs(),
            final(self).enabled() == old(self).enabled(),
            ({
                let key = spec_gvk_key(group@, version@, kind@);
                let it = crate::serialize::json_text(value@);
                &&& (!old(self).enabled().contains(key) ==> r is Ok)
                &&& (old(self).enabled().contains(key) ==> match spec_definition_name(key) {
                    Option::None => r matches Err(e) && e is Internal,
                    Option::Some(dn) => {
                        let st = spec_schema_text(old(self).defs(), dn);
                        &&& (!schema_compiles(st) ==> (r matches Err(e) && e is Internal))
                        &&& (schema_compiles(st) && !json_text_parses(it) ==> (r matches Err(e)
                            && e is Internal))
                        &&& (schema_compiles(st) && json_text_parses(it) ==> {
                            let errs = schema_validation_errors(st, it);
                            &&& (errs.len() == 0 <==> r is Ok)
                            &&& (r matches Err(e) ==> e matches Error::ValidationFailed {
                                kind: k2,
                                errors,
                            } && k2@ == kind@ && views_of_strings(errors@) == errs)
                        })
                    },
                })
                &&& (r matches Err(e) ==> spec_validation_rejects(
                    old(self).enabled(),
                    old(self).defs(),
                    key,
                    it,
                ))
            }),
    {
        let key = gvk_key(group, version, kind);
        if !self.is_enabled(key.as_str()) {
            return Ok(());
        }
        let definition_name = match gvk_to_definition_name(key.as_str()) {
            Ok(n) => n,
            Err(e) => {
                return Err(e);
            },
        };
        let mut schema_text: String =
            "{\"$schema\":\"http://json-schema.org/draft-04/schema#\",\"definitions\":".to_owned();
        schema_text.append(self.definitions_text.as_str());
        schema_text.append(",\"$ref\":\"#/definitions/");
        schema_text.append(definition_name.as_str());
        schema_text.append("\"}");
        proof {
            assert(schema_text@ =~= spec_schema_text(
                self.definitions_text@,
                definition_name@,
            ));
        }
        let instance_text = crate::serialize::json_to_string(value);
        match validate_schema_text(schema_text.as_str(), instance_text.as_str()) {
            Ok(errors) => {
                if errors.len() == 0 {
                    Ok(())
                } else {
                    Err(Error::ValidationFailed { kind: kind.to_owned(), errors })
                }
            },
            Err(schema_bad) => {
                if schema_bad {
                    let mut msg: String = "Failed to compile the schema for '".to_owned();
                    msg.append(key.as_str());
                    msg.append("'");
                    Err(Error::Internal(msg))
                } else {
                    Err(Error::Internal("the document did not read back as JSON".to_owned()))
                }
            },
        }
    }
}

} // verus!
