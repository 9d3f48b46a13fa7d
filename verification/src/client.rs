//! The fake client: typed operations over the tracker, honoring verb
//! support, immutability, selectors and patch semantics, with the same
//! errors a real API server would give.

use crate::discovery::{spec_lookup_kind, spec_standard_verbs, Discovery};
use crate::error::Error;
use crate::immutable::spec_validate_immutable;
use crate::json::{Json, JsonV, spec_get, spec_remove, spec_set, view_items};
use crate::registry::{spec_reg_lookup_by_kind, ResourceRegistry};
use crate::selector::{labels_view, spec_parse_selector, spec_selector_matches, ExprV};
use crate::strutil::{spec_find_sub, spec_trim, str_eq};
use crate::tracker::{
    spec_find, spec_str_opt, spec_update_gate, spec_update_ok, spec_update_deleted, tracker_unchanged,
    GvkV, GvrV, ObjectTracker, StoredV, UpdateGate, GVK, GVR,
};
use vstd::prelude::*;
use vstd::string::*;

verus! {

/// The fake client: a store, a registry of custom resources, and the
/// read-time managed-fields rule.
pub struct FakeClient {
    pub(crate) tracker: ObjectTracker,
    pub(crate) registry: ResourceRegistry,
    pub(crate) return_managed_fields: bool,
    pub(crate) validator: Option<crate::validator::RuntimeOpenAPIValidator>,
}

/// The resource triple a kind resolves to: the built-in table first, then
/// the registry.
pub open spec fn spec_resolve_gvr(gvk: GvkV, regs: Seq<crate::registry::ResourceMetadataV>) -> Option<
    GvrV,
> {
    match spec_lookup_kind(gvk) {
        Option::Some(b) => Option::Some(
            GvrV { group: gvk.group, version: gvk.version, resource: b.plural },
        ),
        Option::None => match spec_reg_lookup_by_kind(regs, gvk.group, gvk.version, gvk.kind) {
            Option::Some(m) => Option::Some(
                GvrV { group: gvk.group, version: gvk.version, resource: m.plural },
            ),
            Option::None => Option::None,
        },
    }
}

/// Whether a verb is allowed for a kind: built-in kinds go by the
/// discovery table, registered custom resources support the standard verb
/// set, and an unknown kind is not gated here (it fails later).
pub open spec fn spec_verb_allowed(
    gvk: GvkV,
    regs: Seq<crate::registry::ResourceMetadataV>,
    verb: Seq<char>,
) -> bool {
    match spec_lookup_kind(gvk) {
        Option::Some(b) => b.verbs.contains(verb),
        Option::None => match spec_reg_lookup_by_kind(regs, gvk.group, gvk.version, gvk.kind) {
            Option::Some(_) => spec_standard_verbs().contains(verb),
            Option::None => true,
        },
    }
}

/// A document with the read-time managed-fields rule applied: the
/// `managedFields` entry of the metadata is dropped.
pub open spec fn spec_strip_managed(doc: JsonV) -> JsonV {
    match spec_get(doc, "metadata"@) {
        Option::Some(m) => spec_set(doc, "metadata"@, spec_remove(m, "managedFields"@)),
        Option::None => doc,
    }
}

/// Drop the managed-fields entry of a document's metadata.
pub fn strip_managed(doc: Json) -> (r: Json)
    ensures
        r@ == spec_strip_managed(doc@),
{
    let m = match doc.get("metadata") {
        Some(m) => m.duplicate(),
        None => {
            return doc;
        },
    };
    let m2 = m.remove("managedFields");
    doc.set("metadata", m2)
}

/// The labels of a document: the string-valued fields of
/// `metadata.labels`, in order.
pub open spec fn spec_label_pairs(fs: Seq<(Seq<char>, JsonV)>) -> Seq<(Seq<char>, Seq<char>)>
    decreases fs.len(),
{
    if fs.len() == 0 {
        Seq::empty()
    } else {
        let rest = spec_label_pairs(fs.drop_first());
        match fs[0].1 {
            JsonV::Str(v) => seq![(fs[0].0, v)] + rest,
            _ => rest,
        }
    }
}

/// The labels of a document.
pub open spec fn spec_labels_of(doc: JsonV) -> Seq<(Seq<char>, Seq<char>)> {
    match spec_get(doc, "metadata"@) {
        Option::Some(m) => match spec_get(m, "labels"@) {
            Option::Some(JsonV::Obj(fs)) => spec_label_pairs(fs),
            _ => Seq::empty(),
        },
        Option::None => Seq::empty(),
    }
}

/// Read the labels of a document.
#[verifier::loop_isolation(false)]
pub fn labels_of(doc: &Json) -> (r: Vec<(String, String)>)
    ensures
        labels_view(r@) == spec_labels_of(doc@),
{
    broadcast use crate::json::group_json_view_axioms;

    let m = match doc.get("metadata") {
        Some(m) => m,
        None => {
            let r: Vec<(String, String)> = Vec::new();
            proof {
                assert(labels_view(r@) =~= spec_labels_of(doc@));
            }
            return r;
        },
    };
    let lv = match m.get("labels") {
        Some(l) => l,
        None => {
            let r: Vec<(String, String)> = Vec::new();
            proof {
                assert(labels_view(r@) =~= spec_labels_of(doc@));
            }
            return r;
        },
    };
    match lv {
        Json::Obj(fs) => {
            let ghost fv = crate::json::view_fields(fs@);
            let n = fs.len();
            proof {
                crate::json::lemma_view_fields_len(fs@);
                assert(fv.subrange(0, n as int) =~= fv);
            }
            let mut out: Vec<(String, String)> = Vec::new();
            let mut i: usize = 0;
            while i < n
                invariant
                    0 <= i <= n,
                    n == fs@.len(),
                    fv.len() == n,
                    spec_label_pairs(fv) == labels_view(out@) + spec_label_pairs(
                        fv.subrange(i as int, n as int),
                    ),
                decreases n - i,
            {
                proof {
                    crate::json::lemma_view_fields_index(fs@, i as int);
                    let pre = fv.subrange(i as int, n as int);
                    assert(pre[0] == fv[i as int]);
                    assert(pre.drop_first() =~= fv.subrange(i as int + 1, n as int));
                }
                match &fs[i].1 {
                    Json::Str(v) => {
                        let ghost prev = out@;
                        out.push((fs[i].0.clone(), v.clone()));
                        proof {
                            assert(labels_view(out@) =~= labels_view(prev) + seq![
                                (fs@[i as int].0@, fs@[i as int].1->Str_0@),
                            ]);
                            assert(labels_view(prev) + (seq![
                                (fv[i as int].0, fv[i as int].1->Str_0),
                            ] + spec_label_pairs(fv.subrange(i as int + 1, n as int)))
                                =~= labels_view(out@) + spec_label_pairs(
                                fv.subrange(i as int + 1, n as int),
                            ));
                        }
                    },
                    _ => {},
                }
                i = i + 1;
            }
            proof {
                assert(fv.subrange(n as int, n as int) =~= Seq::<(Seq<char>, JsonV)>::empty());
                assert(labels_view(out@) + Seq::<(Seq<char>, Seq<char>)>::empty() =~= labels_view(
                    out@,
                ));
            }
            out
        },
        _ => {
            let r: Vec<(String, String)> = Vec::new();
            proof {
                assert(labels_view(r@) =~= spec_labels_of(doc@));
            }
            r
        },
    }
}

impl FakeClient {
    /// The store of this client.
    pub closed spec fn trk(&self) -> ObjectTracker {
        self.tracker
    }

    /// The registrations of this client's registry.
    pub closed spec fn regs(&self) -> Seq<crate::registry::ResourceMetadataV> {
        self.registry.regs()
    }

    /// Whether handed-out copies keep their managed fields.
    pub closed spec fn keeps_managed_fields(&self) -> bool {
        self.return_managed_fields
    }

    /// Whether a schema validator is attached.
    pub closed spec fn has_validator(&self) -> bool {
        self.validator is Some
    }

    /// The kind keys the attached validator checks; empty without one.
    pub closed spec fn validator_enabled(&self) -> Seq<Seq<char>> {
        match self.validator {
            Some(v) => v.enabled(),
            None => Seq::empty(),
        }
    }

    /// The definitions table of the attached validator; empty without one.
    pub closed spec fn validator_defs(&self) -> Seq<char> {
        match self.validator {
            Some(v) => v.defs(),
            None => Seq::empty(),
        }
    }

    /// A fresh client with an empty store and registry; handed-out copies
    /// drop their managed fields.
    pub fn new() -> (r: FakeClient)
        ensures
            r.trk().wf(),
            r.trk().store() == Seq::<StoredV>::empty(),
            r.trk().rv() == 0,
            r.trk().assigned_rvs() == Seq::<u64>::empty(),
            r.regs() == Seq::<crate::registry::ResourceMetadataV>::empty(),
            !r.keeps_managed_fields(),
            !r.has_validator(),
    {
        FakeClient {
            tracker: ObjectTracker::new(),
            registry: ResourceRegistry::new(),
            return_managed_fields: false,
            validator: None,
        }
    }

    /// The object tracker.
    pub fn tracker(&self) -> (r: &ObjectTracker)
        ensures
            *r == self.trk(),
    {
        &self.tracker
    }

    /// Register a custom resource type with its scope.
    pub fn register_resource(
        &mut self,
        kind: &str,
        group: &str,
        version: &str,
        plural: &str,
        namespaced: bool,
    )
        ensures
            final(self).trk() == old(self).trk(),
            final(self).keeps_managed_fields() == old(self).keeps_managed_fields(),
            spec_reg_lookup_by_kind(final(self).regs(), group@, version@, kind@) is Some,
            forall|g: Seq<char>, v: Seq<char>, p: Seq<char>|
                #[trigger] crate::registry::spec_reg_lookup(final(self).regs(), g, v, p) == if g
                    == group@ && v == version@ && p == plural@ {
                    Some(
                        crate::registry::ResourceMetadataV {
                            kind: kind@,
                            group: group@,
                            version: version@,
                            plural: plural@,
                            namespaced: namespaced,
                        },
                    )
                } else {
                    crate::registry::spec_reg_lookup(old(self).regs(), g, v, p)
                },
    {
        self.registry.register(kind, group, version, plural, namespaced);
    }

    /// Check that a verb is supported for a kind: built-in kinds go by
    /// discovery, registered custom resources support the standard verbs,
    /// and an unknown kind passes (it fails resolution elsewhere).
    pub fn validate_verb(&self, gvk: &GVK, verb: &str) -> (r: Result<(), Error>)
        ensures
            match r {
                Ok(_) => spec_verb_allowed(gvk@, self.regs(), verb@),
                Err(e) => !spec_verb_allowed(gvk@, self.regs(), verb@) && (
                e matches Error::VerbNotSupported { verb: v, kind } && v@ == verb@ && kind@
                    == gvk@.kind),
            },
    {
        match Discovery::get_plural(gvk) {
            Some(_) => {
                if !Discovery::supports_verb(gvk, verb) {
                    return Err(
                        Error::VerbNotSupported { verb: verb.to_owned(), kind: gvk.kind.clone() },
                    );
                }
                Ok(())
            },
            None => {
                match self.registry.lookup_by_kind(
                    gvk.group.as_str(),
                    gvk.version.as_str(),
                    gvk.kind.as_str(),
                ) {
                    Some(_) => {
                        let allowed = str_eq(verb, "create") || str_eq(verb, "get") || str_eq(
                            verb,
                            "list",
                        ) || str_eq(verb, "update") || str_eq(verb, "patch") || str_eq(
                            verb,
                            "delete",
                        ) || str_eq(verb, "deletecollection") || str_eq(verb, "watch");
                        proof {
                            reveal_strlit("create");
                            reveal_strlit("delete");
                            reveal_strlit("deletecollection");
                            reveal_strlit("get");
                            reveal_strlit("list");
                            reveal_strlit("patch");
                            reveal_strlit("update");
                            reveal_strlit("watch");
                            if allowed {
                                assert(spec_standard_verbs().contains(verb@)) by {
                                    if verb@ == "create"@ {
                                        assert(spec_standard_verbs()[0] == "create"@);
                                    } else if verb@ == "delete"@ {
                                        assert(spec_standard_verbs()[1] == "delete"@);
                                    } else if verb@ == "deletecollection"@ {
                                        assert(spec_standard_verbs()[2] == "deletecollection"@);
                                    } else if verb@ == "get"@ {
                                        assert(spec_standard_verbs()[3] == "get"@);
                                    } else if verb@ == "list"@ {
                                        assert(spec_standard_verbs()[4] == "list"@);
                                    } else if verb@ == "patch"@ {
                                        assert(spec_standard_verbs()[5] == "patch"@);
                                    } else if verb@ == "update"@ {
                                        assert(spec_standard_verbs()[6] == "update"@);
                                    } else {
                                        assert(spec_standard_verbs()[7] == "watch"@);
                                    }
                                }
                            } else {
                                if spec_standard_verbs().contains(verb@) {
                                    let k = choose|k: int|
                                        0 <= k < spec_standard_verbs().len()
                                            && spec_standard_verbs()[k] == verb@;
                                    if k == 0 {
                                        assert(verb@ == "create"@);
                                    } else if k == 1 {
                                        assert(verb@ == "delete"@);
                                    } else if k == 2 {
                                        assert(verb@ == "deletecollection"@);
                                    } else if k == 3 {
                                        assert(verb@ == "get"@);
                                    } else if k == 4 {
                                        assert(verb@ == "list"@);
                                    } else if k == 5 {
                                        assert(verb@ == "patch"@);
                                    } else if k == 6 {
                                        assert(verb@ == "update"@);
                                    } else {
                                        assert(verb@ == "watch"@);
                                    }
                                    assert(false);
                                }
                            }
                        }
                        if allowed {
                            Ok(())
                        } else {
                            Err(
                                Error::VerbNotSupported {
                                    verb: verb.to_owned(),
                                    kind: gvk.kind.clone(),
                                },
                            )
                        }
                    },
                    None => Ok(()),
                }
            },
        }
    }

    /// Attach a schema validator; writes of enabled kinds are validated
    /// from then on.
    pub fn set_validator(&mut self, validator: crate::validator::RuntimeOpenAPIValidator)
        ensures
            final(self).trk() == old(self).trk(),
            final(self).regs() == old(self).regs(),
            final(self).keeps_managed_fields() == old(self).keeps_managed_fields(),
            final(self).has_validator(),
            final(self).validator_enabled() == validator.enabled(),
            final(self).validator_defs() == validator.defs(),
    {
        self.validator = Some(validator);
    }

    /// Run the attached validator, if any, over a document of a kind:
    /// without one, or for a kind that is not enabled, nothing is
    /// checked; an enabled kind passes exactly when its schema accepts
    /// the document.
    fn run_validator(&mut self, gvk: &GVK, doc: &Json) -> (r: Result<(), Error>)
        ensures
            final(self).trk() == old(self).trk(),
            final(self).regs() == old(self).regs(),
            final(self).keeps_managed_fields() == old(self).keeps_managed_fields(),
            final(self).has_validator() == old(self).has_validator(),
            final(self).validator_enabled() == old(self).validator_enabled(),
            final(self).validator_defs() == old(self).validator_defs(),
            !old(self).has_validator() ==> r is Ok,
            r matches Err(e) ==> old(self).has_validator() && (e is ValidationFailed
                || e is Internal) && crate::validator::spec_validation_rejects(
                old(self).validator_enabled(),
                old(self).validator_defs(),
                crate::validator::spec_gvk_key(gvk@.group, gvk@.version, gvk@.kind),
                crate::serialize::json_text(doc@),
            ),
            !crate::validator::spec_validation_rejects(
                old(self).validator_enabled(),
                old(self).validator_defs(),
                crate::validator::spec_gvk_key(gvk@.group, gvk@.version, gvk@.kind),
                crate::serialize::json_text(doc@),
            ) ==> r is Ok,
    {
        match &mut self.validator {
            None => Ok(()),
            Some(v) => {
                match v.validate(
                    gvk.group.as_str(),
                    gvk.version.as_str(),
                    gvk.kind.as_str(),
                    doc,
                ) {
                    Ok(_) => Ok(()),
                    Err(e) => {
                        match e {
                            Error::ValidationFailed { kind, errors } => Err(
                                Error::ValidationFailed { kind, errors },
                            ),
                            _ => Err(Error::Internal("schema validation failed".to_owned())),
                        }
                    },
                }
            },
        }
    }

    /// Check that no immutable field changed between two documents.
    pub fn validate_immutable_fields(&self, gvk: &GVK, old_doc: &Json, new_doc: &Json) -> (r:
        Result<(), Error>)
        ensures
            match r {
                Ok(_) => spec_validate_immutable(gvk@, old_doc@, new_doc@) is None,
                Err(e) => spec_validate_immutable(gvk@, old_doc@, new_doc@) matches Some(p) && (
                e matches Error::ImmutableField { field } && field@ == p),
            },
    {
        crate::immutable::validate_immutable_fields(gvk, old_doc, new_doc)
    }
}

} // verus!

verus! {

impl FakeClient {
    /// Resolve the resource triple a document's kind maps to.
    fn extract_gvr(&self, value: &Json) -> (r: Result<(GVR, GVK), Error>)
        ensures
            match r {
                Ok((gvr, gvk)) => crate::client_utils::spec_extract_gvk(value@) == Some(gvk@)
                    && spec_resolve_gvr(gvk@, self.regs()) == Some(gvr@),
                Err(e) => match crate::client_utils::spec_extract_gvk(value@) {
                    Option::None => e is InvalidRequest,
                    Option::Some(g) => spec_resolve_gvr(g, self.regs()) is None && (
                    e matches Error::ResourceNotRegistered { group, version, resource } && group@
                        == g.group && version@ == g.version && resource@ == g.kind + " (kind)"@),
                },
            },
    {
        let gvk = match crate::client_utils::extract_gvk(value) {
            Ok(g) => g,
            Err(e) => {
                return Err(e);
            },
        };
        match Discovery::gvk_to_gvr_with_registry(&gvk, &self.registry) {
            Some(gvr) => Ok((gvr, gvk)),
            None => {
                let mut resource = gvk.kind.clone();
                resource.append(" (kind)");
                Err(
                    Error::ResourceNotRegistered {
                        group: gvk.group.clone(),
                        version: gvk.version.clone(),
                        resource,
                    },
                )
            },
        }
    }

    /// Create an object: the kind must resolve and allow `create`; the
    /// rest follows the tracker's create contract, and the handed-out
    /// copy drops its managed fields unless configured otherwise.
    #[verifier::rlimit(60)]
    #[verifier::spinoff_prover]
    pub fn create(&mut self, namespace: &str, obj: Json) -> (r: Result<Json, Error>)
        ensures
            old(self).trk().wf() ==> final(self).trk().wf(),
            final(self).regs() == old(self).regs(),
            final(self).keeps_managed_fields() == old(self).keeps_managed_fields(),
            ({
                let pre = old(self).trk();
                let post = final(self).trk();
                match crate::client_utils::spec_extract_gvk(obj@) {
                    Option::None => r matches Err(e) && e is InvalidRequest && tracker_unchanged(
                        pre,
                        post,
                    ),
                    Option::Some(g) => match spec_resolve_gvr(g, old(self).regs()) {
                        Option::None => r matches Err(e) && e is ResourceNotRegistered
                            && tracker_unchanged(pre, post),
                        Option::Some(gvr) => if !spec_verb_allowed(g, old(self).regs(), "create"@) {
                            r matches Err(e) && e is VerbNotSupported && tracker_unchanged(
                                pre,
                                post,
                            )
                        } else {
                            ({
                            &&& (crate::tracker::spec_meta_of(obj@) is None ==> (r matches Err(e)
                                && e is MetadataError && tracker_unchanged(pre, post)))
                            &&& (crate::tracker::spec_meta_of(obj@) is Some
                                && crate::tracker::spec_obj_name(obj@) is None ==> (
                            r matches Err(e) && e is InvalidRequest && tracker_unchanged(
                                pre,
                                post,
                            )))
                            &&& (crate::tracker::spec_meta_of(obj@) is Some
                                && crate::tracker::spec_obj_name(obj@) is Some
                                && !crate::tracker::spec_seed_assigns(obj@) ==> (r matches Err(e)
                                && e is InvalidRequest && tracker_unchanged(pre, post)))
                            &&& (crate::tracker::spec_meta_of(obj@) is Some
                                && crate::tracker::spec_obj_name(obj@) is Some
                                && crate::tracker::spec_seed_assigns(obj@) && spec_find(
                                pre.store(),
                                gvr,
                                namespace@,
                                match crate::tracker::spec_obj_name(obj@) {
                                    Option::Some(n) => n,
                                    Option::None => Seq::empty(),
                                },
                            ) is Some ==> (r matches Err(e) && e is AlreadyExists
                                && tracker_unchanged(pre, post)))
                            &&& (crate::tracker::spec_meta_of(obj@) is Some
                                && crate::tracker::spec_obj_name(obj@) is Some
                                && crate::tracker::spec_seed_assigns(obj@) && spec_find(
                                pre.store(),
                                gvr,
                                namespace@,
                                match crate::tracker::spec_obj_name(obj@) {
                                    Option::Some(n) => n,
                                    Option::None => Seq::empty(),
                                },
                            ) is None && pre.rv() < u64::MAX ==> (r matches Ok(o) && (exists|
                                now: Seq<char>,
                                uid: Seq<char>,
                                d: JsonV,
                            |
                                #[trigger] crate::tracker::spec_create_ok(
                                    pre,
                                    post,
                                    gvr,
                                    g,
                                    obj@,
                                    namespace@,
                                    d,
                                    now,
                                    uid,
                                ) && o@ == (if old(self).keeps_managed_fields() {
                                    d
                                } else {
                                    spec_strip_managed(d)
                                }))))
                            &&& (crate::tracker::spec_meta_of(obj@) is Some
                                && crate::tracker::spec_obj_name(obj@) is Some
                                && crate::tracker::spec_seed_assigns(obj@) && spec_find(
                                pre.store(),
                                gvr,
                                namespace@,
                                match crate::tracker::spec_obj_name(obj@) {
                                    Option::Some(n) => n,
                                    Option::None => Seq::empty(),
                                },
                            ) is None && pre.rv() == u64::MAX ==> (r matches Err(e) && e is Internal
                                && tracker_unchanged(pre, post)))
                            }) || (old(self).has_validator() && crate::validator::spec_validation_rejects(
                                old(self).validator_enabled(),
                                old(self).validator_defs(),
                                crate::validator::spec_gvk_key(g.group, g.version, g.kind),
                                crate::serialize::json_text(obj@),
                            ) && (r matches Err(e2) && (e2 is ValidationFailed
                                || e2 is Internal)) && tracker_unchanged(pre, post))
                        },
                    },
                }
            }),
    {
        let ghost obj0 = obj@;
        let (gvr, gvk) = match self.extract_gvr(&obj) {
            Ok(p) => p,
            Err(e) => {
                return Err(e);
            },
        };
        match self.validate_verb(&gvk, "create") {
            Ok(_) => {},
            Err(e) => {
                return Err(e);
            },
        }
        match self.run_validator(&gvk, &obj) {
            Ok(_) => {},
            Err(e) => {
                return Err(e);
            },
        }
        let created = match self.tracker.create(&gvr, &gvk, obj, namespace) {
            Ok(c) => c,
            Err(e) => {
                return Err(e);
            },
        };
        proof {
            let pre = old(self).trk();
            let post = self.trk();
            let nm = match crate::tracker::spec_obj_name(obj0) {
                Option::Some(n) => n,
                Option::None => Seq::empty(),
            };
            if crate::tracker::spec_meta_of(obj0) is Some && crate::tracker::spec_obj_name(obj0) is Some
                && crate::tracker::spec_seed_assigns(obj0) && spec_find(
                pre.store(),
                gvr@,
                namespace@,
                nm,
            ) is None && pre.rv() < u64::MAX {
                let (now0, uid0) = choose|now: Seq<char>, uid: Seq<char>|
                    crate::tracker::spec_create_ok(
                        pre,
                        post,
                        gvr@,
                        gvk@,
                        obj0,
                        namespace@,
                        created@,
                        now,
                        uid,
                    );
                assert(crate::tracker::spec_create_ok(
                    pre,
                    post,
                    gvr@,
                    gvk@,
                    obj0,
                    namespace@,
                    created@,
                    now0,
                    uid0,
                ));
            }
        }
        if self.return_managed_fields {
            Ok(created)
        } else {
            Ok(strip_managed(created))
        }
    }

    /// Look an object up by kind, namespace and name.
    pub fn get(&self, gvk: &GVK, namespace: &str, name: &str) -> (r: Result<Json, Error>)
        ensures
            ({
                match spec_resolve_gvr(gvk@, self.regs()) {
                    Option::None => r matches Err(e) && e is ResourceNotRegistered,
                    Option::Some(gvr) => if !spec_verb_allowed(gvk@, self.regs(), "get"@) {
                        r matches Err(e) && e is VerbNotSupported
                    } else {
                        match spec_find(self.trk().store(), gvr, namespace@, name@) {
                            Option::Some(e) => r matches Ok(o) && o@ == (
                            if self.keeps_managed_fields() {
                                e.data
                            } else {
                                spec_strip_managed(e.data)
                            }),
                            Option::None => r matches Err(e) && e is NotFound,
                        }
                    },
                }
            }),
    {
        let gvr = match Discovery::gvk_to_gvr_with_registry(gvk, &self.registry) {
            Some(g) => g,
            None => {
                let mut resource = gvk.kind.clone();
                resource.append(" (kind)");
                return Err(
                    Error::ResourceNotRegistered {
                        group: gvk.group.clone(),
                        version: gvk.version.clone(),
                        resource,
                    },
                );
            },
        };
        match self.validate_verb(gvk, "get") {
            Ok(_) => {},
            Err(e) => {
                return Err(e);
            },
        }
        let value = match self.tracker.get(&gvr, namespace, name) {
            Ok(v) => v,
            Err(e) => {
                return Err(e);
            },
        };
        if self.return_managed_fields {
            Ok(value)
        } else {
            Ok(strip_managed(value))
        }
    }

    /// Delete an object by kind, namespace and name, handing back the
    /// stored value.
    pub fn delete(&mut self, gvk: &GVK, namespace: &str, name: &str) -> (r: Result<Json, Error>)
        ensures
            old(self).trk().wf() ==> final(self).trk().wf(),
            final(self).regs() == old(self).regs(),
            final(self).keeps_managed_fields() == old(self).keeps_managed_fields(),
            ({
                let pre = old(self).trk();
                let post = final(self).trk();
                match spec_resolve_gvr(gvk@, old(self).regs()) {
                    Option::None => r matches Err(e) && e is ResourceNotRegistered
                        && tracker_unchanged(pre, post),
                    Option::Some(gvr) => if !spec_verb_allowed(gvk@, old(self).regs(), "delete"@) {
                        r matches Err(e) && e is VerbNotSupported && tracker_unchanged(pre, post)
                    } else {
                        match spec_find(pre.store(), gvr, namespace@, name@) {
                            Option::Some(e) => {
                                let i = crate::tracker::find_idx(
                                    pre.store(),
                                    gvr,
                                    namespace@,
                                    name@,
                                );
                                &&& r matches Ok(o) && o@ == e.data
                                &&& post.store() == pre.store().subrange(0, i)
                                    + pre.store().subrange(i + 1, pre.store().len() as int)
                                &&& post.rv() == pre.rv()
                            },
                            Option::None => r matches Err(e) && e is NotFound
                                && tracker_unchanged(pre, post),
                        }
                    },
                }
            }),
    {
        let gvr = match Discovery::gvk_to_gvr_with_registry(gvk, &self.registry) {
            Some(g) => g,
            None => {
                let mut resource = gvk.kind.clone();
                resource.append(" (kind)");
                return Err(
                    Error::ResourceNotRegistered {
                        group: gvk.group.clone(),
                        version: gvk.version.clone(),
                        resource,
                    },
                );
            },
        };
        match self.validate_verb(gvk, "delete") {
            Ok(_) => {},
            Err(e) => {
                return Err(e);
            },
        }
        self.tracker.delete(&gvr, namespace, name)
    }

    /// Replace the status subresource of an object; the kind must resolve
    /// and allow `update`; the rest follows the tracker's update contract
    /// for a status write.
    #[verifier::rlimit(60)]
    #[verifier::spinoff_prover]
    pub fn update_status(&mut self, namespace: &str, obj: Json) -> (r: Result<Json, Error>)
        ensures
            old(self).trk().wf() ==> final(self).trk().wf(),
            final(self).regs() == old(self).regs(),
            final(self).keeps_managed_fields() == old(self).keeps_managed_fields(),
            ({
                let pre = old(self).trk();
                let post = final(self).trk();
                match crate::client_utils::spec_extract_gvk(obj@) {
                    Option::None => r matches Err(e) && e is InvalidRequest && tracker_unchanged(
                        pre,
                        post,
                    ),
                    Option::Some(g) => match spec_resolve_gvr(g, old(self).regs()) {
                        Option::None => r matches Err(e) && e is ResourceNotRegistered
                            && tracker_unchanged(pre, post),
                        Option::Some(gvr) => if !spec_verb_allowed(g, old(self).regs(), "update"@) {
                            r matches Err(e) && e is VerbNotSupported && tracker_unchanged(
                                pre,
                                post,
                            )
                        } else {
                            (match spec_update_gate(pre, gvr, obj@, namespace@, true) {
                                UpdateGate::BadMeta => r matches Err(e) && e is MetadataError
                                    && tracker_unchanged(pre, post),
                                UpdateGate::NoName => r matches Err(e) && e is InvalidRequest
                                    && tracker_unchanged(pre, post),
                                UpdateGate::MissingObject => r matches Err(e) && e is NotFound
                                    && tracker_unchanged(pre, post),
                                UpdateGate::StaleVersion => r matches Err(e) && e is Conflict
                                    && tracker_unchanged(pre, post),
                                UpdateGate::Exhausted => r matches Err(e) && e is Internal
                                    && tracker_unchanged(pre, post),
                                UpdateGate::GenOverflow => r matches Err(e) && e is Internal
                                    && tracker_unchanged(pre, post),
                                UpdateGate::DtChanged => (r matches Err(e)
                                    && e is InvalidRequest) && post.store() == pre.store()
                                    && post.status_set() == pre.status_set()
                                    && post.assigned_rvs() == pre.assigned_rvs(),
                                UpdateGate::Deleting => r matches Ok(o) && (exists|d: JsonV|
                                    #[trigger] spec_update_deleted(
                                        pre,
                                        post,
                                        gvr,
                                        obj@,
                                        namespace@,
                                        d,
                                    ) && o@ == (if old(self).keeps_managed_fields() {
                                        d
                                    } else {
                                        spec_strip_managed(d)
                                    })),
                                UpdateGate::Storing => r matches Ok(o) && (exists|d: JsonV|
                                    #[trigger] spec_update_ok(
                                        pre,
                                        post,
                                        gvr,
                                        g,
                                        obj@,
                                        namespace@,
                                        true,
                                        d,
                                    ) && o@ == (if old(self).keeps_managed_fields() {
                                        d
                                    } else {
                                        spec_strip_managed(d)
                                    })),
                            }) || (old(self).has_validator() && crate::validator::spec_validation_rejects(
                                old(self).validator_enabled(),
                                old(self).validator_defs(),
                                crate::validator::spec_gvk_key(g.group, g.version, g.kind),
                                crate::serialize::json_text(obj@),
                            ) && (r matches Err(e2) && (e2 is ValidationFailed
                                || e2 is Internal)) && tracker_unchanged(pre, post))
                        },
                    },
                }
            }),
    {
        let ghost obj0 = obj@;
        let (gvr, gvk) = match self.extract_gvr(&obj) {
            Ok(p) => p,
            Err(e) => {
                return Err(e);
            },
        };
        match self.validate_verb(&gvk, "update") {
            Ok(_) => {},
            Err(e) => {
                return Err(e);
            },
        }
        match self.run_validator(&gvk, &obj) {
            Ok(_) => {},
            Err(e) => {
                return Err(e);
            },
        }
        let updated = match self.tracker.update(&gvr, &gvk, obj, namespace, true) {
            Ok(u) => u,
            Err(e) => {
                return Err(e);
            },
        };
        proof {
            let pre = old(self).trk();
            let post = self.trk();
            let gate = spec_update_gate(pre, gvr@, obj0, namespace@, true);
            if gate is Storing {
                assert(spec_update_ok(pre, post, gvr@, gvk@, obj0, namespace@, true, updated@));
            }
            if gate is Deleting {
                assert(spec_update_deleted(pre, post, gvr@, obj0, namespace@, updated@));
            }
        }
        if self.return_managed_fields {
            Ok(updated)
        } else {
            Ok(strip_managed(updated))
        }
    }
}

} // verus!

verus! {

/// The name field of a document's metadata, read tolerantly.
pub open spec fn spec_client_name(obj: JsonV) -> Option<Seq<char>> {
    match spec_get(obj, "metadata"@) {
        Option::Some(m) => spec_str_opt(m, "name"@),
        Option::None => Option::None,
    }
}

/// The uid field of a document's metadata, read tolerantly.
pub open spec fn spec_doc_uid(doc: JsonV) -> Option<Seq<char>> {
    match spec_get(doc, "metadata"@) {
        Option::Some(m) => spec_str_opt(m, "uid"@),
        Option::None => Option::None,
    }
}

/// Whether some listed document carries the given uid.
pub open spec fn spec_uid_hit(docs: Seq<JsonV>, uid: Seq<char>) -> bool {
    exists|i: int| 0 <= i < docs.len() && spec_doc_uid(#[trigger] docs[i]) == Some(uid)
}

/// Read a tolerant string field of a document's metadata.
fn client_meta_str(obj: &Json, key: &str) -> (r: Option<String>)
    ensures
        match r {
            Some(s) => match spec_get(obj@, "metadata"@) {
                Option::Some(m) => spec_str_opt(m, key@) == Some(s@),
                Option::None => false,
            },
            None => match spec_get(obj@, "metadata"@) {
                Option::Some(m) => spec_str_opt(m, key@) is None,
                Option::None => true,
            },
        },
{
    match obj.get("metadata") {
        Some(m) => crate::tracker::str_opt(m, key),
        None => None,
    }
}

impl FakeClient {
    /// Replace an object. The kind must resolve and allow `update`; the
    /// document must name the object; a name change is caught by the uid
    /// scan and, like any other immutable-field change, leaves the store
    /// untouched; the rest follows the tracker's update contract for a
    /// non-status write.
    #[verifier::rlimit(60)]
    #[verifier::spinoff_prover]
    #[verifier::loop_isolation(false)]
    pub fn update(&mut self, namespace: &str, obj: Json) -> (r: Result<Json, Error>)
        ensures
            old(self).trk().wf() ==> final(self).trk().wf(),
            final(self).regs() == old(self).regs(),
            final(self).keeps_managed_fields() == old(self).keeps_managed_fields(),
            ({
                let pre = old(self).trk();
                let post = final(self).trk();
                match crate::client_utils::spec_extract_gvk(obj@) {
                    Option::None => r matches Err(e) && e is InvalidRequest && tracker_unchanged(
                        pre,
                        post,
                    ),
                    Option::Some(g) => match spec_resolve_gvr(g, old(self).regs()) {
                        Option::None => r matches Err(e) && e is ResourceNotRegistered
                            && tracker_unchanged(pre, post),
                        Option::Some(gvr) => if !spec_verb_allowed(g, old(self).regs(), "update"@) {
                            r matches Err(e) && e is VerbNotSupported && tracker_unchanged(
                                pre,
                                post,
                            )
                        } else {
                            match spec_client_name(obj@) {
                                Option::None => r matches Err(e) && e is InvalidRequest
                                    && tracker_unchanged(pre, post),
                                Option::Some(nm) => match spec_find(
                                    pre.store(),
                                    gvr,
                                    namespace@,
                                    nm,
                                ) {
                                    Option::None => {
                                        let hit = match spec_doc_uid(obj@) {
                                            Option::Some(uid) => spec_uid_hit(
                                                crate::tracker::spec_list(
                                                    pre.store(),
                                                    gvr,
                                                    Some(namespace@),
                                                ),
                                                uid,
                                            ),
                                            Option::None => false,
                                        };
                                        if hit {
                                            r matches Err(e) && (e matches Error::ImmutableField {
                                                field,
                                            } && field@ == "metadata.name"@) && tracker_unchanged(
                                                pre,
                                                post,
                                            )
                                        } else {
                                            r matches Err(e) && e is NotFound && tracker_unchanged(
                                                pre,
                                                post,
                                            )
                                        }
                                    },
                                    Option::Some(ex) => match spec_validate_immutable(
                                        g,
                                        ex.data,
                                        obj@,
                                    ) {
                                        Option::Some(p) => r matches Err(e) && (
                                        e matches Error::ImmutableField { field } && field@ == p)
                                            && tracker_unchanged(pre, post),
                                        Option::None => (match spec_update_gate(
                                            pre,
                                            gvr,
                                            obj@,
                                            namespace@,
                                            false,
                                        ) {
                                            UpdateGate::BadMeta => r matches Err(e)
                                                && e is MetadataError && tracker_unchanged(
                                                pre,
                                                post,
                                            ),
                                            UpdateGate::NoName => r matches Err(e)
                                                && e is InvalidRequest && tracker_unchanged(
                                                pre,
                                                post,
                                            ),
                                            UpdateGate::MissingObject => r matches Err(e)
                                                && e is NotFound && tracker_unchanged(pre, post),
                                            UpdateGate::StaleVersion => r matches Err(e)
                                                && e is Conflict && tracker_unchanged(pre, post),
                                            UpdateGate::Exhausted => r matches Err(e)
                                                && e is Internal && tracker_unchanged(pre, post),
                                            UpdateGate::GenOverflow => r matches Err(e)
                                                && e is Internal && tracker_unchanged(pre, post),
                                            UpdateGate::DtChanged => (r matches Err(e)
                                                && e is InvalidRequest) && post.store()
                                                == pre.store() && post.status_set()
                                                == pre.status_set() && post.assigned_rvs()
                                                == pre.assigned_rvs(),
                                            UpdateGate::Deleting => r matches Ok(o) && (exists|
                                                d: JsonV,
                                            |
                                                #[trigger] spec_update_deleted(
                                                    pre,
                                                    post,
                                                    gvr,
                                                    obj@,
                                                    namespace@,
                                                    d,
                                                ) && o@ == (if old(self).keeps_managed_fields() {
                                                    d
                                                } else {
                                                    spec_strip_managed(d)
                                                })),
                                            UpdateGate::Storing => r matches Ok(o) && (exists|
                                                d: JsonV,
                                            |
                                                #[trigger] spec_update_ok(
                                                    pre,
                                                    post,
                                                    gvr,
                                                    g,
                                                    obj@,
                                                    namespace@,
                                                    false,
                                                    d,
                                                ) && o@ == (if old(self).keeps_managed_fields() {
                                                    d
                                                } else {
                                                    spec_strip_managed(d)
                                                })),
                                        }) || (old(self).has_validator()
                                            && crate::validator::spec_validation_rejects(
                                            old(self).validator_enabled(),
                                            old(self).validator_defs(),
                                            crate::validator::spec_gvk_key(
                                                g.group,
                                                g.version,
                                                g.kind,
                                            ),
                                            crate::serialize::json_text(obj@),
                                        ) && (r matches Err(e2) && (e2 is ValidationFailed
                                            || e2 is Internal)) && tracker_unchanged(pre, post)),
                                    },
                                },
                            }
                        },
                    },
                }
            }),
    {
        let ghost obj0 = obj@;
        let (gvr, gvk) = match self.extract_gvr(&obj) {
            Ok(p) => p,
            Err(e) => {
                return Err(e);
            },
        };
        match self.validate_verb(&gvk, "update") {
            Ok(_) => {},
            Err(e) => {
                return Err(e);
            },
        }
        let name = match client_meta_str(&obj, "name") {
            Some(n) => n,
            None => {
                return Err(
                    Error::InvalidRequest("resource name is required for update".to_owned()),
                );
            },
        };
        let existing = match self.tracker.get(&gvr, namespace, name.as_str()) {
            Ok(ex) => ex,
            Err(nf) => {
                let ghost listed = crate::tracker::spec_list(
                    old(self).trk().store(),
                    gvr@,
                    Some(namespace@),
                );
                match client_meta_str(&obj, "uid") {
                    Some(uid) => {
                        let all = self.tracker.list(&gvr, Some(namespace));
                        let n = all.len();
                        proof {
                            crate::json::lemma_view_items_len(all@);
                        }
                        let mut i: usize = 0;
                        while i < n
                            invariant
                                0 <= i <= n,
                                n == all@.len(),
                                crate::json::view_items(all@) == listed,
                                listed.len() == n,
                                forall|j: int|
                                    0 <= j < i ==> spec_doc_uid(#[trigger] listed[j]) != Some(
                                        uid@,
                                    ),
                            decreases n - i,
                        {
                            proof {
                                crate::json::lemma_view_items_index(all@, i as int);
                            }
                            let hit = match client_meta_str(&all[i], "uid") {
                                Some(u2) => str_eq(u2.as_str(), uid.as_str()),
                                None => false,
                            };
                            if hit {
                                proof {
                                    assert(spec_doc_uid(listed[i as int]) == Some(uid@));
                                }
                                return Err(
                                    Error::ImmutableField { field: "metadata.name".to_owned() },
                                );
                            }
                            i = i + 1;
                        }
                        proof {
                            if spec_uid_hit(listed, uid@) {
                                let j = choose|j: int|
                                    0 <= j < listed.len() && spec_doc_uid(#[trigger] listed[j])
                                        == Some(uid@);
                                assert(spec_doc_uid(listed[j]) != Some(uid@));
                            }
                        }
                        return Err(nf);
                    },
                    None => {
                        return Err(nf);
                    },
                }
            },
        };
        match crate::immutable::validate_immutable_fields(&gvk, &existing, &obj) {
            Ok(_) => {},
            Err(e) => {
                return Err(e);
            },
        }
        match self.run_validator(&gvk, &obj) {
            Ok(_) => {},
            Err(e) => {
                return Err(e);
            },
        }
        let updated = match self.tracker.update(&gvr, &gvk, obj, namespace, false) {
            Ok(u) => u,
            Err(e) => {
                return Err(e);
            },
        };
        proof {
            let pre = old(self).trk();
            let post = self.trk();
            let gate = spec_update_gate(pre, gvr@, obj0, namespace@, false);
            if gate is Storing {
                assert(spec_update_ok(pre, post, gvr@, gvk@, obj0, namespace@, false, updated@));
            }
            if gate is Deleting {
                assert(spec_update_deleted(pre, post, gvr@, obj0, namespace@, updated@));
            }
        }
        if self.return_managed_fields {
            Ok(updated)
        } else {
            Ok(strip_managed(updated))
        }
    }

    /// Apply a merge patch to a stored object: the merged document goes
    /// through the same immutability check and update path as a full
    /// replace.
    #[verifier::rlimit(60)]
    #[verifier::spinoff_prover]
    pub fn patch(&mut self, gvk: &GVK, namespace: &str, name: &str, patch: &Json) -> (r: Result<
        Json,
        Error,
    >)
        ensures
            old(self).trk().wf() ==> final(self).trk().wf(),
            final(self).regs() == old(self).regs(),
            final(self).keeps_managed_fields() == old(self).keeps_managed_fields(),
            ({
                let pre = old(self).trk();
                let post = final(self).trk();
                match spec_resolve_gvr(gvk@, old(self).regs()) {
                    Option::None => r matches Err(e) && e is ResourceNotRegistered
                        && tracker_unchanged(pre, post),
                    Option::Some(gvr) => if !spec_verb_allowed(gvk@, old(self).regs(), "patch"@) {
                        r matches Err(e) && e is VerbNotSupported && tracker_unchanged(pre, post)
                    } else {
                        match spec_find(pre.store(), gvr, namespace@, name@) {
                            Option::None => r matches Err(e) && e is NotFound
                                && tracker_unchanged(pre, post),
                            Option::Some(ex) => {
                                let merged = crate::patch::spec_merge(ex.data, patch@);
                                match spec_validate_immutable(gvk@, ex.data, merged) {
                                    Option::Some(p) => r matches Err(e) && (
                                    e matches Error::ImmutableField { field } && field@ == p)
                                        && tracker_unchanged(pre, post),
                                    Option::None => (match spec_update_gate(
                                        pre,
                                        gvr,
                                        merged,
                                        namespace@,
                                        false,
                                    ) {
                                        UpdateGate::BadMeta => r matches Err(e)
                                            && e is MetadataError && tracker_unchanged(pre, post),
                                        UpdateGate::NoName => r matches Err(e)
                                            && e is InvalidRequest && tracker_unchanged(
                                            pre,
                                            post,
                                        ),
                                        UpdateGate::MissingObject => r matches Err(e)
                                            && e is NotFound && tracker_unchanged(pre, post),
                                        UpdateGate::StaleVersion => r matches Err(e)
                                            && e is Conflict && tracker_unchanged(pre, post),
                                        UpdateGate::Exhausted => r matches Err(e) && e is Internal
                                            && tracker_unchanged(pre, post),
                                        UpdateGate::GenOverflow => r matches Err(e)
                                            && e is Internal && tracker_unchanged(pre, post),
                                        UpdateGate::DtChanged => (r matches Err(e)
                                            && e is InvalidRequest) && post.store() == pre.store()
                                            && post.status_set() == pre.status_set()
                                            && post.assigned_rvs() == pre.assigned_rvs(),
                                        UpdateGate::Deleting => r matches Ok(o) && (exists|
                                            d: JsonV,
                                        |
                                            #[trigger] spec_update_deleted(
                                                pre,
                                                post,
                                                gvr,
                                                merged,
                                                namespace@,
                                                d,
                                            ) && o@ == (if old(self).keeps_managed_fields() {
                                                d
                                            } else {
                                                spec_strip_managed(d)
                                            })),
                                        UpdateGate::Storing => r matches Ok(o) && (exists|
                                            d: JsonV,
                                        |
                                            #[trigger] spec_update_ok(
                                                pre,
                                                post,
                                                gvr,
                                                gvk@,
                                                merged,
                                                namespace@,
                                                false,
                                                d,
                                            ) && o@ == (if old(self).keeps_managed_fields() {
                                                d
                                            } else {
                                                spec_strip_managed(d)
                                            })),
                                    }) || (old(self).has_validator()
                                        && crate::validator::spec_validation_rejects(
                                        old(self).validator_enabled(),
                                        old(self).validator_defs(),
                                        crate::validator::spec_gvk_key(
                                            gvk@.group,
                                            gvk@.version,
                                            gvk@.kind,
                                        ),
                                        crate::serialize::json_text(merged),
                                    ) && (r matches Err(e2) && (e2 is ValidationFailed
                                        || e2 is Internal)) && tracker_unchanged(pre, post)),
                                }
                            },
                        }
                    },
                }
            }),
    {
        let gvr = match Discovery::gvk_to_gvr_with_registry(gvk, &self.registry) {
            Some(g) => g,
            None => {
                let mut resource = gvk.kind.clone();
                resource.append(" (kind)");
                return Err(
                    Error::ResourceNotRegistered {
                        group: gvk.group.clone(),
                        version: gvk.version.clone(),
                        resource,
                    },
                );
            },
        };
        match self.validate_verb(gvk, "patch") {
            Ok(_) => {},
            Err(e) => {
                return Err(e);
            },
        }
        let existing = match self.tracker.get(&gvr, namespace, name) {
            Ok(ex) => ex,
            Err(e) => {
                return Err(e);
            },
        };
        let patched = crate::patch::merge(existing.duplicate(), patch);
        let ghost merged0 = patched@;
        match crate::immutable::validate_immutable_fields(gvk, &existing, &patched) {
            Ok(_) => {},
            Err(e) => {
                return Err(e);
            },
        }
        match self.run_validator(gvk, &patched) {
            Ok(_) => {},
            Err(e) => {
                return Err(e);
            },
        }
        let updated = match self.tracker.update(&gvr, gvk, patched, namespace, false) {
            Ok(u) => u,
            Err(e) => {
                return Err(e);
            },
        };
        proof {
            let pre = old(self).trk();
            let post = self.trk();
            let gate = spec_update_gate(pre, gvr@, merged0, namespace@, false);
            if gate is Storing {
                assert(spec_update_ok(pre, post, gvr@, gvk@, merged0, namespace@, false, updated@));
            }
            if gate is Deleting {
                assert(spec_update_deleted(pre, post, gvr@, merged0, namespace@, updated@));
            }
        }
        if self.return_managed_fields {
            Ok(updated)
        } else {
            Ok(strip_managed(updated))
        }
    }
}

} // verus!

verus! {

/// The documents whose labels the selector matches, in order.
pub open spec fn spec_filter_labels(docs: Seq<JsonV>, es: Seq<ExprV>) -> Seq<JsonV>
    decreases docs.len(),
{
    if docs.len() == 0 {
        Seq::empty()
    } else {
        let rest = spec_filter_labels(docs.drop_first(), es);
        if spec_selector_matches(es, spec_labels_of(docs[0])) {
            seq![docs[0]] + rest
        } else {
            rest
        }
    }
}

/// One field-selector requirement evaluated on a document: a requirement
/// without `=` is skipped; a field outside the pre-registered table is an
/// error, named by the field.
pub open spec fn spec_req_eval(doc: JsonV, req: Seq<char>, kind: Seq<char>) -> Result<
    bool,
    Seq<char>,
> {
    let t = spec_trim(req);
    let i = spec_find_sub(t, "="@);
    if i < 0 {
        Ok(true)
    } else {
        let field = t.subrange(0, i);
        let value = spec_trim(t.subrange(i + 1, t.len() as int));
        match crate::fields::spec_preregistered(doc, field, kind) {
            Option::Some(vs) => Ok(vs.contains(value)),
            Option::None => Err(field),
        }
    }
}

/// A field selector evaluated on a document: requirements are checked in
/// order, the first false one settles the answer, and an unsupported
/// field before that is an error.
pub open spec fn spec_doc_field_match(
    doc: JsonV,
    reqs: Seq<Seq<char>>,
    kind: Seq<char>,
) -> Result<bool, Seq<char>>
    decreases reqs.len(),
{
    if reqs.len() == 0 {
        Ok(true)
    } else {
        match spec_req_eval(doc, reqs[0], kind) {
            Err(f) => Err(f),
            Ok(false) => Ok(false),
            Ok(true) => spec_doc_field_match(doc, reqs.drop_first(), kind),
        }
    }
}

/// The documents a field selector keeps, in order; the first unsupported
/// field anywhere fails the whole listing.
pub open spec fn spec_filter_fields(
    docs: Seq<JsonV>,
    reqs: Seq<Seq<char>>,
    kind: Seq<char>,
) -> Result<Seq<JsonV>, Seq<char>>
    decreases docs.len(),
{
    if docs.len() == 0 {
        Ok(Seq::empty())
    } else {
        match spec_doc_field_match(docs[0], reqs, kind) {
            Err(f) => Err(f),
            Ok(keep) => match spec_filter_fields(docs.drop_first(), reqs, kind) {
                Err(f) => Err(f),
                Ok(rest) => Ok(
                    if keep {
                        seq![docs[0]] + rest
                    } else {
                        rest
                    },
                ),
            },
        }
    }
}

/// Handed-out copies of a listing, with the managed-fields rule applied.
pub open spec fn spec_strip_docs(docs: Seq<JsonV>, keep: bool) -> Seq<JsonV> {
    if keep {
        docs
    } else {
        docs.map_values(|d: JsonV| spec_strip_managed(d))
    }
}

/// Evaluate one field-selector requirement on a document.
#[verifier::loop_isolation(false)]
fn eval_field_req(doc: &Json, req: &str, kind: &str) -> (r: Result<bool, String>)
    ensures
        match r {
            Ok(b) => spec_req_eval(doc@, req@, kind@) == Ok::<bool, Seq<char>>(b),
            Err(f) => spec_req_eval(doc@, req@, kind@) == Err::<bool, Seq<char>>(f@),
        },
{
    proof {
        reveal_strlit("=");
    }
    let t = crate::strutil::trim(req);
    let ts = t.as_str();
    let tlen = ts.unicode_len();
    match crate::strutil::find_sub(ts, "=") {
        None => Ok(true),
        Some(i) => {
            proof {
                crate::strutil::lemma_find_from(ts@, "="@, 0);
            }
            let field = ts.substring_char(0, i);
            let value = crate::strutil::trim(ts.substring_char(i + 1, tlen));
            match crate::fields::extract_preregistered_field_value(doc, field, kind) {
                Some(vals) => {
                    let n = vals.len();
                    let ghost vv = crate::selector::views_of(vals@);
                    let mut k: usize = 0;
                    while k < n
                        invariant
                            0 <= k <= n,
                            n == vals@.len(),
                            forall|j: int| 0 <= j < k ==> #[trigger] vv[j] != value@,
                        decreases n - k,
                    {
                        if str_eq(vals[k].as_str(), value.as_str()) {
                            assert(vv[k as int] == value@);
                            return Ok(true);
                        }
                        k = k + 1;
                    }
                    proof {
                        if vv.contains(value@) {
                            let j = choose|j: int| 0 <= j < vv.len() && vv[j] == value@;
                            assert(vv[j] != value@);
                        }
                    }
                    Ok(false)
                },
                None => Err(field.to_owned()),
            }
        },
    }
}

/// Evaluate a field selector on a document.
#[verifier::loop_isolation(false)]
fn doc_field_match(doc: &Json, field_selector: &str, kind: &str) -> (r: Result<bool, String>)
    ensures
        ({
            let reqs = crate::selector::spec_split_csv(field_selector@);
            match r {
                Ok(b) => spec_doc_field_match(doc@, reqs, kind@) == Ok::<bool, Seq<char>>(b),
                Err(f) => spec_doc_field_match(doc@, reqs, kind@) == Err::<bool, Seq<char>>(f@),
            }
        }),
{
    let segs = crate::selector::split_csv(field_selector);
    let ghost reqs = crate::selector::spec_split_csv(field_selector@);
    let n = segs.len();
    proof {
        assert(reqs.subrange(0, n as int) =~= reqs);
    }
    let mut i: usize = 0;
    while i < n
        invariant
            0 <= i <= n,
            n == segs@.len(),
            crate::selector::views_of(segs@) == reqs,
            reqs.len() == n,
            spec_doc_field_match(doc@, reqs, kind@) == spec_doc_field_match(
                doc@,
                reqs.subrange(i as int, n as int),
                kind@,
            ),
        decreases n - i,
    {
        proof {
            let pre = reqs.subrange(i as int, n as int);
            assert(pre[0] == reqs[i as int]);
            assert(pre.drop_first() =~= reqs.subrange(i as int + 1, n as int));
        }
        match eval_field_req(doc, segs[i].as_str(), kind) {
            Err(f) => {
                return Err(f);
            },
            Ok(false) => {
                return Ok(false);
            },
            Ok(true) => {},
        }
        i = i + 1;
    }
    proof {
        assert(reqs.subrange(n as int, n as int) =~= Seq::<Seq<char>>::empty());
    }
    Ok(true)
}

impl FakeClient {
    /// List the objects of a kind, optionally of one namespace, filtered
    /// by a label selector and a field selector: exactly the stored
    /// objects the parsed selectors match come back, in store order.
    #[verifier::rlimit(60)]
    #[verifier::spinoff_prover]
    #[verifier::loop_isolation(false)]
    pub fn list(
        &self,
        gvk: &GVK,
        namespace: Option<&str>,
        label_selector: Option<&str>,
        field_selector: Option<&str>,
    ) -> (r: Result<Vec<Json>, Error>)
        ensures
            ({
                let nsopt: Option<Seq<char>> = match namespace {
                    Some(ns) => Some(ns@),
                    None => None,
                };
                match spec_resolve_gvr(gvk@, self.regs()) {
                    Option::None => r matches Err(e) && e is ResourceNotRegistered,
                    Option::Some(gvr) => if !spec_verb_allowed(gvk@, self.regs(), "list"@) {
                        r matches Err(e) && e is VerbNotSupported
                    } else {
                        let docs = crate::tracker::spec_list(self.trk().store(), gvr, nsopt);
                        let docs1 = match label_selector {
                            Some(s) => match spec_parse_selector(s@) {
                                Ok(es) => spec_filter_labels(docs, es),
                                Err(_) => Seq::empty(),
                            },
                            None => docs,
                        };
                        match field_selector {
                            None => r matches Ok(v) && view_items(v@) == spec_strip_docs(
                                docs1,
                                self.keeps_managed_fields(),
                            ),
                            Some(fs) => match spec_filter_fields(
                                docs1,
                                crate::selector::spec_split_csv(fs@),
                                gvk@.kind,
                            ) {
                                Ok(d2) => r matches Ok(v) && view_items(v@) == spec_strip_docs(
                                    d2,
                                    self.keeps_managed_fields(),
                                ),
                                Err(f) => r matches Err(e) && (e matches Error::IndexNotFound {
                                    kind,
                                    field,
                                } && kind@ == gvk@.kind && field@ == f),
                            },
                        }
                    },
                }
            }),
    {
        broadcast use crate::json::group_json_view_axioms;

        let gvr = match Discovery::gvk_to_gvr_with_registry(gvk, &self.registry) {
            Some(g) => g,
            None => {
                let mut resource = gvk.kind.clone();
                resource.append(" (kind)");
                return Err(
                    Error::ResourceNotRegistered {
                        group: gvk.group.clone(),
                        version: gvk.version.clone(),
                        resource,
                    },
                );
            },
        };
        match self.validate_verb(gvk, "list") {
            Ok(_) => {},
            Err(e) => {
                return Err(e);
            },
        }
        let values = self.tracker.list(&gvr, namespace);
        let ghost docs = crate::json::view_items(values@);
        proof {
            crate::json::lemma_view_items_len(values@);
        }
        let filtered: Vec<Json> = match label_selector {
            None => values,
            Some(s) => {
                match crate::selector::parse_label_selector(s) {
                    Err(_) => {
                        let empty_out: Vec<Json> = Vec::new();
                        proof {
                            assert(crate::json::view_items(empty_out@) =~= Seq::<JsonV>::empty());
                        }
                        empty_out
                    },
                    Ok(sel) => {
                        let ghost es = sel@;
                        let n = values.len();
                        let mut out: Vec<Json> = Vec::new();
                        proof {
                            assert(docs.subrange(0, n as int) =~= docs);
                            assert(crate::json::view_items(out@) =~= Seq::<JsonV>::empty());
                            assert(Seq::<JsonV>::empty() + spec_filter_labels(docs, es)
                                =~= spec_filter_labels(docs, es));
                        }
                        let mut i: usize = 0;
                        while i < n
                            invariant
                                0 <= i <= n,
                                n == values@.len(),
                                docs == crate::json::view_items(values@),
                                docs.len() == n,
                                spec_filter_labels(docs, es) == crate::json::view_items(out@)
                                    + spec_filter_labels(docs.subrange(i as int, n as int), es),
                            decreases n - i,
                        {
                            proof {
                                crate::json::lemma_view_items_index(values@, i as int);
                                let pre = docs.subrange(i as int, n as int);
                                assert(pre[0] == docs[i as int]);
                                assert(pre.drop_first() =~= docs.subrange(i as int + 1, n as int));
                            }
                            let labels = labels_of(&values[i]);
                            if sel.matches(&labels) {
                                let ghost prev = out@;
                                out.push(values[i].duplicate());
                                proof {
                                    assert(crate::json::view_items(out@)
                                        =~= crate::json::view_items(prev).push(docs[i as int]));
                                    assert(crate::json::view_items(prev) + (seq![docs[i as int]]
                                        + spec_filter_labels(
                                        docs.subrange(i as int + 1, n as int),
                                        es,
                                    )) =~= crate::json::view_items(out@) + spec_filter_labels(
                                        docs.subrange(i as int + 1, n as int),
                                        es,
                                    ));
                                }
                            }
                            i = i + 1;
                        }
                        proof {
                            assert(docs.subrange(n as int, n as int) =~= Seq::<JsonV>::empty());
                            assert(crate::json::view_items(out@) + Seq::<JsonV>::empty()
                                =~= crate::json::view_items(out@));
                        }
                        out
                    },
                }
            },
        };
        let ghost docs1 = crate::json::view_items(filtered@);
        proof {
            crate::json::lemma_view_items_len(filtered@);
        }
        let selected: Vec<Json> = match field_selector {
            None => filtered,
            Some(fs) => {
                let n = filtered.len();
                let mut out: Vec<Json> = Vec::new();
                let ghost reqs = crate::selector::spec_split_csv(fs@);
                proof {
                    assert(docs1.subrange(0, n as int) =~= docs1);
                    assert(crate::json::view_items(out@) =~= Seq::<JsonV>::empty());
                    match spec_filter_fields(docs1, reqs, gvk@.kind) {
                        Ok(rest) => {
                            assert(Seq::<JsonV>::empty() + rest =~= rest);
                        },
                        Err(_) => {},
                    }
                }
                let mut i: usize = 0;
                while i < n
                    invariant
                        0 <= i <= n,
                        n == filtered@.len(),
                        docs1 == crate::json::view_items(filtered@),
                        docs1.len() == n,
                        spec_filter_fields(docs1, reqs, gvk@.kind) == match spec_filter_fields(
                            docs1.subrange(i as int, n as int),
                            reqs,
                            gvk@.kind,
                        ) {
                            Ok(rest) => Ok::<Seq<JsonV>, Seq<char>>(
                                crate::json::view_items(out@) + rest,
                            ),
                            Err(f) => Err::<Seq<JsonV>, Seq<char>>(f),
                        },
                    decreases n - i,
                {
                    proof {
                        crate::json::lemma_view_items_index(filtered@, i as int);
                        let pre = docs1.subrange(i as int, n as int);
                        assert(pre[0] == docs1[i as int]);
                        assert(pre.drop_first() =~= docs1.subrange(i as int + 1, n as int));
                    }
                    match doc_field_match(&filtered[i], fs, gvk.kind.as_str()) {
                        Err(f) => {
                            return Err(Error::IndexNotFound { kind: gvk.kind.clone(), field: f });
                        },
                        Ok(true) => {
                            let ghost prev = out@;
                            out.push(filtered[i].duplicate());
                            proof {
                                assert(crate::json::view_items(out@) =~= crate::json::view_items(
                                    prev,
                                ).push(docs1[i as int]));
                                assert forall|rest: Seq<JsonV>| true implies crate::json::view_items(
                                    prev,
                                ) + (seq![docs1[i as int]] + rest) =~= crate::json::view_items(
                                    out@,
                                ) + rest by {}
                            }
                        },
                        Ok(false) => {},
                    }
                    i = i + 1;
                }
                proof {
                    assert(docs1.subrange(n as int, n as int) =~= Seq::<JsonV>::empty());
                    assert(crate::json::view_items(out@) + Seq::<JsonV>::empty()
                        =~= crate::json::view_items(out@));
                }
                out
            },
        };
        let ghost docs2 = crate::json::view_items(selected@);
        proof {
            crate::json::lemma_view_items_len(selected@);
        }
        if self.return_managed_fields {
            Ok(selected)
        } else {
            let n = selected.len();
            let mut out: Vec<Json> = Vec::new();
            let mut i: usize = 0;
            while i < n
                invariant
                    0 <= i <= n,
                    n == selected@.len(),
                    docs2 == crate::json::view_items(selected@),
                    docs2.len() == n,
                    crate::json::view_items(out@) =~= docs2.subrange(0, i as int).map_values(
                        |d: JsonV| spec_strip_managed(d),
                    ),
                decreases n - i,
            {
                proof {
                    crate::json::lemma_view_items_index(selected@, i as int);
                }
                let ghost prev = out@;
                let stripped = strip_managed(selected[i].duplicate());
                out.push(stripped);
                proof {
                    assert(crate::json::view_items(out@) =~= crate::json::view_items(prev).push(
                        spec_strip_managed(docs2[i as int]),
                    ));
                    assert(crate::json::view_items(out@) =~= docs2.subrange(
                        0,
                        i as int + 1,
                    ).map_values(|d: JsonV| spec_strip_managed(d)));
                }
                i = i + 1;
            }
            proof {
                assert(docs2.subrange(0, n as int) =~= docs2);
                assert(crate::json::view_items(out@) =~= spec_strip_docs(docs2, false));
            }
            Ok(out)
        }
    }
}

} // verus!

verus! {

impl FakeClient {
    /// Whether handed-out copies keep their managed fields.
    pub fn returns_managed_fields(&self) -> (r: bool)
        ensures
            r == self.keeps_managed_fields(),
    {
        self.return_managed_fields
    }

    /// The registry of custom resources.
    pub fn registry(&self) -> (r: &ResourceRegistry)
        ensures
            r.regs() == self.regs(),
    {
        &self.registry
    }

    /// The object tracker, for writes.
    pub(crate) fn tracker_mut(&mut self) -> (r: &mut ObjectTracker)
        ensures
            *r == old(self).trk(),
            final(self).trk() == *final(r),
            final(self).regs() == old(self).regs(),
            final(self).keeps_managed_fields() == old(self).keeps_managed_fields(),
    {
        &mut self.tracker
    }
}

} // verus!

verus! {

impl FakeClient {
    /// Enable the status subresource for a kind.
    pub fn enable_status_subresource(&mut self, gvk: GVK)
        ensures
            old(self).trk().wf() ==> final(self).trk().wf(),
            final(self).trk().store() == old(self).trk().store(),
            final(self).trk().rv() == old(self).trk().rv(),
            final(self).trk().assigned_rvs() == old(self).trk().assigned_rvs(),
            final(self).regs() == old(self).regs(),
            final(self).keeps_managed_fields() == old(self).keeps_managed_fields(),
            forall|g: GvkV|
                final(self).trk().spec_has_status(g) == (old(self).trk().spec_has_status(g) || g
                    == gvk@),
    {
        self.tracker.add_status_subresource(gvk);
    }

    /// Keep managed fields in handed-out copies.
    pub fn set_return_managed_fields(&mut self)
        ensures
            final(self).trk() == old(self).trk(),
            final(self).regs() == old(self).regs(),
            final(self).keeps_managed_fields(),
    {
        self.return_managed_fields = true;
    }

    /// Seed one object through the tracker's seeding path: caller-set
    /// resource versions are preserved, and enabled status subresources
    /// stay enabled.
    pub fn seed(&mut self, gvr: &GVR, gvk: &GVK, object: Json, namespace: &str) -> (r: Result<
        Json,
        Error,
    >)
        ensures
            old(self).trk().wf() ==> final(self).trk().wf(),
            final(self).regs() == old(self).regs(),
            final(self).keeps_managed_fields() == old(self).keeps_managed_fields(),
            final(self).has_validator() == old(self).has_validator(),
            forall|g: GvkV|
                old(self).trk().spec_has_status(g) ==> final(self).trk().spec_has_status(g),
            r matches Err(e) ==> (e is MetadataError || e is InvalidRequest || e is Internal)
                && tracker_unchanged(old(self).trk(), final(self).trk()),
            r matches Ok(o) ==> (exists|now: Seq<char>, uid: Seq<char>|
                #[trigger] crate::tracker::spec_add_ok(
                    old(self).trk(),
                    final(self).trk(),
                    gvr@,
                    gvk@,
                    object@,
                    namespace@,
                    o@,
                    now,
                    uid,
                )),
            (crate::tracker::spec_meta_of(object@) is Some && crate::tracker::spec_obj_name(
                object@,
            ) is Some && !crate::meta::spec_should_be_deleted(
                match crate::tracker::spec_meta_of(object@) {
                    Option::Some(m) => m,
                    Option::None => JsonV::Null,
                },
            ) && (crate::tracker::spec_seed_assigns(object@) ==> old(self).trk().rv()
                < u64::MAX)) ==> r is Ok,
    {
        let ghost obj0 = object@;
        let r = self.tracker.add(gvr, gvk, object, namespace);
        proof {
            let pre = old(self).trk();
            let post = self.trk();
            if r is Ok {
                if crate::tracker::spec_meta_of(obj0) is Some && crate::tracker::spec_obj_name(
                    obj0,
                ) is Some && !crate::meta::spec_should_be_deleted(
                    match crate::tracker::spec_meta_of(obj0) {
                        Option::Some(m) => m,
                        Option::None => JsonV::Null,
                    },
                ) && (crate::tracker::spec_seed_assigns(obj0) ==> pre.rv() < u64::MAX) {
                    let okdoc = match r {
                        Ok(ref o) => o@,
                        Err(_) => JsonV::Null,
                    };
                    let (now0, uid0) = choose|now: Seq<char>, uid: Seq<char>|
                        #[trigger] crate::tracker::spec_add_ok(
                            pre,
                            post,
                            gvr@,
                            gvk@,
                            obj0,
                            namespace@,
                            okdoc,
                            now,
                            uid,
                        );
                    assert(forall|g: GvkV|
                        pre.spec_has_status(g) ==> post.spec_has_status(g));
                }
            }
        }
        r
    }
}

} // verus!
