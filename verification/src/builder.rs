//! The client builder: seed objects, enable status subresources, choose
//! the managed-fields rule, and assemble a working client. Seeding uses
//! the tracker's seeding path, so caller-supplied resource versions are
//! preserved.

use crate::client::FakeClient;
use crate::client_utils::{extract_gvk, pluralize, spec_pluralize};
use crate::error::Error;
use crate::json::{Json, JsonV, spec_get, spec_set};
use crate::tracker::{GvkV, GvrV, GVK, GVR};
use vstd::prelude::*;
use vstd::string::*;

verus! {

/// A builder for a fake client: seed objects, status subresources and
/// the managed-fields rule.
pub struct ClientBuilder {
    initial_objects: Vec<Json>,
    with_status_subresource: Vec<GVK>,
    return_managed_fields: bool,
    validator: Option<crate::validator::RuntimeOpenAPIValidator>,
}

/// The resource triple a seeded object's kind falls back to: the plural
/// of its kind by the pluralization rules.
pub open spec fn spec_seed_gvr(gvk: GvkV) -> GvrV {
    GvrV { group: gvk.group, version: gvk.version, resource: spec_pluralize(gvk.kind) }
}

/// The namespace a seeded object lands in: its own, or `default`.
pub open spec fn spec_seed_ns(obj: JsonV) -> Seq<char> {
    match spec_get(obj, "metadata"@) {
        Option::Some(m) => match crate::tracker::spec_str_opt(m, "namespace"@) {
            Option::Some(ns) => ns,
            Option::None => "default"@,
        },
        Option::None => "default"@,
    }
}

/// A fixture document with its defaults filled in: a missing
/// `creationTimestamp` takes the given time, a missing namespace becomes
/// `default`. A document without a metadata object stays as it is.
pub open spec fn spec_prepare_fixture(doc: JsonV, now: Seq<char>) -> JsonV {
    match spec_get(doc, "metadata"@) {
        Option::Some(m) => if m is Obj {
            let m1 = if spec_get(m, "creationTimestamp"@) is None {
                spec_set(m, "creationTimestamp"@, JsonV::Str(now))
            } else {
                m
            };
            let m2 = if spec_get(m1, "namespace"@) is None {
                spec_set(m1, "namespace"@, JsonV::Str("default"@))
            } else {
                m1
            };
            spec_set(doc, "metadata"@, m2)
        } else {
            doc
        },
        Option::None => doc,
    }
}

/// Fill the fixture defaults of a loaded document.
pub fn prepare_fixture_doc(doc: Json, now: &str) -> (r: Json)
    ensures
        r@ == spec_prepare_fixture(doc@, now@),
{
    let m = match doc.get("metadata") {
        Some(m) => {
            if !m.is_object() {
                return doc;
            }
            m.duplicate()
        },
        None => {
            return doc;
        },
    };
    let m1 = if m.get("creationTimestamp").is_none() {
        m.set("creationTimestamp", Json::string(now))
    } else {
        m
    };
    let m2 = if m1.get("namespace").is_none() {
        m1.set("namespace", Json::string("default"))
    } else {
        m1
    };
    doc.set("metadata", m2)
}

impl ClientBuilder {
    /// The seeded objects, in order.
    pub closed spec fn objects(&self) -> Seq<JsonV> {
        crate::json::view_items(self.initial_objects@)
    }

    /// The kinds whose status subresource the built client enables.
    pub closed spec fn status_kinds(&self) -> Seq<GvkV> {
        self.with_status_subresource@.map_values(|g: GVK| g@)
    }

    /// Whether the built client keeps managed fields in handed-out copies.
    pub closed spec fn keeps_managed_fields(&self) -> bool {
        self.return_managed_fields
    }

    /// An empty builder.
    pub fn new() -> (r: ClientBuilder)
        ensures
            r.objects() == Seq::<JsonV>::empty(),
            r.status_kinds() == Seq::<GvkV>::empty(),
            !r.keeps_managed_fields(),
    {
        let r = ClientBuilder {
            initial_objects: Vec::new(),
            with_status_subresource: Vec::new(),
            return_managed_fields: false,
            validator: None,
        };
        proof {
            assert(r.objects() =~= Seq::<JsonV>::empty());
            assert(r.status_kinds() =~= Seq::<GvkV>::empty());
        }
        r
    }

    /// Seed one object.
    pub fn with_object(self, obj: Json) -> (r: ClientBuilder)
        ensures
            r.objects() == self.objects().push(obj@),
            r.status_kinds() == self.status_kinds(),
            r.keeps_managed_fields() == self.keeps_managed_fields(),
    {
        let ghost objv = obj@;
        let mut b = self;
        let ghost prev = b.initial_objects@;
        b.initial_objects.push(obj);
        proof {
            crate::json::lemma_view_items_len(b.initial_objects@);
            crate::json::lemma_view_items_len(prev);
            assert forall|k: int|
                0 <= k < b.initial_objects@.len() implies #[trigger] crate::json::view_items(
                b.initial_objects@,
            )[k] == crate::json::view_items(prev).push(objv)[k] by {
                crate::json::lemma_view_items_index(b.initial_objects@, k);
                if k < prev.len() {
                    crate::json::lemma_view_items_index(prev, k);
                }
            }
            assert(crate::json::view_items(b.initial_objects@) =~= crate::json::view_items(
                prev,
            ).push(objv));
        }
        b
    }

    /// Seed several objects, in order.
    #[verifier::loop_isolation(false)]
    pub fn with_objects(self, objects: Vec<Json>) -> (r: ClientBuilder)
        ensures
            r.objects() == self.objects() + crate::json::view_items(objects@),
            r.status_kinds() == self.status_kinds(),
            r.keeps_managed_fields() == self.keeps_managed_fields(),
    {
        broadcast use crate::json::group_json_view_axioms;

        let ghost addv = crate::json::view_items(objects@);
        let mut b = self;
        let n = objects.len();
        let mut objects = objects;
        let mut i: usize = 0;
        proof {
            crate::json::lemma_view_items_len(objects@);
        }
        while i < n
            invariant
                0 <= i <= n,
                n == objects@.len(),
                crate::json::view_items(objects@) == addv,
                addv.len() == n,
                b.objects() =~= self.objects() + addv.subrange(0, i as int),
                b.status_kinds() == self.status_kinds(),
                b.keeps_managed_fields() == self.keeps_managed_fields(),
            decreases n - i,
        {
            proof {
                crate::json::lemma_view_items_index(objects@, i as int);
            }
            let o = objects[i].duplicate();
            b = b.with_object(o);
            proof {
                assert(self.objects() + addv.subrange(0, i as int + 1) =~= (self.objects()
                    + addv.subrange(0, i as int)).push(addv[i as int]));
            }
            i = i + 1;
        }
        proof {
            assert(addv.subrange(0, n as int) =~= addv);
        }
        b
    }

    /// Seed several raw documents, in order.
    pub fn with_runtime_objects(self, objects: Vec<Json>) -> (r: ClientBuilder)
        ensures
            r.objects() == self.objects() + crate::json::view_items(objects@),
            r.status_kinds() == self.status_kinds(),
            r.keeps_managed_fields() == self.keeps_managed_fields(),
    {
        self.with_objects(objects)
    }

    /// Enable the status subresource for a kind.
    pub fn with_status_subresource(self, gvk: GVK) -> (r: ClientBuilder)
        ensures
            r.objects() == self.objects(),
            r.status_kinds() == self.status_kinds().push(gvk@),
            r.keeps_managed_fields() == self.keeps_managed_fields(),
    {
        let ghost gv = gvk@;
        let mut b = self;
        let ghost prev = b.status_kinds();
        b.with_status_subresource.push(gvk);
        proof {
            assert(b.status_kinds() =~= prev.push(gv));
        }
        b
    }

    /// Attach a schema validator to the built client.
    pub fn with_validator(self, validator: crate::validator::RuntimeOpenAPIValidator) -> (r:
        ClientBuilder)
        ensures
            r.objects() == self.objects(),
            r.status_kinds() == self.status_kinds(),
            r.keeps_managed_fields() == self.keeps_managed_fields(),
    {
        let mut b = self;
        b.validator = Some(validator);
        b
    }

    /// Keep managed fields in handed-out copies.
    pub fn with_return_managed_fields(self) -> (r: ClientBuilder)
        ensures
            r.objects() == self.objects(),
            r.status_kinds() == self.status_kinds(),
            r.keeps_managed_fields(),
    {
        let mut b = self;
        b.return_managed_fields = true;
        b
    }

    /// Build the client: enable the chosen status subresources, then seed
    /// every object through the tracker's seeding path, in order. A build
    /// whose every document passes the seeding gates succeeds, and the
    /// built store is exactly the seeded chain; an object that cannot be
    /// seeded fails the build.
    #[verifier::loop_isolation(false)]
    #[verifier::rlimit(100)]
    #[verifier::spinoff_prover]
    pub fn build(self) -> (r: Result<FakeClient, Error>)
        ensures
            match r {
                Ok(c) => {
                    &&& c.trk().wf()
                    &&& c.keeps_managed_fields() == self.keeps_managed_fields()
                    &&& forall|i: int|
                        0 <= i < self.status_kinds().len() ==> c.trk().spec_has_status(
                            #[trigger] self.status_kinds()[i],
                        )
                },
                Err(e) => e is Internal || e is InvalidRequest || e is MetadataError,
            },
            (forall|i: int|
                0 <= i < self.objects().len() ==> spec_seed_gate_ok(
                    #[trigger] self.objects()[i],
                )) ==> r is Ok,
            r matches Ok(c) ==> (exists|t0: crate::tracker::ObjectTracker|
                {
                    &&& t0.store() == Seq::<crate::tracker::StoredV>::empty()
                    &&& t0.rv() == 0
                    &&& t0.assigned_rvs() == Seq::<u64>::empty()
                    &&& forall|k: int|
                        0 <= k < self.status_kinds().len() ==> t0.spec_has_status(
                            #[trigger] self.status_kinds()[k],
                        )
                    &&& #[trigger] spec_build_post(t0, c.trk(), self.objects())
                }),
    {
        broadcast use crate::json::group_json_view_axioms;

        let mut me = self;
        let ghost objs = me.objects();
        let mut client = FakeClient::new();
        let ns_count = me.with_status_subresource.len();
        let ghost sk = me.status_kinds();
        let mut i: usize = 0;
        while i < ns_count
            invariant
                0 <= i <= ns_count,
                ns_count == me.with_status_subresource@.len(),
                sk == me.status_kinds(),
                sk.len() == ns_count,
                client.trk().wf(),
                client.trk().store() == Seq::<crate::tracker::StoredV>::empty(),
                client.trk().rv() == 0,
                client.trk().assigned_rvs() == Seq::<u64>::empty(),
                client.keeps_managed_fields() == false,
                forall|k: int| 0 <= k < i ==> client.trk().spec_has_status(#[trigger] sk[k]),
            decreases ns_count - i,
        {
            let g = me.with_status_subresource[i].duplicate();
            client.enable_status_subresource(g);
            i = i + 1;
        }
        if me.return_managed_fields {
            client.set_return_managed_fields();
        }
        let v = me.validator.take();
        match v {
            Some(validator) => {
                client.set_validator(validator);
            },
            None => {},
        }
        let ghost t0 = client.trk();
        let obj_count = me.initial_objects.len();
        proof {
            crate::json::lemma_view_items_len(me.initial_objects@);
            assert(objs.subrange(0, 0) =~= Seq::<JsonV>::empty());
            assert(crate::tracker::tracker_unchanged(t0, client.trk()));
        }
        let mut j: usize = 0;
        while j < obj_count
            invariant
                0 <= j <= obj_count,
                obj_count == me.initial_objects@.len(),
                objs == crate::json::view_items(me.initial_objects@),
                objs.len() == obj_count,
                client.trk().wf(),
                client.trk().rv() <= j,
                client.keeps_managed_fields() == me.keeps_managed_fields(),
                forall|k: int|
                    0 <= k < sk.len() ==> client.trk().spec_has_status(#[trigger] sk[k]),
                spec_build_post(t0, client.trk(), objs.subrange(0, j as int)),
            decreases obj_count - j,
        {
            proof {
                crate::json::lemma_view_items_index(me.initial_objects@, j as int);
            }
            let obj = me.initial_objects[j].duplicate();
            let ghost objv = obj@;
            let gvk = match extract_gvk(&obj) {
                Ok(g) => g,
                Err(e) => {
                    proof {
                        assert(!spec_seed_gate_ok(objs[j as int]));
                    }
                    return Err(e);
                },
            };
            let resource = pluralize(gvk.kind.as_str());
            let gvr = GVR::new(gvk.group.as_str(), gvk.version.as_str(), resource.as_str());
            let namespace = match obj.get("metadata") {
                Some(m) => match crate::tracker::str_opt(m, "namespace") {
                    Some(ns) => ns,
                    None => "default".to_owned(),
                },
                None => "default".to_owned(),
            };
            proof {
                assert(gvk@ == spec_seed_gvk(objv));
                assert(gvr@ == spec_seed_gvr(spec_seed_gvk(objv)));
                assert(namespace@ == spec_seed_ns(objv));
            }
            let ghost prev = client.trk();
            match client.seed(&gvr, &gvk, obj, namespace.as_str()) {
                Ok(seeded) => {
                    proof {
                        let (now0, uid0) = choose|now: Seq<char>, uid: Seq<char>|
                            #[trigger] crate::tracker::spec_add_ok(
                                prev,
                                client.trk(),
                                gvr@,
                                gvk@,
                                objv,
                                namespace@,
                                seeded@,
                                now,
                                uid,
                            );
                        lemma_build_post_snoc(
                            t0,
                            prev,
                            client.trk(),
                            objs.subrange(0, j as int),
                            objv,
                            seeded@,
                            now0,
                            uid0,
                        );
                        assert(objs.subrange(0, j as int + 1) =~= objs.subrange(
                            0,
                            j as int,
                        ).push(objv));
                    }
                },
                Err(e) => {
                    proof {
                        assert(client.trk().rv() < u64::MAX);
                        assert(!spec_seed_gate_ok(objs[j as int]));
                    }
                    let status = e.to_status();
                    let mut msg: String = "Failed to add initial object: ".to_owned();
                    msg.append(status.message.as_str());
                    return Err(Error::Internal(msg));
                },
            }
            j = j + 1;
        }
        proof {
            assert(objs.subrange(0, obj_count as int) =~= objs);
        }
        Ok(client)
    }
}

} // verus!

verus! {

/// Whether a seeded document passes the seeding gates regardless of the
/// store it lands in: it names a kind, carries parsable metadata with a
/// name, and does not ask for deletion without finalizers.
pub open spec fn spec_seed_gate_ok(obj: JsonV) -> bool {
    &&& crate::client_utils::spec_extract_gvk(obj) is Some
    &&& crate::tracker::spec_meta_of(obj) is Some
    &&& crate::tracker::spec_obj_name(obj) is Some
    &&& !crate::meta::spec_should_be_deleted(
        match crate::tracker::spec_meta_of(obj) {
            Option::Some(m) => m,
            Option::None => JsonV::Null,
        },
    )
}

/// The kind a seeded document names.
pub open spec fn spec_seed_gvk(obj: JsonV) -> crate::tracker::GvkV {
    match crate::client_utils::spec_extract_gvk(obj) {
        Option::Some(g) => g,
        Option::None => crate::tracker::GvkV {
            group: Seq::empty(),
            version: Seq::empty(),
            kind: Seq::empty(),
        },
    }
}

/// What a built store looks like after seeding a list of documents, in
/// order: each one went through the tracker's seeding write, into the
/// resource its kind pluralizes to and the namespace it names (or
/// `default`).
pub open spec fn spec_build_post(
    pre: crate::tracker::ObjectTracker,
    post: crate::tracker::ObjectTracker,
    objs: Seq<JsonV>,
) -> bool
    decreases objs.len(),
{
    if objs.len() == 0 {
        crate::tracker::tracker_unchanged(pre, post)
    } else {
        exists|mid: crate::tracker::ObjectTracker, d: JsonV, now: Seq<char>, uid: Seq<char>|
            #[trigger] crate::tracker::spec_add_ok(
                pre,
                mid,
                spec_seed_gvr(spec_seed_gvk(objs[0])),
                spec_seed_gvk(objs[0]),
                objs[0],
                spec_seed_ns(objs[0]),
                d,
                now,
                uid,
            ) && spec_build_post(mid, post, objs.drop_first())
    }
}

/// The seeding chain grows one document at a time.
proof fn lemma_build_post_snoc(
    t0: crate::tracker::ObjectTracker,
    mid: crate::tracker::ObjectTracker,
    post: crate::tracker::ObjectTracker,
    objs: Seq<JsonV>,
    x: JsonV,
    d: JsonV,
    now: Seq<char>,
    uid: Seq<char>,
)
    requires
        spec_build_post(t0, mid, objs),
        crate::tracker::spec_add_ok(
            mid,
            post,
            spec_seed_gvr(spec_seed_gvk(x)),
            spec_seed_gvk(x),
            x,
            spec_seed_ns(x),
            d,
            now,
            uid,
        ),
    ensures
        spec_build_post(t0, post, objs.push(x)),
    decreases objs.len(),
{
    let grown = objs.push(x);
    assert(grown[0] == if objs.len() == 0 {
        x
    } else {
        objs[0]
    });
    if objs.len() == 0 {
        assert(crate::tracker::tracker_unchanged(t0, mid));
        assert(crate::tracker::spec_add_ok(
            t0,
            post,
            spec_seed_gvr(spec_seed_gvk(x)),
            spec_seed_gvk(x),
            x,
            spec_seed_ns(x),
            d,
            now,
            uid,
        ));
        assert(grown.drop_first() =~= Seq::<JsonV>::empty());
        assert(crate::tracker::tracker_unchanged(post, post));
        assert(spec_build_post(post, post, grown.drop_first()));
    } else {
        let (m1, d1, now1, uid1) = choose|
            m1: crate::tracker::ObjectTracker,
            d1: JsonV,
            now1: Seq<char>,
            uid1: Seq<char>,
        |
            #[trigger] crate::tracker::spec_add_ok(
                t0,
                m1,
                spec_seed_gvr(spec_seed_gvk(objs[0])),
                spec_seed_gvk(objs[0]),
                objs[0],
                spec_seed_ns(objs[0]),
                d1,
                now1,
                uid1,
            ) && spec_build_post(m1, mid, objs.drop_first());
        lemma_build_post_snoc(m1, mid, post, objs.drop_first(), x, d, now, uid);
        assert(grown.drop_first() =~= objs.drop_first().push(x));
        assert(spec_build_post(m1, post, grown.drop_first()));
    }
}

} // verus!
