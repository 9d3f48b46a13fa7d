//! The object tracker: a typed, multi-tenant, versioned in-memory store
//! with optimistic concurrency and status-subresource isolation.
//!
//! The store maps `(resource, namespace, name)` to a stored object. A
//! single counter produces every new `resourceVersion`; the versions a
//! store hands out are strictly increasing and never reused.

use crate::error::Error;
use crate::json::{Json, JsonV, spec_get, spec_set, spec_remove};
use crate::meta::{
    spec_absent, spec_ensure_meta, spec_field, spec_int_field, spec_should_be_deleted,
    spec_str_field,
};
use crate::strutil::{spec_dec, str_eq, u64_to_string};
use vstd::prelude::*;
use vstd::string::*;

verus! {

/// A group, version and resource (plural) triple: the URL-facing name.
#[derive(Debug)]
pub struct GVR {
    pub group: String,
    pub version: String,
    pub resource: String,
}

/// The mathematical value of a [`GVR`].
pub struct GvrV {
    pub group: Seq<char>,
    pub version: Seq<char>,
    pub resource: Seq<char>,
}

impl View for GVR {
    type V = GvrV;

    open spec fn view(&self) -> GvrV {
        GvrV { group: self.group@, version: self.version@, resource: self.resource@ }
    }
}

impl GVR {
    pub fn new(group: &str, version: &str, resource: &str) -> (r: GVR)
        ensures
            r@ == (GvrV { group: group@, version: version@, resource: resource@ }),
    {
        GVR { group: group.to_owned(), version: version.to_owned(), resource: resource.to_owned() }
    }

    /// A copy with the same components.
    pub fn duplicate(&self) -> (r: GVR)
        ensures
            r@ == self@,
    {
        GVR {
            group: self.group.clone(),
            version: self.version.clone(),
            resource: self.resource.clone(),
        }
    }

    /// The not-found error for an object of this resource.
    pub fn not_found_error(&self, namespace: &str, name: &str) -> (r: Error)
        ensures
            r matches Error::NotFound { kind, name: n, namespace: ns } && kind@ == self@.resource
                && n@ == name@ && ns@ == namespace@,
    {
        Error::NotFound {
            kind: self.resource.clone(),
            name: name.to_owned(),
            namespace: namespace.to_owned(),
        }
    }
}

/// A group, version and kind triple: the identity of an API type.
#[derive(Debug)]
pub struct GVK {
    pub group: String,
    pub version: String,
    pub kind: String,
}

/// The mathematical value of a [`GVK`].
pub struct GvkV {
    pub group: Seq<char>,
    pub version: Seq<char>,
    pub kind: Seq<char>,
}

impl View for GVK {
    type V = GvkV;

    open spec fn view(&self) -> GvkV {
        GvkV { group: self.group@, version: self.version@, kind: self.kind@ }
    }
}

impl GVK {
    pub fn new(group: &str, version: &str, kind: &str) -> (r: GVK)
        ensures
            r@ == (GvkV { group: group@, version: version@, kind: kind@ }),
    {
        GVK { group: group.to_owned(), version: version.to_owned(), kind: kind.to_owned() }
    }

    /// A copy with the same components.
    pub fn duplicate(&self) -> (r: GVK)
        ensures
            r@ == self@,
    {
        GVK { group: self.group.clone(), version: self.version.clone(), kind: self.kind.clone() }
    }
}

/// Whether two resource triples agree.
pub fn gvr_eq(a: &GVR, b: &GVR) -> (r: bool)
    ensures
        r == (a@ == b@),
{
    str_eq(a.group.as_str(), b.group.as_str()) && str_eq(a.version.as_str(), b.version.as_str())
        && str_eq(a.resource.as_str(), b.resource.as_str())
}

/// Whether two kind triples agree.
pub fn gvk_eq(a: &GVK, b: &GVK) -> (r: bool)
    ensures
        r == (a@ == b@),
{
    str_eq(a.group.as_str(), b.group.as_str()) && str_eq(a.version.as_str(), b.version.as_str())
        && str_eq(a.kind.as_str(), b.kind.as_str())
}

/// One stored object and its place in the store.
#[derive(Debug)]
pub struct StoredObject {
    pub gvr: GVR,
    pub namespace: String,
    pub name: String,
    pub gvk: GVK,
    pub data: Json,
}

/// The mathematical value of a stored object.
pub struct StoredV {
    pub gvr: GvrV,
    pub namespace: Seq<char>,
    pub name: Seq<char>,
    pub gvk: GvkV,
    pub data: JsonV,
}

impl View for StoredObject {
    type V = StoredV;

    open spec fn view(&self) -> StoredV {
        StoredV {
            gvr: self.gvr@,
            namespace: self.namespace@,
            name: self.name@,
            gvk: self.gvk@,
            data: self.data@,
        }
    }
}

/// The index of the entry with the given key, or `-1`.
pub open spec fn find_idx(s: Seq<StoredV>, gvr: GvrV, ns: Seq<char>, name: Seq<char>) -> int
    decreases s.len(),
{
    if s.len() == 0 {
        -1
    } else if s[0].gvr == gvr && s[0].namespace == ns && s[0].name == name {
        0
    } else {
        let r = find_idx(s.drop_first(), gvr, ns, name);
        if r == -1 {
            -1
        } else {
            r + 1
        }
    }
}

/// The entry with the given key, if any.
pub open spec fn spec_find(s: Seq<StoredV>, gvr: GvrV, ns: Seq<char>, name: Seq<char>) -> Option<
    StoredV,
> {
    let i = find_idx(s, gvr, ns, name);
    if i == -1 {
        None
    } else {
        Some(s[i])
    }
}

/// The store with the given entry written: it replaces the entry with the
/// same key, or stands at the end when the key is new.
pub open spec fn spec_upsert(s: Seq<StoredV>, e: StoredV) -> Seq<StoredV> {
    let i = find_idx(s, e.gvr, e.namespace, e.name);
    if i == -1 {
        s.push(e)
    } else {
        s.update(i, e)
    }
}

/// The index found is in range and carries the key; `-1` means no entry
/// carries it.
pub proof fn lemma_find_idx(s: Seq<StoredV>, gvr: GvrV, ns: Seq<char>, name: Seq<char>)
    ensures
        find_idx(s, gvr, ns, name) == -1 ==> forall|i: int|
            0 <= i < s.len() ==> !((#[trigger] s[i]).gvr == gvr && s[i].namespace == ns && s[i].name
                == name),
        find_idx(s, gvr, ns, name) != -1 ==> {
            let i = find_idx(s, gvr, ns, name);
            &&& 0 <= i < s.len()
            &&& s[i].gvr == gvr
            &&& s[i].namespace == ns
            &&& s[i].name == name
            &&& forall|j: int|
                0 <= j < i ==> !((#[trigger] s[j]).gvr == gvr && s[j].namespace == ns && s[j].name
                    == name)
        },
    decreases s.len(),
{
    if s.len() > 0 {
        if !(s[0].gvr == gvr && s[0].namespace == ns && s[0].name == name) {
            let tail = s.drop_first();
            lemma_find_idx(tail, gvr, ns, name);
            let r = find_idx(tail, gvr, ns, name);
            if r == -1 {
                assert forall|i: int|
                    0 <= i < s.len() implies !((#[trigger] s[i]).gvr == gvr && s[i].namespace == ns
                    && s[i].name == name) by {
                    if i > 0 {
                        assert(s[i] == tail[i - 1]);
                    }
                }
            } else {
                assert(s[r + 1] == tail[r]);
                assert forall|j: int|
                    0 <= j < r + 1 implies !((#[trigger] s[j]).gvr == gvr && s[j].namespace == ns
                    && s[j].name == name) by {
                    if j > 0 {
                        assert(s[j] == tail[j - 1]);
                    }
                }
            }
        }
    }
}

/// The object tracker: the in-memory versioned store.
pub struct ObjectTracker {
    entries: Vec<StoredObject>,
    status_gvks: Vec<GVK>,
    rv_counter: u64,
    assigned: Ghost<Seq<u64>>,
}

impl ObjectTracker {
    /// The stored objects, in the order their keys first entered the store.
    pub closed spec fn store(&self) -> Seq<StoredV> {
        self.entries@.map_values(|e: StoredObject| e@)
    }

    /// The kinds whose status subresource is enabled.
    pub closed spec fn status_set(&self) -> Seq<GvkV> {
        self.status_gvks@.map_values(|g: GVK| g@)
    }

    /// Whether the status subresource is enabled for a kind.
    pub open spec fn spec_has_status(&self, gvk: GvkV) -> bool {
        self.status_set().contains(gvk)
    }

    /// The value of the resource-version counter.
    pub closed spec fn rv(&self) -> u64 {
        self.rv_counter
    }

    /// Every resource version this store has handed out, in the order the
    /// writes committed.
    pub closed spec fn assigned_rvs(&self) -> Seq<u64> {
        self.assigned@
    }

    /// The store's invariant: keys are unique, and the handed-out resource
    /// versions are positive, strictly increasing and bounded by the
    /// counter.
    pub open spec fn wf(&self) -> bool {
        &&& forall|i: int, j: int|
            0 <= i < j < self.store().len() ==> !((#[trigger] self.store()[i]).gvr
                == (#[trigger] self.store()[j]).gvr && self.store()[i].namespace
                == self.store()[j].namespace && self.store()[i].name == self.store()[j].name)
        &&& forall|i: int, j: int|
            0 <= i < j < self.assigned_rvs().len() ==> self.assigned_rvs()[i]
                < self.assigned_rvs()[j]
        &&& forall|i: int| 0 <= i < self.assigned_rvs().len() ==> 0
            < #[trigger] self.assigned_rvs()[i] <= self.rv()
    }

    /// A fresh, empty store whose first handed-out resource version will
    /// be `"1"`.
    pub fn new() -> (r: ObjectTracker)
        ensures
            r.wf(),
            r.store() == Seq::<StoredV>::empty(),
            r.status_set() == Seq::<GvkV>::empty(),
            r.rv() == 0,
            r.assigned_rvs() == Seq::<u64>::empty(),
    {
        let r = ObjectTracker {
            entries: Vec::new(),
            status_gvks: Vec::new(),
            rv_counter: 0,
            assigned: Ghost(Seq::empty()),
        };
        proof {
            assert(r.store() =~= Seq::<StoredV>::empty());
            assert(r.status_set() =~= Seq::<GvkV>::empty());
        }
        r
    }

    /// Enable the status subresource for a kind.
    pub fn add_status_subresource(&mut self, gvk: GVK)
        ensures
            final(self).store() == old(self).store(),
            final(self).rv() == old(self).rv(),
            final(self).assigned_rvs() == old(self).assigned_rvs(),
            forall|g: GvkV|
                final(self).spec_has_status(g) == (old(self).spec_has_status(g) || g == gvk@),
            old(self).wf() ==> final(self).wf(),
    {
        let ghost old_set = self.status_set();
        let ghost gv = gvk@;
        self.status_gvks.push(gvk);
        proof {
            assert(self.store() =~= old(self).store());
            assert(self.status_set() =~= old_set.push(gv));
            assert forall|g: GvkV|
                self.spec_has_status(g) == (old_set.contains(g) || g == gv) by {
                if self.status_set().contains(g) {
                    let i = choose|i: int|
                        0 <= i < self.status_set().len() && self.status_set()[i] == g;
                    if i < old_set.len() {
                        assert(old_set.contains(g));
                    }
                }
                if old_set.contains(g) {
                    let i = choose|i: int| 0 <= i < old_set.len() && old_set[i] == g;
                    assert(self.status_set()[i] == g);
                }
                if g == gv {
                    assert(self.status_set()[old_set.len() as int] == g);
                }
            }
            if old(self).wf() {
                assert(self.assigned_rvs() == old(self).assigned_rvs());
                assert(self.rv() == old(self).rv());
                assert(forall|i: int, j: int|
                    0 <= i < j < self.store().len() ==> !((#[trigger] self.store()[i]).gvr
                        == (#[trigger] self.store()[j]).gvr && self.store()[i].namespace
                        == self.store()[j].namespace && self.store()[i].name
                        == self.store()[j].name));
                assert(forall|i: int, j: int|
                    0 <= i < j < self.assigned_rvs().len() ==> self.assigned_rvs()[i]
                        < self.assigned_rvs()[j]);
                assert(forall|i: int|
                    0 <= i < self.assigned_rvs().len() ==> 0 < #[trigger] self.assigned_rvs()[i]
                        <= self.rv());
                assert(self.wf());
            }
        }
    }

    /// Whether the status subresource is enabled for a kind.
    pub fn has_status_subresource(&self, gvk: &GVK) -> (r: bool)
        ensures
            r == self.spec_has_status(gvk@),
    {
        let n = self.status_gvks.len();
        let mut i: usize = 0;
        while i < n
            invariant
                0 <= i <= n,
                n == self.status_gvks@.len(),
                forall|k: int| 0 <= k < i ==> #[trigger] self.status_set()[k] != gvk@,
            decreases n - i,
        {
            if gvk_eq(&self.status_gvks[i], gvk) {
                assert(self.status_set()[i as int] == gvk@);
                return true;
            }
            i = i + 1;
        }
        proof {
            if self.status_set().contains(gvk@) {
                let k = choose|k: int|
                    0 <= k < self.status_set().len() && self.status_set()[k] == gvk@;
                assert(self.status_set()[k] != gvk@);
            }
        }
        false
    }

    /// The index of the entry with the given key, if it is in the store.
    #[verifier::loop_isolation(false)]
    fn find_entry(&self, gvr: &GVR, namespace: &str, name: &str) -> (r: Option<usize>)
        ensures
            match r {
                Some(i) => i < self.store().len() && find_idx(
                    self.store(),
                    gvr@,
                    namespace@,
                    name@,
                ) == i as int,
                None => find_idx(self.store(), gvr@, namespace@, name@) == -1,
            },
    {
        let n = self.entries.len();
        let mut i: usize = 0;
        while i < n
            invariant
                0 <= i <= n,
                forall|k: int|
                    0 <= k < i ==> !((#[trigger] self.store()[k]).gvr == gvr@
                        && self.store()[k].namespace == namespace@ && self.store()[k].name
                        == name@),
            decreases n - i,
        {
            let e = &self.entries[i];
            if gvr_eq(&e.gvr, gvr) && str_eq(e.namespace.as_str(), namespace) && str_eq(
                e.name.as_str(),
                name,
            ) {
                proof {
                    lemma_find_idx(self.store(), gvr@, namespace@, name@);
                    assert(self.store()[i as int].gvr == gvr@);
                    if find_idx(self.store(), gvr@, namespace@, name@) == -1 {
                        assert(false);
                    }
                    let fi = find_idx(self.store(), gvr@, namespace@, name@);
                    if fi < i as int {
                        assert(false);
                    }
                    if fi > i as int {
                        assert(!(self.store()[i as int].gvr == gvr@ && self.store()[
                            i as int].namespace == namespace@ && self.store()[i as int].name
                            == name@));
                        assert(false);
                    }
                }
                return Some(i);
            }
            i = i + 1;
        }
        proof {
            lemma_find_idx(self.store(), gvr@, namespace@, name@);
            if find_idx(self.store(), gvr@, namespace@, name@) != -1 {
                assert(false);
            }
        }
        None
    }

    /// Look an object up and hand out a copy of it; absent objects are
    /// `NotFound`.
    pub fn get(&self, gvr: &GVR, namespace: &str, name: &str) -> (r: Result<Json, Error>)
        ensures
            match r {
                Ok(obj) => spec_find(self.store(), gvr@, namespace@, name@) matches Some(e)
                    && obj@ == e.data,
                Err(e) => spec_find(self.store(), gvr@, namespace@, name@) is None && (
                e matches Error::NotFound { kind, name: n, namespace: ns } && kind@ == gvr@.resource
                    && n@ == name@ && ns@ == namespace@),
            },
    {
        match self.find_entry(gvr, namespace, name) {
            Some(i) => Ok(self.entries[i].data.duplicate()),
            None => Err(gvr.not_found_error(namespace, name)),
        }
    }

    /// Remove an object and hand back its stored value; absent objects are
    /// `NotFound`.
    pub fn delete(&mut self, gvr: &GVR, namespace: &str, name: &str) -> (r: Result<Json, Error>)
        ensures
            match r {
                Ok(obj) => {
                    let i = find_idx(old(self).store(), gvr@, namespace@, name@);
                    &&& spec_find(old(self).store(), gvr@, namespace@, name@) matches Some(e)
                        && obj@ == e.data
                    &&& final(self).store() == old(self).store().subrange(0, i) + old(
                        self,
                    ).store().subrange(i + 1, old(self).store().len() as int)
                },
                Err(e) => {
                    &&& spec_find(old(self).store(), gvr@, namespace@, name@) is None
                    &&& final(self).store() == old(self).store()
                    &&& e matches Error::NotFound { kind, name: n, namespace: ns } && kind@
                        == gvr@.resource && n@ == name@ && ns@ == namespace@
                },
            },
            final(self).rv() == old(self).rv(),
            final(self).assigned_rvs() == old(self).assigned_rvs(),
            final(self).status_set() == old(self).status_set(),
            old(self).wf() ==> final(self).wf(),
    {
        match self.find_entry(gvr, namespace, name) {
            Some(i) => {
                let ghost old_store = self.store();
                let e = self.entries.remove(i);
                proof {
                    assert(self.store() =~= old_store.subrange(0, i as int) + old_store.subrange(
                        i as int + 1,
                        old_store.len() as int,
                    ));
                    if old(self).wf() {
                        assert forall|a: int, b: int|
                            0 <= a < b < self.store().len() implies !((#[trigger] self.store()[
                        a]).gvr == (#[trigger] self.store()[b]).gvr && self.store()[a].namespace
                            == self.store()[b].namespace && self.store()[a].name == self.store()[
                        b].name) by {
                            let a0 = if a < i as int {
                                a
                            } else {
                                a + 1
                            };
                            let b0 = if b < i as int {
                                b
                            } else {
                                b + 1
                            };
                            assert(self.store()[a] == old_store[a0]);
                            assert(self.store()[b] == old_store[b0]);
                        }
                        assert(self.assigned_rvs() == old(self).assigned_rvs());
                        assert(self.rv() == old(self).rv());
                        assert(self.wf());
                    }
                }
                Ok(e.data)
            },
            None => Err(gvr.not_found_error(namespace, name)),
        }
    }

    /// The objects of one resource, in store order: those of the given
    /// namespace, or of all namespaces. An empty store gives an empty
    /// list, never an error.
    #[verifier::loop_isolation(false)]
    pub fn list(&self, gvr: &GVR, namespace: Option<&str>) -> (r: Vec<Json>)
        ensures
            crate::json::view_items(r@) == spec_list(
                self.store(),
                gvr@,
                match namespace {
                    Some(ns) => Some(ns@),
                    None => None,
                },
            ),
    {
        broadcast use crate::json::group_json_view_axioms;

        let ghost nsv: Option<Seq<char>> = match namespace {
            Some(ns) => Some(ns@),
            None => None,
        };
        let mut out: Vec<Json> = Vec::new();
        let n = self.entries.len();
        let mut i: usize = 0;
        while i < n
            invariant
                0 <= i <= n,
                crate::json::view_items(out@) =~= spec_list(
                    self.store().subrange(0, i as int),
                    gvr@,
                    nsv,
                ),
            decreases n - i,
        {
            let e = &self.entries[i];
            let ghost pre = self.store().subrange(0, i as int);
            proof {
                assert(self.store().subrange(0, i as int + 1) =~= pre.push(self.store()[i as int]));
                lemma_spec_list_push(pre, self.store()[i as int], gvr@, nsv);
            }
            let take = gvr_eq(&e.gvr, gvr) && (match namespace {
                Some(ns) => str_eq(e.namespace.as_str(), ns),
                None => true,
            });
            if take {
                let ghost old_out = out@;
                out.push(e.data.duplicate());
                proof {
                    assert(crate::json::view_items(out@) =~= crate::json::view_items(
                        old_out,
                    ).push(self.store()[i as int].data));
                }
            }
            i = i + 1;
        }
        proof {
            assert(self.store().subrange(0, n as int) =~= self.store());
        }
        out
    }
}

/// Whether a stored entry belongs to a listing of a resource, over all
/// namespaces or one.
pub open spec fn spec_list_match(e: StoredV, gvr: GvrV, ns: Option<Seq<char>>) -> bool {
    e.gvr == gvr && match ns {
        Some(n) => e.namespace == n,
        None => true,
    }
}

/// The data of the entries of one resource, in store order.
pub open spec fn spec_list(s: Seq<StoredV>, gvr: GvrV, ns: Option<Seq<char>>) -> Seq<JsonV>
    decreases s.len(),
{
    if s.len() == 0 {
        Seq::empty()
    } else {
        let rest = spec_list(s.drop_last(), gvr, ns);
        if spec_list_match(s.last(), gvr, ns) {
            rest.push(s.last().data)
        } else {
            rest
        }
    }
}

proof fn lemma_spec_list_push(s: Seq<StoredV>, e: StoredV, gvr: GvrV, ns: Option<Seq<char>>)
    ensures
        spec_list(s.push(e), gvr, ns) == if spec_list_match(e, gvr, ns) {
            spec_list(s, gvr, ns).push(e.data)
        } else {
            spec_list(s, gvr, ns)
        },
{
    assert(s.push(e).drop_last() =~= s);
    assert(s.push(e).last() == e);
}

} // verus!

verus! {

/// Whether the finalizer list of a metadata object is well formed: absent,
/// or an array of strings.
pub open spec fn spec_finalizers_ok(m: JsonV) -> bool {
    match spec_field(m, "finalizers"@) {
        Option::None => true,
        Option::Some(JsonV::Arr(items)) => forall|i: int|
            0 <= i < items.len() ==> (#[trigger] items[i]) is Str,
        Option::Some(_) => false,
    }
}

/// Whether a metadata subtree parses: it is an object whose known fields
/// carry the right types.
pub open spec fn spec_meta_ok(m: JsonV) -> bool {
    &&& m is Obj
    &&& spec_str_field(m, "name"@) is Ok
    &&& spec_str_field(m, "namespace"@) is Ok
    &&& spec_str_field(m, "uid"@) is Ok
    &&& spec_str_field(m, "resourceVersion"@) is Ok
    &&& spec_str_field(m, "creationTimestamp"@) is Ok
    &&& spec_str_field(m, "deletionTimestamp"@) is Ok
    &&& spec_int_field(m, "generation"@) is Ok
    &&& spec_finalizers_ok(m)
}

/// The metadata subtree of a document, when the document has one that
/// parses.
pub open spec fn spec_meta_of(obj: JsonV) -> Option<JsonV> {
    match spec_get(obj, "metadata"@) {
        Option::Some(m) => if spec_meta_ok(m) {
            Option::Some(m)
        } else {
            Option::None
        },
        Option::None => Option::None,
    }
}

/// Extract the metadata subtree of an object; a missing or malformed
/// `metadata` field is a metadata error.
#[verifier::loop_isolation(false)]
fn extract_meta(obj: &Json) -> (r: Result<Json, Error>)
    ensures
        match r {
            Ok(m) => spec_meta_of(obj@) == Some(m@),
            Err(e) => spec_meta_of(obj@) is None && e is MetadataError,
        },
{
    let m = match obj.get("metadata") {
        Some(m) => m,
        None => {
            return Err(Error::MetadataError("Object missing metadata field".to_owned()));
        },
    };
    if !m.is_object() {
        return Err(
            Error::MetadataError("Failed to parse metadata: metadata is not an object".to_owned()),
        );
    }
    if crate::meta::str_field(m, "name").is_err() || crate::meta::str_field(m, "namespace").is_err()
        || crate::meta::str_field(m, "uid").is_err() || crate::meta::str_field(
        m,
        "resourceVersion",
    ).is_err() || crate::meta::str_field(m, "creationTimestamp").is_err()
        || crate::meta::str_field(m, "deletionTimestamp").is_err() || crate::meta::int_field(
        m,
        "generation",
    ).is_err() {
        return Err(
            Error::MetadataError("Failed to parse metadata: unexpected field type".to_owned()),
        );
    }
    match crate::meta::opt_field(m, "finalizers") {
        None => {},
        Some(v) => match v {
            Json::Arr(items) => {
                proof {
                    crate::json::lemma_view_items_len(items@);
                }
                let n = items.len();
                let mut i: usize = 0;
                while i < n
                    invariant
                        0 <= i <= n,
                        n == items@.len(),
                        crate::json::view_items(items@).len() == n,
                        forall|k: int|
                            0 <= k < i ==> (#[trigger] crate::json::view_items(items@)[k]) is Str,
                    decreases n - i,
                {
                    proof {
                        crate::json::lemma_view_items_index(items@, i as int);
                    }
                    match &items[i] {
                        Json::Str(_) => {},
                        _ => {
                            proof {
                                assert(crate::json::view_items(items@)[i as int]
                                    == crate::json::json_view(items@[i as int]));
                                assert(!(crate::json::view_items(items@)[i as int] is Str));
                                if spec_finalizers_ok(m@) {
                                    let itemsv = crate::json::view_items(items@);
                                    assert(spec_field(m@, "finalizers"@) == Some(
                                        JsonV::Arr(itemsv),
                                    ));
                                    assert(itemsv[i as int] is Str);
                                    assert(false);
                                }
                            }
                            return Err(
                                Error::MetadataError(
                                    "Failed to parse metadata: unexpected finalizer type".to_owned(),
                                ),
                            );
                        },
                    }
                    i = i + 1;
                }
            },
            _ => {
                return Err(
                    Error::MetadataError(
                        "Failed to parse metadata: unexpected field type".to_owned(),
                    ),
                );
            },
        },
    }
    Ok(m.duplicate())
}

/// The text of a string field, read tolerantly: `None` for an absent,
/// `null` or differently typed field.
pub open spec fn spec_str_opt(m: JsonV, key: Seq<char>) -> Option<Seq<char>> {
    match spec_field(m, key) {
        Option::Some(JsonV::Str(s)) => Option::Some(s),
        _ => Option::None,
    }
}

/// Read a string field tolerantly.
pub(crate) fn str_opt(m: &Json, key: &str) -> (r: Option<String>)
    ensures
        match r {
            Some(s) => spec_str_opt(m@, key@) == Some(s@),
            None => spec_str_opt(m@, key@) is None,
        },
{
    match crate::meta::opt_field(m, key) {
        Some(v) => match v {
            Json::Str(s) => Some(s.clone()),
            _ => None,
        },
        None => None,
    }
}

/// The value of an integer field, read tolerantly.
pub open spec fn spec_int_opt(m: JsonV, key: Seq<char>) -> Option<int> {
    match spec_field(m, key) {
        Option::Some(JsonV::Int(n)) => Option::Some(n),
        _ => Option::None,
    }
}

/// Read an integer field tolerantly.
pub(crate) fn int_opt(m: &Json, key: &str) -> (r: Option<i64>)
    ensures
        match r {
            Some(n) => spec_int_opt(m@, key@) == Some(n as int),
            None => spec_int_opt(m@, key@) is None,
        },
{
    match crate::meta::opt_field(m, key) {
        Some(v) => match v {
            Json::Int(n) => Some(*n),
            _ => None,
        },
        None => None,
    }
}

/// A field carried over from another document: set where the source has
/// it, removed where it does not.
pub open spec fn spec_copy_field(m: JsonV, key: Seq<char>, v: Option<JsonV>) -> JsonV {
    match v {
        Option::Some(x) => spec_set(m, key, x),
        Option::None => spec_remove(m, key),
    }
}

/// Carry a field over from another document.
fn copy_field(m: Json, key: &str, v: Option<&Json>) -> (r: Json)
    ensures
        r@ == spec_copy_field(
            m@,
            key@,
            match v {
                Some(x) => Some(x@),
                None => None,
            },
        ),
{
    match v {
        Some(x) => m.set(key, x.duplicate()),
        None => m.remove(key),
    }
}

} // verus!

verus! {

/// Whether a write left every part of the store as it was.
pub open spec fn tracker_unchanged(pre: ObjectTracker, post: ObjectTracker) -> bool {
    &&& post.store() == pre.store()
    &&& post.status_set() == pre.status_set()
    &&& post.rv() == pre.rv()
    &&& post.assigned_rvs() == pre.assigned_rvs()
}

/// The document a seeding write stores: the caller's resource version is
/// kept when it is present and not empty, else the next one is assigned;
/// the server-set metadata fields are filled in.
pub open spec fn spec_seed_doc(
    obj: JsonV,
    assign: bool,
    rv_text: Seq<char>,
    ns: Seq<char>,
    now: Seq<char>,
    uid: Seq<char>,
) -> JsonV {
    let m = match spec_meta_of(obj) {
        Option::Some(m) => m,
        Option::None => JsonV::Null,
    };
    let m1 = if assign {
        spec_set(m, "resourceVersion"@, JsonV::Str(rv_text))
    } else {
        m
    };
    let m2 = spec_ensure_meta(m1, ns, now, uid);
    spec_set(obj, "metadata"@, m2)
}

/// The name field of a document's metadata, when the metadata parses.
pub open spec fn spec_obj_name(obj: JsonV) -> Option<Seq<char>> {
    match spec_meta_of(obj) {
        Option::Some(m) => match spec_str_field(m, "name"@) {
            Ok(n) => n,
            Err(_) => Option::None,
        },
        Option::None => Option::None,
    }
}

/// The resource version field of a document's metadata.
pub open spec fn spec_obj_rv(obj: JsonV) -> Option<Seq<char>> {
    match spec_meta_of(obj) {
        Option::Some(m) => match spec_str_field(m, "resourceVersion"@) {
            Ok(v) => v,
            Err(_) => Option::None,
        },
        Option::None => Option::None,
    }
}

/// Whether a seeding write keeps the caller's resource version.
pub open spec fn spec_seed_assigns(obj: JsonV) -> bool {
    match spec_obj_rv(obj) {
        Option::Some(v) => v.len() == 0,
        Option::None => true,
    }
}

/// What a successful seeding write did, for some observed timestamp and
/// fresh uid: the stored document, the store, the counter, the handed-out
/// resource versions and the status-subresource set.
pub open spec fn spec_add_ok(
    pre: ObjectTracker,
    post: ObjectTracker,
    gvr: GvrV,
    gvk: GvkV,
    obj: JsonV,
    ns: Seq<char>,
    r_doc: JsonV,
    now: Seq<char>,
    uid: Seq<char>,
) -> bool {
    let assign = spec_seed_assigns(obj);
    let rv_text = if assign {
        spec_dec((pre.rv() + 1) as nat)
    } else {
        match spec_obj_rv(obj) {
            Option::Some(v) => v,
            Option::None => Seq::empty(),
        }
    };
    let doc = spec_seed_doc(obj, assign, rv_text, ns, now, uid);
    let entry = StoredV {
        gvr: gvr,
        namespace: ns,
        name: match spec_obj_name(obj) {
            Option::Some(n) => n,
            Option::None => Seq::empty(),
        },
        gvk: gvk,
        data: doc,
    };
    &&& uid.len() == 36
    &&& r_doc == doc
    &&& post.store() == spec_upsert(pre.store(), entry)
    &&& post.rv() == pre.rv() + (if assign {
        1int
    } else {
        0int
    })
    &&& post.assigned_rvs() == (if assign {
        pre.assigned_rvs().push((pre.rv() + 1) as u64)
    } else {
        pre.assigned_rvs()
    })
    &&& forall|g: GvkV|
        post.spec_has_status(g) == (pre.spec_has_status(g) || (g == gvk && spec_get(
            doc,
            "status"@,
        ) is Some))
}

impl ObjectTracker {
    /// Seed the store with an object: the caller's `resourceVersion` is
    /// preserved when present and non-empty, server-set metadata fields are
    /// filled in, and an existing object with the same key is replaced. An
    /// object that asks for deletion without finalizers is rejected. The
    /// status subresource is auto-registered for the kind iff the stored
    /// document carries a top-level `status` field.
    pub fn add(&mut self, gvr: &GVR, gvk: &GVK, object: Json, namespace: &str) -> (r: Result<
        Json,
        Error,
    >)
        ensures
            old(self).wf() ==> final(self).wf(),
            spec_meta_of(object@) is None ==> (r matches Err(e) && e is MetadataError
                && tracker_unchanged(*old(self), *final(self))),
            spec_meta_of(object@) is Some && spec_obj_name(object@) is None ==> (r matches Err(e)
                && (e matches Error::InvalidRequest(msg) && msg@ == "Object name is required"@)
                && tracker_unchanged(*old(self), *final(self))),
            spec_meta_of(object@) matches Some(m) && spec_obj_name(object@) is Some
                && spec_should_be_deleted(m) ==> (r matches Err(e) && (
            e matches Error::InvalidRequest(msg) && msg@ == "refusing to add object "@
                + spec_obj_name(object@)->0
                + " with metadata.deletionTimestamp but no finalizers"@) && tracker_unchanged(
                *old(self),
                *final(self),
            )),
            spec_meta_of(object@) matches Some(m) && spec_obj_name(object@) is Some
                && !spec_should_be_deleted(m) && spec_seed_assigns(object@) && old(self).rv()
                == u64::MAX ==> (r matches Err(e) && e is Internal && tracker_unchanged(
                *old(self),
                *final(self),
            )),
            spec_meta_of(object@) matches Some(m) && spec_obj_name(object@) is Some
                && !spec_should_be_deleted(m) && (spec_seed_assigns(object@) ==> old(self).rv()
                < u64::MAX) ==> (r matches Ok(o) && (exists|now: Seq<char>, uid: Seq<char>|
                #[trigger] spec_add_ok(
                *old(self),
                *final(self),
                gvr@,
                gvk@,
                object@,
                namespace@,
                o@,
                now,
                uid,
            ))),
    {
        let m = match extract_meta(&object) {
            Ok(m) => m,
            Err(e) => {
                return Err(e);
            },
        };
        let name = match str_opt(&m, "name") {
            Some(n) => n,
            None => {
                return Err(Error::InvalidRequest("Object name is required".to_owned()));
            },
        };
        if crate::meta::should_be_deleted(&m) {
            let mut msg: String = "refusing to add object ".to_owned();
            msg.append(name.as_str());
            msg.append(" with metadata.deletionTimestamp but no finalizers");
            return Err(Error::InvalidRequest(msg));
        }
        let rv_o = str_opt(&m, "resourceVersion");
        let assign = match &rv_o {
            Some(v) => v.as_str().unicode_len() == 0,
            None => true,
        };
        if assign && self.rv_counter == u64::MAX {
            return Err(Error::Internal("resource version counter exhausted".to_owned()));
        }
        let m1 = if assign {
            self.rv_counter = self.rv_counter + 1;
            self.assigned = Ghost(self.assigned@.push(self.rv_counter));
            m.set("resourceVersion", Json::Str(u64_to_string(self.rv_counter)))
        } else {
            m
        };
        let now = crate::meta::now_timestamp();
        let uid = crate::meta::new_uid();
        let m2 = crate::meta::ensure_metadata(m1, namespace, now.as_str(), uid.as_str());
        let doc = object.set("metadata", m2);
        let entry = StoredObject {
            gvr: gvr.duplicate(),
            namespace: namespace.to_owned(),
            name: name.clone(),
            gvk: gvk.duplicate(),
            data: doc.duplicate(),
        };
        let ghost pre_store = self.store();
        match self.find_entry(gvr, namespace, name.as_str()) {
            Some(i) => {
                let ghost ev = entry@;
                self.entries[i] = entry;
                proof {
                    assert(self.store() =~= spec_upsert(pre_store, ev));
                }
            },
            None => {
                let ghost ev = entry@;
                self.entries.push(entry);
                proof {
                    assert(self.store() =~= spec_upsert(pre_store, ev));
                }
            },
        }
        if doc.get("status").is_some() {
            if !self.has_status_subresource(gvk) {
                self.add_status_subresource(gvk.duplicate());
            }
        }
        proof {
            let assigned_new = assign;
            if old(self).wf() {
                lemma_find_idx(pre_store, gvr@, namespace@, name@);
                assert forall|a: int, b: int|
                    0 <= a < b < self.store().len() implies !((#[trigger] self.store()[a]).gvr
                    == (#[trigger] self.store()[b]).gvr && self.store()[a].namespace
                    == self.store()[b].namespace && self.store()[a].name
                    == self.store()[b].name) by {
                    let i = find_idx(pre_store, gvr@, namespace@, name@);
                    if i == -1 {
                        if b == pre_store.len() {
                            assert(self.store()[a] == pre_store[a]);
                        } else {
                            assert(self.store()[a] == pre_store[a]);
                            assert(self.store()[b] == pre_store[b]);
                        }
                    } else {
                        if a != i {
                            assert(self.store()[a] == pre_store[a]);
                        }
                        if b != i {
                            assert(self.store()[b] == pre_store[b]);
                        }
                        assert(self.store()[i].gvr == pre_store[i].gvr && self.store()[
                        i].namespace == pre_store[i].namespace && self.store()[i].name
                            == pre_store[i].name);
                    }
                }
                assert forall|i: int, j: int|
                    0 <= i < j < self.assigned_rvs().len() implies self.assigned_rvs()[i]
                    < self.assigned_rvs()[j] by {
                    if j < old(self).assigned_rvs().len() {
                        assert(old(self).assigned_rvs()[i] < old(self).assigned_rvs()[j]);
                    } else {
                        assert(0 < old(self).assigned_rvs()[i] <= old(self).rv());
                    }
                }
                assert forall|i: int|
                    0 <= i < self.assigned_rvs().len() implies 0 < #[trigger] self.assigned_rvs()[i]
                    <= self.rv() by {
                    if i < old(self).assigned_rvs().len() {
                        assert(0 < old(self).assigned_rvs()[i] <= old(self).rv());
                    }
                }
                assert(self.wf());
            }
            assert forall|g: GvkV|
                self.spec_has_status(g) == (old(self).spec_has_status(g) || (g == gvk@ && spec_get(
                    doc@,
                    "status"@,
                ) is Some)) by {}
            assert(spec_add_ok(
                *old(self),
                *self,
                gvr@,
                gvk@,
                object@,
                namespace@,
                doc@,
                now@,
                uid@,
            ));
        }
        Ok(doc)
    }
}

} // verus!

verus! {

/// The document a create stores: the next resource version, a fresh uid,
/// the creation time and generation one are assigned by the server, and
/// any deletion timestamp is cleared.
pub open spec fn spec_create_doc(
    obj: JsonV,
    rv_text: Seq<char>,
    ns: Seq<char>,
    now: Seq<char>,
    uid: Seq<char>,
) -> JsonV {
    let m = match spec_meta_of(obj) {
        Option::Some(m) => m,
        Option::None => JsonV::Null,
    };
    let m1 = spec_set(m, "resourceVersion"@, JsonV::Str(rv_text));
    let m2 = crate::meta::spec_ns_rule(m1, ns);
    let m3 = spec_set(m2, "creationTimestamp"@, JsonV::Str(now));
    let m4 = spec_set(m3, "uid"@, JsonV::Str(uid));
    let m5 = spec_set(m4, "generation"@, JsonV::Int(1));
    let m6 = spec_remove(m5, "deletionTimestamp"@);
    spec_set(obj, "metadata"@, m6)
}

/// What a successful create did, for some observed timestamp and fresh
/// uid.
pub open spec fn spec_create_ok(
    pre: ObjectTracker,
    post: ObjectTracker,
    gvr: GvrV,
    gvk: GvkV,
    obj: JsonV,
    ns: Seq<char>,
    r_doc: JsonV,
    now: Seq<char>,
    uid: Seq<char>,
) -> bool {
    let doc = spec_create_doc(obj, spec_dec((pre.rv() + 1) as nat), ns, now, uid);
    let entry = StoredV {
        gvr: gvr,
        namespace: ns,
        name: match spec_obj_name(obj) {
            Option::Some(n) => n,
            Option::None => Seq::empty(),
        },
        gvk: gvk,
        data: doc,
    };
    &&& uid.len() == 36
    &&& r_doc == doc
    &&& post.store() == pre.store().push(entry)
    &&& post.rv() == pre.rv() + 1
    &&& post.assigned_rvs() == pre.assigned_rvs().push((pre.rv() + 1) as u64)
    &&& forall|g: GvkV|
        post.spec_has_status(g) == (pre.spec_has_status(g) || (g == gvk && spec_get(
            doc,
            "status"@,
        ) is Some))
}

impl ObjectTracker {
    /// Create an object: the caller may not set a `resourceVersion`, the
    /// key must be new, the next resource version and the server-set
    /// metadata fields are assigned, and any deletion timestamp is
    /// cleared. The status subresource is auto-registered for the kind
    /// iff the stored document carries a top-level `status` field.
    pub fn create(&mut self, gvr: &GVR, gvk: &GVK, object: Json, namespace: &str) -> (r: Result<
        Json,
        Error,
    >)
        ensures
            old(self).wf() ==> final(self).wf(),
            spec_meta_of(object@) is None ==> (r matches Err(e) && e is MetadataError
                && tracker_unchanged(*old(self), *final(self))),
            spec_meta_of(object@) is Some && spec_obj_name(object@) is None ==> (r matches Err(e)
                && (e matches Error::InvalidRequest(msg) && msg@ == "Object name is required"@)
                && tracker_unchanged(*old(self), *final(self))),
            spec_meta_of(object@) is Some && spec_obj_name(object@) is Some && !spec_seed_assigns(
                object@,
            ) ==> (r matches Err(e) && (e matches Error::InvalidRequest(msg) && msg@
                == "resourceVersion can not be set for Create requests"@) && tracker_unchanged(
                *old(self),
                *final(self),
            )),
            spec_meta_of(object@) is Some && spec_obj_name(object@) is Some && spec_seed_assigns(
                object@,
            ) && spec_find(
                old(self).store(),
                gvr@,
                namespace@,
                spec_obj_name(object@)->0,
            ) is Some ==> (r matches Err(e) && (e matches Error::AlreadyExists {
                kind,
                name: n,
                namespace: ns,
            } && kind@ == gvr@.resource && n@ == spec_obj_name(object@)->0 && ns@ == namespace@)
                && tracker_unchanged(*old(self), *final(self))),
            spec_meta_of(object@) is Some && spec_obj_name(object@) is Some && spec_seed_assigns(
                object@,
            ) && spec_find(old(self).store(), gvr@, namespace@, spec_obj_name(object@)->0) is None
                && old(self).rv() == u64::MAX ==> (r matches Err(e) && e is Internal
                && tracker_unchanged(*old(self), *final(self))),
            spec_meta_of(object@) is Some && spec_obj_name(object@) is Some && spec_seed_assigns(
                object@,
            ) && spec_find(old(self).store(), gvr@, namespace@, spec_obj_name(object@)->0) is None
                && old(self).rv() < u64::MAX ==> (r matches Ok(o) && (exists|
                now: Seq<char>,
                uid: Seq<char>,
            |
                #[trigger] spec_create_ok(
                    *old(self),
                    *final(self),
                    gvr@,
                    gvk@,
                    object@,
                    namespace@,
                    o@,
                    now,
                    uid,
                ))),
    {
        let m = match extract_meta(&object) {
            Ok(m) => m,
            Err(e) => {
                return Err(e);
            },
        };
        let name = match str_opt(&m, "name") {
            Some(n) => n,
            None => {
                return Err(Error::InvalidRequest("Object name is required".to_owned()));
            },
        };
        let rv_o = str_opt(&m, "resourceVersion");
        let rv_empty = match &rv_o {
            Some(v) => v.as_str().unicode_len() == 0,
            None => true,
        };
        if !rv_empty {
            return Err(
                Error::InvalidRequest("resourceVersion can not be set for Create requests".to_owned()),
            );
        }
        match self.find_entry(gvr, namespace, name.as_str()) {
            Some(_) => {
                return Err(
                    Error::AlreadyExists {
                        kind: gvr.resource.clone(),
                        name: name.clone(),
                        namespace: namespace.to_owned(),
                    },
                );
            },
            None => {},
        }
        if self.rv_counter == u64::MAX {
            return Err(Error::Internal("resource version counter exhausted".to_owned()));
        }
        self.rv_counter = self.rv_counter + 1;
        self.assigned = Ghost(self.assigned@.push(self.rv_counter));
        let m1 = m.set("resourceVersion", Json::Str(u64_to_string(self.rv_counter)));
        let now = crate::meta::now_timestamp();
        let uid = crate::meta::new_uid();
        let m2 = crate::meta::ns_rule(m1, namespace);
        let m3 = m2.set("creationTimestamp", Json::string(now.as_str()));
        let m4 = m3.set("uid", Json::string(uid.as_str()));
        let m5 = m4.set("generation", Json::Int(1));
        let m6 = m5.remove("deletionTimestamp");
        let doc = object.set("metadata", m6);
        let entry = StoredObject {
            gvr: gvr.duplicate(),
            namespace: namespace.to_owned(),
            name: name.clone(),
            gvk: gvk.duplicate(),
            data: doc.duplicate(),
        };
        let ghost pre_store = self.store();
        let ghost ev = entry@;
        self.entries.push(entry);
        proof {
            assert(self.store() =~= pre_store.push(ev));
        }
        if doc.get("status").is_some() {
            if !self.has_status_subresource(gvk) {
                self.add_status_subresource(gvk.duplicate());
            }
        }
        proof {
            if old(self).wf() {
                lemma_find_idx(pre_store, gvr@, namespace@, name@);
                assert forall|a: int, b: int|
                    0 <= a < b < self.store().len() implies !((#[trigger] self.store()[a]).gvr
                    == (#[trigger] self.store()[b]).gvr && self.store()[a].namespace
                    == self.store()[b].namespace && self.store()[a].name
                    == self.store()[b].name) by {
                    if b == pre_store.len() {
                        assert(self.store()[a] == pre_store[a]);
                    } else {
                        assert(self.store()[a] == pre_store[a]);
                        assert(self.store()[b] == pre_store[b]);
                    }
                }
                assert forall|i: int, j: int|
                    0 <= i < j < self.assigned_rvs().len() implies self.assigned_rvs()[i]
                    < self.assigned_rvs()[j] by {
                    if j < old(self).assigned_rvs().len() {
                        assert(old(self).assigned_rvs()[i] < old(self).assigned_rvs()[j]);
                    } else {
                        assert(0 < old(self).assigned_rvs()[i] <= old(self).rv());
                    }
                }
                assert forall|i: int|
                    0 <= i < self.assigned_rvs().len() implies 0 < #[trigger] self.assigned_rvs()[i]
                    <= self.rv() by {
                    if i < old(self).assigned_rvs().len() {
                        assert(0 < old(self).assigned_rvs()[i] <= old(self).rv());
                    }
                }
                assert(self.wf());
            }
            assert(spec_create_ok(
                *old(self),
                *self,
                gvr@,
                gvk@,
                object@,
                namespace@,
                doc@,
                now@,
                uid@,
            ));
        }
        Ok(doc)
    }
}

} // verus!

verus! {

/// The metadata subtree of a stored document, or an empty object.
pub open spec fn spec_meta_or_empty(data: JsonV) -> JsonV {
    match spec_get(data, "metadata"@) {
        Option::Some(x) => x,
        Option::None => JsonV::Obj(Seq::empty()),
    }
}

/// Whether a caller-supplied resource version conflicts with the stored
/// one: both are present and the caller's is non-empty and different.
pub open spec fn spec_rv_conflict(m: JsonV, em: JsonV) -> bool {
    match (spec_str_opt(m, "resourceVersion"@), spec_str_opt(em, "resourceVersion"@)) {
        (Option::Some(p), Option::Some(c)) => p != c && p.len() > 0,
        _ => false,
    }
}

/// The generation after a non-status write: one more than the stored one,
/// or `1` where none is stored.
pub open spec fn spec_next_generation(em: JsonV) -> int {
    match spec_int_opt(em, "generation"@) {
        Option::Some(g) => g + 1,
        Option::None => 1,
    }
}

/// The metadata of an updated object: the next resource version, the
/// stored object's uid and creation timestamp, and the generation, which
/// steps up on a non-status write and is preserved on a status write.
pub open spec fn spec_update_meta(
    m: JsonV,
    em: JsonV,
    rv_text: Seq<char>,
    is_status: bool,
) -> JsonV {
    let m1 = spec_set(m, "resourceVersion"@, JsonV::Str(rv_text));
    let m2 = spec_copy_field(m1, "uid"@, spec_field(em, "uid"@));
    let m3 = spec_copy_field(m2, "creationTimestamp"@, spec_field(em, "creationTimestamp"@));
    if is_status {
        spec_copy_field(m3, "generation"@, spec_field(em, "generation"@))
    } else {
        spec_set(m3, "generation"@, JsonV::Int(spec_next_generation(em)))
    }
}

/// The caller's document after subresource isolation: with the status
/// subresource enabled, a non-status write keeps the stored `status`
/// subtree and a status write keeps the stored `spec` subtree, each
/// exactly — where the stored object has no such subtree, the caller's
/// is dropped.
pub open spec fn spec_isolated(
    obj: JsonV,
    existing: JsonV,
    has_status: bool,
    is_status: bool,
) -> JsonV {
    if has_status {
        if is_status {
            match spec_get(existing, "spec"@) {
                Option::Some(sp) => spec_set(obj, "spec"@, sp),
                Option::None => spec_remove(obj, "spec"@),
            }
        } else {
            match spec_get(existing, "status"@) {
                Option::Some(st) => spec_set(obj, "status"@, st),
                Option::None => spec_remove(obj, "status"@),
            }
        }
    } else {
        obj
    }
}

/// The document an update stores.
pub open spec fn spec_update_doc(
    obj: JsonV,
    existing: JsonV,
    has_status: bool,
    is_status: bool,
    rv_text: Seq<char>,
) -> JsonV {
    let obj1 = spec_isolated(obj, existing, has_status, is_status);
    let m = match spec_meta_of(obj) {
        Option::Some(m) => m,
        Option::None => JsonV::Null,
    };
    let em = spec_meta_or_empty(existing);
    spec_set(obj1, "metadata"@, spec_update_meta(m, em, rv_text, is_status))
}

/// How an update request is decided, in the order the checks run.
pub enum UpdateGate {
    /// The caller's metadata is missing or malformed.
    BadMeta,
    /// The caller's metadata has no name.
    NoName,
    /// No object with that key is stored.
    MissingObject,
    /// The caller's resource version does not match the stored one.
    StaleVersion,
    /// The resource-version counter is exhausted.
    Exhausted,
    /// The stored generation cannot step any higher.
    GenOverflow,
    /// The caller tried to change the deletion timestamp.
    DtChanged,
    /// The update commits and the finalizer-drain rule removes the object.
    Deleting,
    /// The update commits and the object is stored.
    Storing,
}

/// Decide an update request against a store state.
pub open spec fn spec_update_gate(
    pre: ObjectTracker,
    gvr: GvrV,
    obj: JsonV,
    ns: Seq<char>,
    is_status: bool,
) -> UpdateGate {
    if spec_meta_of(obj) is None {
        UpdateGate::BadMeta
    } else if spec_obj_name(obj) is None {
        UpdateGate::NoName
    } else {
        let m = match spec_meta_of(obj) {
            Option::Some(m) => m,
            Option::None => JsonV::Null,
        };
        let name = match spec_obj_name(obj) {
            Option::Some(n) => n,
            Option::None => Seq::empty(),
        };
        match spec_find(pre.store(), gvr, ns, name) {
            Option::None => UpdateGate::MissingObject,
            Option::Some(e) => {
                let em = spec_meta_or_empty(e.data);
                if spec_rv_conflict(m, em) {
                    UpdateGate::StaleVersion
                } else if pre.rv() == u64::MAX {
                    UpdateGate::Exhausted
                } else if !is_status && spec_int_opt(em, "generation"@) == Option::Some(
                    i64::MAX as int,
                ) {
                    UpdateGate::GenOverflow
                } else if spec_field(m, "deletionTimestamp"@) != spec_field(
                    em,
                    "deletionTimestamp"@,
                ) {
                    UpdateGate::DtChanged
                } else if spec_should_be_deleted(m) {
                    UpdateGate::Deleting
                } else {
                    UpdateGate::Storing
                }
            },
        }
    }
}

/// What a successful storing update did.
pub open spec fn spec_update_ok(
    pre: ObjectTracker,
    post: ObjectTracker,
    gvr: GvrV,
    gvk: GvkV,
    obj: JsonV,
    ns: Seq<char>,
    is_status: bool,
    r_doc: JsonV,
) -> bool {
    let name = match spec_obj_name(obj) {
        Option::Some(n) => n,
        Option::None => Seq::empty(),
    };
    let i = find_idx(pre.store(), gvr, ns, name);
    let e = pre.store()[i];
    let rv_text = spec_dec((pre.rv() + 1) as nat);
    let doc = spec_update_doc(obj, e.data, pre.spec_has_status(gvk), is_status, rv_text);
    let entry = StoredV { gvr: gvr, namespace: ns, name: name, gvk: gvk, data: doc };
    &&& r_doc == doc
    &&& post.store() == pre.store().update(i, entry)
    &&& post.rv() == pre.rv() + 1
    &&& post.assigned_rvs() == pre.assigned_rvs().push((pre.rv() + 1) as u64)
    &&& post.status_set() == pre.status_set()
}

/// What an update that drained the last finalizer did: the stored object
/// is removed and handed back.
pub open spec fn spec_update_deleted(
    pre: ObjectTracker,
    post: ObjectTracker,
    gvr: GvrV,
    obj: JsonV,
    ns: Seq<char>,
    r_doc: JsonV,
) -> bool {
    let name = match spec_obj_name(obj) {
        Option::Some(n) => n,
        Option::None => Seq::empty(),
    };
    let i = find_idx(pre.store(), gvr, ns, name);
    let e = pre.store()[i];
    &&& r_doc == e.data
    &&& post.store() == pre.store().subrange(0, i) + pre.store().subrange(
        i + 1,
        pre.store().len() as int,
    )
    &&& post.rv() == pre.rv() + 1
    &&& post.assigned_rvs() == pre.assigned_rvs()
    &&& post.status_set() == pre.status_set()
}

impl ObjectTracker {
    /// Replace a stored object. The caller's non-empty `resourceVersion`
    /// must match the stored one; the uid and creation timestamp are
    /// preserved; a non-status write steps the generation and, with the
    /// status subresource enabled, keeps the stored `status` subtree,
    /// while a status write preserves the generation and keeps the stored
    /// `spec` subtree; the deletion timestamp may not change; and an
    /// object whose deletion timestamp is set with no finalizers left is
    /// removed instead of stored.
    pub fn update(
        &mut self,
        gvr: &GVR,
        gvk: &GVK,
        object: Json,
        namespace: &str,
        is_status: bool,
    ) -> (r: Result<Json, Error>)
        ensures
            old(self).wf() ==> final(self).wf(),
            match spec_update_gate(*old(self), gvr@, object@, namespace@, is_status) {
                UpdateGate::BadMeta => r matches Err(e) && e is MetadataError && tracker_unchanged(
                    *old(self),
                    *final(self),
                ),
                UpdateGate::NoName => r matches Err(e) && (e matches Error::InvalidRequest(msg)
                    && msg@ == "Object name is required"@) && tracker_unchanged(
                    *old(self),
                    *final(self),
                ),
                UpdateGate::MissingObject => r matches Err(e) && (e matches Error::NotFound {
                    kind,
                    name: n,
                    namespace: ns,
                } && kind@ == gvr@.resource && n@ == spec_obj_name(object@)->0 && ns@ == namespace@)
                    && tracker_unchanged(*old(self), *final(self)),
                UpdateGate::StaleVersion => r matches Err(e) && e is Conflict && tracker_unchanged(
                    *old(self),
                    *final(self),
                ),
                UpdateGate::Exhausted => r matches Err(e) && e is Internal && tracker_unchanged(
                    *old(self),
                    *final(self),
                ),
                UpdateGate::GenOverflow => r matches Err(e) && e is Internal && tracker_unchanged(
                    *old(self),
                    *final(self),
                ),
                UpdateGate::DtChanged => r matches Err(e) && (e matches Error::InvalidRequest(msg)
                    && msg@ == "metadata.deletionTimestamp field is immutable"@)
                    && final(self).store() == old(self).store()
                    && final(self).status_set() == old(self).status_set()
                    && final(self).assigned_rvs() == old(self).assigned_rvs()
                    && final(self).rv() == old(self).rv() + 1,
                UpdateGate::Deleting => r matches Ok(o) && spec_update_deleted(
                    *old(self),
                    *final(self),
                    gvr@,
                    object@,
                    namespace@,
                    o@,
                ),
                UpdateGate::Storing => r matches Ok(o) && spec_update_ok(
                    *old(self),
                    *final(self),
                    gvr@,
                    gvk@,
                    object@,
                    namespace@,
                    is_status,
                    o@,
                ),
            },
    {
        let ghost gate = spec_update_gate(*old(self), gvr@, object@, namespace@, is_status);
        let m = match extract_meta(&object) {
            Ok(m) => m,
            Err(e) => {
                return Err(e);
            },
        };
        let name = match str_opt(&m, "name") {
            Some(n) => n,
            None => {
                return Err(Error::InvalidRequest("Object name is required".to_owned()));
            },
        };
        let i = match self.find_entry(gvr, namespace, name.as_str()) {
            Some(i) => i,
            None => {
                return Err(gvr.not_found_error(namespace, name.as_str()));
            },
        };
        let existing = self.entries[i].data.duplicate();
        let em = match existing.get("metadata") {
            Some(x) => x.duplicate(),
            None => Json::empty_object(),
        };
        proof {
            assert(em@ == spec_meta_or_empty(existing@));
        }
        let provided = str_opt(&m, "resourceVersion");
        let current = str_opt(&em, "resourceVersion");
        match (&provided, &current) {
            (Some(p), Some(c)) => {
                if !str_eq(p.as_str(), c.as_str()) && p.as_str().unicode_len() > 0 {
                    let mut msg: String = "Resource version mismatch: expected ".to_owned();
                    msg.append(c.as_str());
                    msg.append(", got ");
                    msg.append(p.as_str());
                    return Err(Error::Conflict(msg));
                }
            },
            _ => {},
        }
        if self.rv_counter == u64::MAX {
            return Err(Error::Internal("resource version counter exhausted".to_owned()));
        }
        let gen_existing = int_opt(&em, "generation");
        if !is_status {
            match &gen_existing {
                Some(g) => {
                    if *g == i64::MAX {
                        return Err(Error::Internal("generation counter exhausted".to_owned()));
                    }
                },
                None => {},
            }
        }
        let dt_new = crate::meta::opt_field(&m, "deletionTimestamp");
        let dt_old = crate::meta::opt_field(&em, "deletionTimestamp");
        if !crate::meta::deletion_timestamp_equal(dt_new, dt_old) {
            self.rv_counter = self.rv_counter + 1;
            return Err(
                Error::InvalidRequest("metadata.deletionTimestamp field is immutable".to_owned()),
            );
        }
        if crate::meta::should_be_deleted(&m) {
            self.rv_counter = self.rv_counter + 1;
            let r = self.delete(gvr, namespace, name.as_str());
            proof {
                assert(gate is Deleting);
            }
            return r;
        }
        self.rv_counter = self.rv_counter + 1;
        self.assigned = Ghost(self.assigned@.push(self.rv_counter));
        let has_status = self.has_status_subresource(gvk);
        let obj1 = if has_status {
            if is_status {
                match existing.get("spec") {
                    Some(sp) => {
                        let spd = sp.duplicate();
                        object.set("spec", spd)
                    },
                    None => object.remove("spec"),
                }
            } else {
                match existing.get("status") {
                    Some(st) => {
                        let std_ = st.duplicate();
                        object.set("status", std_)
                    },
                    None => object.remove("status"),
                }
            }
        } else {
            object
        };
        let m1 = m.set("resourceVersion", Json::Str(u64_to_string(self.rv_counter)));
        let m2 = copy_field(m1, "uid", crate::meta::opt_field(&em, "uid"));
        let m3 = copy_field(m2, "creationTimestamp", crate::meta::opt_field(&em, "creationTimestamp"));
        let m4 = if is_status {
            copy_field(m3, "generation", crate::meta::opt_field(&em, "generation"))
        } else {
            let g: i64 = match &gen_existing {
                Some(g) => *g + 1,
                None => 1,
            };
            m3.set("generation", Json::Int(g))
        };
        let doc = obj1.set("metadata", m4);
        let entry = StoredObject {
            gvr: gvr.duplicate(),
            namespace: namespace.to_owned(),
            name: name.clone(),
            gvk: gvk.duplicate(),
            data: doc.duplicate(),
        };
        let ghost pre_store = old(self).store();
        let ghost ev = entry@;
        proof {
            lemma_find_idx(pre_store, gvr@, namespace@, name@);
        }
        self.entries[i] = entry;
        proof {
            assert(self.store() =~= pre_store.update(i as int, ev));
            if old(self).wf() {
                assert forall|a: int, b: int|
                    0 <= a < b < self.store().len() implies !((#[trigger] self.store()[a]).gvr
                    == (#[trigger] self.store()[b]).gvr && self.store()[a].namespace
                    == self.store()[b].namespace && self.store()[a].name
                    == self.store()[b].name) by {
                    if a != i as int {
                        assert(self.store()[a] == pre_store[a]);
                    }
                    if b != i as int {
                        assert(self.store()[b] == pre_store[b]);
                    }
                    assert(self.store()[i as int].gvr == pre_store[i as int].gvr && self.store()[
                    i as int].namespace == pre_store[i as int].namespace && self.store()[
                    i as int].name == pre_store[i as int].name);
                }
                assert forall|a: int, b: int|
                    0 <= a < b < self.assigned_rvs().len() implies self.assigned_rvs()[a]
                    < self.assigned_rvs()[b] by {
                    if b < old(self).assigned_rvs().len() {
                        assert(old(self).assigned_rvs()[a] < old(self).assigned_rvs()[b]);
                    } else {
                        assert(0 < old(self).assigned_rvs()[a] <= old(self).rv());
                    }
                }
                assert forall|a: int|
                    0 <= a < self.assigned_rvs().len() implies 0 < #[trigger] self.assigned_rvs()[a]
                    <= self.rv() by {
                    if a < old(self).assigned_rvs().len() {
                        assert(0 < old(self).assigned_rvs()[a] <= old(self).rv());
                    }
                }
                assert(self.wf());
            }
            assert(gate is Storing);
            assert(spec_update_ok(
                *old(self),
                *self,
                gvr@,
                gvk@,
                object@,
                namespace@,
                is_status,
                doc@,
            ));
        }
        Ok(doc)
    }
}

} // verus!

verus! {


/// Reveal the metadata key literals, so that distinct keys compare
/// unequal.
proof fn proof_reveal_keys()
    ensures
        "metadata"@.len() == 8,
        "status"@.len() == 6,
        "spec"@.len() == 4,
        "generation"@.len() == 10,
        "deletionTimestamp"@.len() == 17,
        "resourceVersion"@.len() == 15,
        "uid"@.len() == 3,
        "creationTimestamp"@.len() == 17,
        "namespace"@.len() == 9,
        "name"@.len() == 4,
        "finalizers"@.len() == 10,
{
    reveal_strlit("metadata");
    reveal_strlit("status");
    reveal_strlit("spec");
    reveal_strlit("generation");
    reveal_strlit("deletionTimestamp");
    reveal_strlit("resourceVersion");
    reveal_strlit("uid");
    reveal_strlit("creationTimestamp");
    reveal_strlit("namespace");
    reveal_strlit("name");
    reveal_strlit("finalizers");
}

/// Resource versions are strictly increasing and unique: for any
/// interleaving of writes on a well-formed store, the sequence of
/// handed-out resource versions grows strictly, and no two of them render
/// as the same version text.
pub proof fn lemma_rv_strictly_increasing(t: &ObjectTracker)
    requires
        t.wf(),
    ensures
        forall|i: int, j: int|
            0 <= i < j < t.assigned_rvs().len() ==> t.assigned_rvs()[i] < t.assigned_rvs()[j],
        forall|i: int, j: int|
            0 <= i < t.assigned_rvs().len() && 0 <= j < t.assigned_rvs().len() && i != j
                ==> spec_dec(#[trigger] t.assigned_rvs()[i] as nat) != spec_dec(
                #[trigger] t.assigned_rvs()[j] as nat,
            ),
{
    assert forall|i: int, j: int|
        0 <= i < t.assigned_rvs().len() && 0 <= j < t.assigned_rvs().len() && i != j implies spec_dec(
        #[trigger] t.assigned_rvs()[i] as nat,
    ) != spec_dec(#[trigger] t.assigned_rvs()[j] as nat) by {
        if i < j {
            assert(t.assigned_rvs()[i] < t.assigned_rvs()[j]);
        } else {
            assert(t.assigned_rvs()[j] < t.assigned_rvs()[i]);
        }
        crate::strutil::lemma_spec_dec_injective(
            t.assigned_rvs()[i] as nat,
            t.assigned_rvs()[j] as nat,
        );
    }
}

/// A created object has generation one: the metadata of the document a
/// successful create stores carries `generation: 1`.
pub proof fn lemma_create_generation(
    obj: JsonV,
    rv_text: Seq<char>,
    ns: Seq<char>,
    now: Seq<char>,
    uid: Seq<char>,
)
    requires
        spec_meta_of(obj) is Some,
    ensures
        spec_int_opt(
            spec_meta_or_empty(spec_create_doc(obj, rv_text, ns, now, uid)),
            "generation"@,
        ) == Some(1int),
{
    proof_reveal_keys();
    let m = match spec_meta_of(obj) {
        Option::Some(m) => m,
        Option::None => JsonV::Null,
    };
    let m1 = spec_set(m, "resourceVersion"@, JsonV::Str(rv_text));
    let m2 = crate::meta::spec_ns_rule(m1, ns);
    let m3 = spec_set(m2, "creationTimestamp"@, JsonV::Str(now));
    let m4 = spec_set(m3, "uid"@, JsonV::Str(uid));
    let m5 = spec_set(m4, "generation"@, JsonV::Int(1));
    let m6 = spec_remove(m5, "deletionTimestamp"@);
    let doc = spec_set(obj, "metadata"@, m6);
    crate::json::lemma_obj_set_lookup(obj->Obj_0, "metadata"@, m6, "metadata"@);
    assert(spec_get(doc, "metadata"@) == Some(m6));
    crate::json::lemma_obj_set_lookup(m4->Obj_0, "generation"@, JsonV::Int(1), "generation"@);
    assert(spec_get(m5, "generation"@) == Some(JsonV::Int(1)));
    crate::json::lemma_obj_remove_lookup_other(m5->Obj_0, "deletionTimestamp"@, "generation"@);
    assert(spec_get(m6, "generation"@) == Some(JsonV::Int(1)));
}

/// Generation stepping: the document a successful non-status update
/// stores carries a generation one above the stored one (one, where none
/// was stored); a status update carries the stored generation over
/// unchanged.
pub proof fn lemma_update_generation(
    obj: JsonV,
    existing: JsonV,
    has_status: bool,
    is_status: bool,
    rv_text: Seq<char>,
)
    requires
        spec_meta_of(obj) is Some,
    ensures
        !is_status ==> spec_int_opt(
            spec_meta_or_empty(spec_update_doc(obj, existing, has_status, is_status, rv_text)),
            "generation"@,
        ) == Some(spec_next_generation(spec_meta_or_empty(existing))),
        is_status && spec_field(spec_meta_or_empty(existing), "generation"@) is Some
            ==> spec_field(
            spec_meta_or_empty(spec_update_doc(obj, existing, has_status, is_status, rv_text)),
            "generation"@,
        ) == spec_field(spec_meta_or_empty(existing), "generation"@),
{
    proof_reveal_keys();
    let obj1 = spec_isolated(obj, existing, has_status, is_status);
    let m = match spec_meta_of(obj) {
        Option::Some(m) => m,
        Option::None => JsonV::Null,
    };
    let em = spec_meta_or_empty(existing);
    let fm = spec_update_meta(m, em, rv_text, is_status);
    let doc = spec_set(obj1, "metadata"@, fm);
    assert(obj is Obj);
    assert(obj1 is Obj);
    crate::json::lemma_obj_set_lookup(obj1->Obj_0, "metadata"@, fm, "metadata"@);
    assert(spec_meta_or_empty(doc) == fm);
    let m1 = spec_set(m, "resourceVersion"@, JsonV::Str(rv_text));
    let m2 = spec_copy_field(m1, "uid"@, spec_field(em, "uid"@));
    let m3 = spec_copy_field(m2, "creationTimestamp"@, spec_field(em, "creationTimestamp"@));
    if !is_status {
        crate::json::lemma_obj_set_lookup(
            m3->Obj_0,
            "generation"@,
            JsonV::Int(spec_next_generation(em)),
            "generation"@,
        );
        assert(spec_get(fm, "generation"@) == Some(JsonV::Int(spec_next_generation(em))));
    } else {
        match spec_field(em, "generation"@) {
            Option::Some(g) => {
                crate::json::lemma_obj_set_lookup(m3->Obj_0, "generation"@, g, "generation"@);
                assert(spec_get(fm, "generation"@) == Some(g));
                assert(!(g is Null));
            },
            Option::None => {},
        }
    }
}

/// Subresource isolation: with the status subresource enabled, the
/// document a non-status update stores reads its `status` subtree
/// exactly as the stored object did — the caller's is discarded, and
/// where the stored object had none, none is stored — and a status
/// update reads its `spec` subtree likewise. Stated for documents whose
/// top-level keys are unique, as every parsed document's are.
pub proof fn lemma_update_subresource_isolation(
    obj: JsonV,
    existing: JsonV,
    is_status: bool,
    rv_text: Seq<char>,
)
    requires
        spec_meta_of(obj) is Some,
        forall|i: int, j: int|
            0 <= i < j < obj->Obj_0.len() ==> (#[trigger] obj->Obj_0[i]).0 != (
            #[trigger] obj->Obj_0[j]).0,
    ensures
        !is_status ==> spec_get(
            spec_update_doc(obj, existing, true, false, rv_text),
            "status"@,
        ) == spec_get(existing, "status"@),
        is_status ==> spec_get(
            spec_update_doc(obj, existing, true, true, rv_text),
            "spec"@,
        ) == spec_get(existing, "spec"@),
{
    proof_reveal_keys();
    let m = match spec_meta_of(obj) {
        Option::Some(m) => m,
        Option::None => JsonV::Null,
    };
    let em = spec_meta_or_empty(existing);
    assert(obj is Obj);
    if !is_status {
        let fm = spec_update_meta(m, em, rv_text, false);
        match spec_get(existing, "status"@) {
            Option::Some(st) => {
                let obj1 = spec_set(obj, "status"@, st);
                crate::json::lemma_obj_set_lookup(obj->Obj_0, "status"@, st, "status"@);
                assert(spec_get(obj1, "status"@) == Some(st));
                crate::json::lemma_obj_set_lookup(obj1->Obj_0, "metadata"@, fm, "status"@);
            },
            Option::None => {
                let obj1 = spec_remove(obj, "status"@);
                crate::json::lemma_obj_remove_lookup(obj->Obj_0, "status"@, "status"@);
                assert(spec_get(obj1, "status"@) is None);
                crate::json::lemma_obj_set_lookup(obj1->Obj_0, "metadata"@, fm, "status"@);
            },
        }
    } else {
        let fm = spec_update_meta(m, em, rv_text, true);
        match spec_get(existing, "spec"@) {
            Option::Some(sp) => {
                let obj1 = spec_set(obj, "spec"@, sp);
                crate::json::lemma_obj_set_lookup(obj->Obj_0, "spec"@, sp, "spec"@);
                assert(spec_get(obj1, "spec"@) == Some(sp));
                crate::json::lemma_obj_set_lookup(obj1->Obj_0, "metadata"@, fm, "spec"@);
            },
            Option::None => {
                let obj1 = spec_remove(obj, "spec"@);
                crate::json::lemma_obj_remove_lookup(obj->Obj_0, "spec"@, "spec"@);
                assert(spec_get(obj1, "spec"@) is None);
                crate::json::lemma_obj_set_lookup(obj1->Obj_0, "metadata"@, fm, "spec"@);
            },
        }
    }
}

/// Round trip of a written object: a written entry is found under its own
/// key exactly as written, and every other key reads as before.
pub proof fn lemma_upsert_find(s: Seq<StoredV>, e: StoredV)
    ensures
        spec_find(spec_upsert(s, e), e.gvr, e.namespace, e.name) == Some(e),
        forall|gvr: GvrV, ns: Seq<char>, nm: Seq<char>|
            !(gvr == e.gvr && ns == e.namespace && nm == e.name) ==> #[trigger] spec_find(
                spec_upsert(s, e),
                gvr,
                ns,
                nm,
            ) == spec_find(s, gvr, ns, nm),
{
    lemma_find_idx(s, e.gvr, e.namespace, e.name);
    let i = find_idx(s, e.gvr, e.namespace, e.name);
    let s2 = spec_upsert(s, e);
    lemma_find_idx(s2, e.gvr, e.namespace, e.name);
    let i2 = find_idx(s2, e.gvr, e.namespace, e.name);
    if i == -1 {
        assert(s2 == s.push(e));
        assert(s2[s.len() as int] == e);
        if i2 == -1 {
            assert(false);
        }
        if i2 < s.len() {
            assert(s2[i2] == s[i2]);
            assert(false);
        }
        assert(i2 == s.len());
        assert(s2[i2] == e);
    } else {
        assert(s2 == s.update(i, e));
        assert(s2[i] == e);
        if i2 == -1 {
            assert(false);
        }
        if i2 < i {
            assert(s2[i2] == s[i2]);
            assert(false);
        }
        if i2 > i {
            assert(false);
        }
        assert(i2 == i);
    }
    assert forall|gvr: GvrV, ns: Seq<char>, nm: Seq<char>|
        !(gvr == e.gvr && ns == e.namespace && nm == e.name) implies #[trigger] spec_find(
        s2,
        gvr,
        ns,
        nm,
    ) == spec_find(s, gvr, ns, nm) by {
        lemma_find_idx(s, gvr, ns, nm);
        lemma_find_idx(s2, gvr, ns, nm);
        let j = find_idx(s, gvr, ns, nm);
        let j2 = find_idx(s2, gvr, ns, nm);
        assert(s2.len() == if i == -1 {
            s.len() as int + 1
        } else {
            s.len() as int
        });
        if j == -1 {
            if j2 != -1 {
                if i == -1 {
                    if j2 < s.len() {
                        assert(s2[j2] == s[j2]);
                        assert(false);
                    } else {
                        assert(s2[j2] == e);
                        assert(false);
                    }
                } else {
                    if j2 == i {
                        assert(s2[j2] == e);
                        assert(false);
                    } else {
                        assert(s2[j2] == s[j2]);
                        assert(false);
                    }
                }
            }
        } else {
            assert(j != i);
            assert(s2[j] == s[j]);
            if j2 == -1 {
                assert(false);
            }
            if j2 < j {
                if j2 == i {
                    assert(s2[j2] == e);
                    assert(false);
                } else {
                    assert(s2[j2] == s[j2]);
                    assert(false);
                }
            }
            if j2 > j {
                assert(false);
            }
            assert(j2 == j);
            assert(spec_find(s2, gvr, ns, nm) == Some(s2[j2]));
        }
    }
}

} // verus!

verus! {

/// Round trip of a seeded object: after a successful seeding write, the
/// store finds the stored document under the object's own name, and every
/// field of the document other than its metadata reads back exactly as
/// the caller supplied it.
pub proof fn lemma_seeded_object_round_trip(
    pre: ObjectTracker,
    post: ObjectTracker,
    gvr: GvrV,
    gvk: GvkV,
    obj: JsonV,
    ns: Seq<char>,
    doc: JsonV,
    now: Seq<char>,
    uid: Seq<char>,
)
    requires
        spec_add_ok(pre, post, gvr, gvk, obj, ns, doc, now, uid),
        spec_meta_of(obj) is Some,
        spec_obj_name(obj) is Some,
    ensures
        spec_find(post.store(), gvr, ns, match spec_obj_name(obj) {
            Option::Some(n) => n,
            Option::None => Seq::empty(),
        }) matches Some(e) && e.data == doc,
        forall|k: Seq<char>|
            k != "metadata"@ ==> #[trigger] spec_get(doc, k) == spec_get(obj, k),
{
    let name = match spec_obj_name(obj) {
        Option::Some(n) => n,
        Option::None => Seq::empty(),
    };
    let entry = StoredV { gvr: gvr, namespace: ns, name: name, gvk: gvk, data: doc };
    lemma_upsert_find(pre.store(), entry);
    assert(obj is Obj);
    let m2 = match spec_get(doc, "metadata"@) {
        Option::Some(m) => m,
        Option::None => JsonV::Null,
    };
    assert forall|k: Seq<char>| k != "metadata"@ implies #[trigger] spec_get(doc, k) == spec_get(
        obj,
        k,
    ) by {
        crate::json::lemma_obj_set_lookup(
            obj->Obj_0,
            "metadata"@,
            match spec_get(doc, "metadata"@) {
                Option::Some(m) => m,
                Option::None => JsonV::Null,
            },
            k,
        );
        let assign = spec_seed_assigns(obj);
        let rv_text = if assign {
            spec_dec((pre.rv() + 1) as nat)
        } else {
            match spec_obj_rv(obj) {
                Option::Some(v) => v,
                Option::None => Seq::empty(),
            }
        };
        let m = match spec_meta_of(obj) {
            Option::Some(m) => m,
            Option::None => JsonV::Null,
        };
        let m1 = if assign {
            spec_set(m, "resourceVersion"@, JsonV::Str(rv_text))
        } else {
            m
        };
        let fm = crate::meta::spec_ensure_meta(m1, ns, now, uid);
        crate::json::lemma_obj_set_lookup(obj->Obj_0, "metadata"@, fm, k);
    }
}

} // verus!
