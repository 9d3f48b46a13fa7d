//! Resource discovery: the static lookup table for built-in kinds at a
//! pinned Kubernetes version, and the facade that checks the table first
//! and the runtime registry second.

use crate::registry::ResourceRegistry;
use crate::strutil::str_eq;
use crate::tracker::{GVK, GVR, GvkV};
use vstd::prelude::*;
use vstd::string::*;

verus! {

/// One row of the built-in discovery table.
#[derive(Debug)]
pub struct BuiltinResource {
    pub group: String,
    pub version: String,
    pub kind: String,
    pub plural: String,
    pub singular: String,
    pub namespaced: bool,
    pub subresources: Vec<String>,
    pub short_names: Vec<String>,
    pub verbs: Vec<String>,
}

/// The mathematical value of a table row.
pub struct BuiltinV {
    pub group: Seq<char>,
    pub version: Seq<char>,
    pub kind: Seq<char>,
    pub plural: Seq<char>,
    pub singular: Seq<char>,
    pub namespaced: bool,
    pub subresources: Seq<Seq<char>>,
    pub short_names: Seq<Seq<char>>,
    pub verbs: Seq<Seq<char>>,
}

impl View for BuiltinResource {
    type V = BuiltinV;

    open spec fn view(&self) -> BuiltinV {
        BuiltinV {
            group: self.group@,
            version: self.version@,
            kind: self.kind@,
            plural: self.plural@,
            singular: self.singular@,
            namespaced: self.namespaced,
            subresources: crate::selector::views_of(self.subresources@),
            short_names: crate::selector::views_of(self.short_names@),
            verbs: crate::selector::views_of(self.verbs@),
        }
    }
}

/// The standard verb set of a built-in or custom resource.
pub open spec fn spec_standard_verbs() -> Seq<Seq<char>> {
    seq![
        "create"@,
        "delete"@,
        "deletecollection"@,
        "get"@,
        "list"@,
        "patch"@,
        "update"@,
        "watch"@,
    ]
}

/// One row of the built-in table, as a spec value.
pub open spec fn row(
    group: Seq<char>,
    version: Seq<char>,
    kind: Seq<char>,
    plural: Seq<char>,
    singular: Seq<char>,
    namespaced: bool,
    subresources: Seq<Seq<char>>,
    short_names: Seq<Seq<char>>,
    verbs: Seq<Seq<char>>,
) -> BuiltinV {
    BuiltinV { group, version, kind, plural, singular, namespaced, subresources, short_names, verbs }
}

/// The built-in discovery table.
pub open spec fn spec_builtins() -> Seq<BuiltinV> {
    seq![
        row(""@, "v1"@, "Pod"@, "pods"@, "pod"@, true, seq!["status"@], seq!["po"@], spec_standard_verbs()),
        row(""@, "v1"@, "Service"@, "services"@, "service"@, true, seq!["status"@], seq!["svc"@], spec_standard_verbs()),
        row(""@, "v1"@, "Namespace"@, "namespaces"@, "namespace"@, false, seq!["status"@], seq!["ns"@], spec_standard_verbs()),
        row(""@, "v1"@, "ConfigMap"@, "configmaps"@, "configmap"@, true, Seq::empty(), seq!["cm"@], spec_standard_verbs()),
        row(""@, "v1"@, "Secret"@, "secrets"@, "secret"@, true, Seq::empty(), Seq::empty(), spec_standard_verbs()),
        row(""@, "v1"@, "Node"@, "nodes"@, "node"@, false, seq!["status"@], seq!["no"@], spec_standard_verbs()),
        row(""@, "v1"@, "Event"@, "events"@, "event"@, true, Seq::empty(), seq!["ev"@], spec_standard_verbs()),
        row(""@, "v1"@, "ComponentStatus"@, "componentstatuses"@, "componentstatus"@, false, Seq::empty(), seq!["cs"@], seq!["get"@, "list"@]),
        row(""@, "v1"@, "ReplicationController"@, "replicationcontrollers"@, "replicationcontroller"@, true, seq!["status"@, "scale"@], seq!["rc"@], spec_standard_verbs()),
        row(""@, "v1"@, "ServiceAccount"@, "serviceaccounts"@, "serviceaccount"@, true, Seq::empty(), seq!["sa"@], spec_standard_verbs()),
        row(""@, "v1"@, "PersistentVolume"@, "persistentvolumes"@, "persistentvolume"@, false, seq!["status"@], seq!["pv"@], spec_standard_verbs()),
        row(""@, "v1"@, "PersistentVolumeClaim"@, "persistentvolumeclaims"@, "persistentvolumeclaim"@, true, seq!["status"@], seq!["pvc"@], spec_standard_verbs()),
        row(""@, "v1"@, "Endpoints"@, "endpoints"@, "endpoints"@, true, Seq::empty(), seq!["ep"@], spec_standard_verbs()),
        row(""@, "v1"@, "LimitRange"@, "limitranges"@, "limitrange"@, true, Seq::empty(), seq!["limits"@], spec_standard_verbs()),
        row(""@, "v1"@, "ResourceQuota"@, "resourcequotas"@, "resourcequota"@, true, seq!["status"@], seq!["quota"@], spec_standard_verbs()),
        row(""@, "v1"@, "PodTemplate"@, "podtemplates"@, "podtemplate"@, true, Seq::empty(), Seq::empty(), spec_standard_verbs()),
        row("apps"@, "v1"@, "Deployment"@, "deployments"@, "deployment"@, true, seq!["status"@, "scale"@], seq!["deploy"@], spec_standard_verbs()),
        row("apps"@, "v1"@, "StatefulSet"@, "statefulsets"@, "statefulset"@, true, seq!["status"@, "scale"@], seq!["sts"@], spec_standard_verbs()),
        row("apps"@, "v1"@, "DaemonSet"@, "daemonsets"@, "daemonset"@, true, seq!["status"@], seq!["ds"@], spec_standard_verbs()),
        row("apps"@, "v1"@, "ReplicaSet"@, "replicasets"@, "replicaset"@, true, seq!["status"@, "scale"@], seq!["rs"@], spec_standard_verbs()),
        row("apps"@, "v1"@, "ControllerRevision"@, "controllerrevisions"@, "controllerrevision"@, true, Seq::empty(), Seq::empty(), spec_standard_verbs()),
        row("batch"@, "v1"@, "Job"@, "jobs"@, "job"@, true, seq!["status"@], Seq::empty(), spec_standard_verbs()),
        row("batch"@, "v1"@, "CronJob"@, "cronjobs"@, "cronjob"@, true, seq!["status"@], seq!["cj"@], spec_standard_verbs()),
    ]
}

/// The first table row with the given group, version and kind.
pub open spec fn spec_builtin_by_kind(
    rows: Seq<BuiltinV>,
    group: Seq<char>,
    version: Seq<char>,
    kind: Seq<char>,
) -> Option<BuiltinV>
    decreases rows.len(),
{
    if rows.len() == 0 {
        None
    } else if rows[0].group == group && rows[0].version == version && rows[0].kind == kind {
        Some(rows[0])
    } else {
        spec_builtin_by_kind(rows.drop_first(), group, version, kind)
    }
}

/// The first table row with the given group, version and plural.
pub open spec fn spec_builtin_by_plural(
    rows: Seq<BuiltinV>,
    group: Seq<char>,
    version: Seq<char>,
    plural: Seq<char>,
) -> Option<BuiltinV>
    decreases rows.len(),
{
    if rows.len() == 0 {
        None
    } else if rows[0].group == group && rows[0].version == version && rows[0].plural == plural {
        Some(rows[0])
    } else {
        spec_builtin_by_plural(rows.drop_first(), group, version, plural)
    }
}

/// The built-in row of a kind triple.
pub open spec fn spec_lookup_kind(gvk: GvkV) -> Option<BuiltinV> {
    spec_builtin_by_kind(spec_builtins(), gvk.group, gvk.version, gvk.kind)
}

} // verus!

verus! {

/// No names.
fn strs0() -> (r: Vec<String>)
    ensures
        crate::selector::views_of(r@) == Seq::<Seq<char>>::empty(),
{
    let r: Vec<String> = Vec::new();
    proof {
        assert(crate::selector::views_of(r@) =~= Seq::<Seq<char>>::empty());
    }
    r
}

/// One name.
fn strs1(a: &str) -> (r: Vec<String>)
    ensures
        crate::selector::views_of(r@) == seq![a@],
{
    let mut r: Vec<String> = Vec::new();
    r.push(a.to_owned());
    proof {
        assert(crate::selector::views_of(r@) =~= seq![a@]);
    }
    r
}

/// Two names.
fn strs2(a: &str, b: &str) -> (r: Vec<String>)
    ensures
        crate::selector::views_of(r@) == seq![a@, b@],
{
    let mut r: Vec<String> = Vec::new();
    r.push(a.to_owned());
    r.push(b.to_owned());
    proof {
        assert(crate::selector::views_of(r@) =~= seq![a@, b@]);
    }
    r
}

/// The standard verb set.
fn standard_verbs() -> (r: Vec<String>)
    ensures
        crate::selector::views_of(r@) == spec_standard_verbs(),
{
    let mut r: Vec<String> = Vec::new();
    r.push("create".to_owned());
    r.push("delete".to_owned());
    r.push("deletecollection".to_owned());
    r.push("get".to_owned());
    r.push("list".to_owned());
    r.push("patch".to_owned());
    r.push("update".to_owned());
    r.push("watch".to_owned());
    proof {
        assert(crate::selector::views_of(r@) =~= spec_standard_verbs());
    }
    r
}

/// Build one table row.
fn mk_row(
    group: &str,
    version: &str,
    kind: &str,
    plural: &str,
    singular: &str,
    namespaced: bool,
    subresources: Vec<String>,
    short_names: Vec<String>,
    verbs: Vec<String>,
) -> (r: BuiltinResource)
    ensures
        r@ == (BuiltinV {
            group: group@,
            version: version@,
            kind: kind@,
            plural: plural@,
            singular: singular@,
            namespaced: namespaced,
            subresources: crate::selector::views_of(subresources@),
            short_names: crate::selector::views_of(short_names@),
            verbs: crate::selector::views_of(verbs@),
        }),
{
    BuiltinResource {
        group: group.to_owned(),
        version: version.to_owned(),
        kind: kind.to_owned(),
        plural: plural.to_owned(),
        singular: singular.to_owned(),
        namespaced,
        subresources,
        short_names,
        verbs,
    }
}

/// Build the built-in discovery table.
fn build_builtins() -> (r: Vec<BuiltinResource>)
    ensures
        r@.map_values(|b: BuiltinResource| b@) == spec_builtins(),
{
    let mut t: Vec<BuiltinResource> = Vec::new();
    t.push(mk_row("", "v1", "Pod", "pods", "pod", true, strs1("status"), strs1("po"), standard_verbs()));
    t.push(mk_row("", "v1", "Service", "services", "service", true, strs1("status"), strs1("svc"), standard_verbs()));
    t.push(mk_row("", "v1", "Namespace", "namespaces", "namespace", false, strs1("status"), strs1("ns"), standard_verbs()));
    t.push(mk_row("", "v1", "ConfigMap", "configmaps", "configmap", true, strs0(), strs1("cm"), standard_verbs()));
    t.push(mk_row("", "v1", "Secret", "secrets", "secret", true, strs0(), strs0(), standard_verbs()));
    t.push(mk_row("", "v1", "Node", "nodes", "node", false, strs1("status"), strs1("no"), standard_verbs()));
    t.push(mk_row("", "v1", "Event", "events", "event", true, strs0(), strs1("ev"), standard_verbs()));
    t.push(mk_row("", "v1", "ComponentStatus", "componentstatuses", "componentstatus", false, strs0(), strs1("cs"), strs2("get", "list")));
    t.push(mk_row("", "v1", "ReplicationController", "replicationcontrollers", "replicationcontroller", true, strs2("status", "scale"), strs1("rc"), standard_verbs()));
    t.push(mk_row("", "v1", "ServiceAccount", "serviceaccounts", "serviceaccount", true, strs0(), strs1("sa"), standard_verbs()));
    t.push(mk_row("", "v1", "PersistentVolume", "persistentvolumes", "persistentvolume", false, strs1("status"), strs1("pv"), standard_verbs()));
    t.push(mk_row("", "v1", "PersistentVolumeClaim", "persistentvolumeclaims", "persistentvolumeclaim", true, strs1("status"), strs1("pvc"), standard_verbs()));
    t.push(mk_row("", "v1", "Endpoints", "endpoints", "endpoints", true, strs0(), strs1("ep"), standard_verbs()));
    t.push(mk_row("", "v1", "LimitRange", "limitranges", "limitrange", true, strs0(), strs1("limits"), standard_verbs()));
    t.push(mk_row("", "v1", "ResourceQuota", "resourcequotas", "resourcequota", true, strs1("status"), strs1("quota"), standard_verbs()));
    t.push(mk_row("", "v1", "PodTemplate", "podtemplates", "podtemplate", true, strs0(), strs0(), standard_verbs()));
    t.push(mk_row("apps", "v1", "Deployment", "deployments", "deployment", true, strs2("status", "scale"), strs1("deploy"), standard_verbs()));
    t.push(mk_row("apps", "v1", "StatefulSet", "statefulsets", "statefulset", true, strs2("status", "scale"), strs1("sts"), standard_verbs()));
    t.push(mk_row("apps", "v1", "DaemonSet", "daemonsets", "daemonset", true, strs1("status"), strs1("ds"), standard_verbs()));
    t.push(mk_row("apps", "v1", "ReplicaSet", "replicasets", "replicaset", true, strs2("status", "scale"), strs1("rs"), standard_verbs()));
    t.push(mk_row("apps", "v1", "ControllerRevision", "controllerrevisions", "controllerrevision", true, strs0(), strs0(), standard_verbs()));
    t.push(mk_row("batch", "v1", "Job", "jobs", "job", true, strs1("status"), strs0(), standard_verbs()));
    t.push(mk_row("batch", "v1", "CronJob", "cronjobs", "cronjob", true, strs1("status"), strs1("cj"), standard_verbs()));
    proof {
        assert(t@.map_values(|b: BuiltinResource| b@) =~= spec_builtins());
    }
    t
}

} // verus!

verus! {

proof fn lemma_builtin_by_kind_found(rows: Seq<BuiltinV>, g: Seq<char>, v: Seq<char>, k: Seq<char>, i: int)
    requires
        0 <= i < rows.len(),
        rows[i].group == g && rows[i].version == v && rows[i].kind == k,
        forall|j: int|
            0 <= j < i ==> !((#[trigger] rows[j]).group == g && rows[j].version == v
                && rows[j].kind == k),
    ensures
        spec_builtin_by_kind(rows, g, v, k) == Some(rows[i]),
    decreases i,
{
    if i > 0 {
        let tail = rows.drop_first();
        assert(tail[i - 1] == rows[i]);
        assert(forall|j: int|
            0 <= j < i - 1 ==> !((#[trigger] tail[j]).group == g && tail[j].version == v
                && tail[j].kind == k));
        lemma_builtin_by_kind_found(tail, g, v, k, i - 1);
    }
}

proof fn lemma_builtin_by_kind_absent(rows: Seq<BuiltinV>, g: Seq<char>, v: Seq<char>, k: Seq<char>)
    requires
        forall|j: int|
            0 <= j < rows.len() ==> !((#[trigger] rows[j]).group == g && rows[j].version == v
                && rows[j].kind == k),
    ensures
        spec_builtin_by_kind(rows, g, v, k) is None,
    decreases rows.len(),
{
    if rows.len() > 0 {
        lemma_builtin_by_kind_absent(rows.drop_first(), g, v, k);
    }
}

proof fn lemma_builtin_by_plural_found(rows: Seq<BuiltinV>, g: Seq<char>, v: Seq<char>, p: Seq<char>, i: int)
    requires
        0 <= i < rows.len(),
        rows[i].group == g && rows[i].version == v && rows[i].plural == p,
        forall|j: int|
            0 <= j < i ==> !((#[trigger] rows[j]).group == g && rows[j].version == v
                && rows[j].plural == p),
    ensures
        spec_builtin_by_plural(rows, g, v, p) == Some(rows[i]),
    decreases i,
{
    if i > 0 {
        let tail = rows.drop_first();
        assert(tail[i - 1] == rows[i]);
        assert(forall|j: int|
            0 <= j < i - 1 ==> !((#[trigger] tail[j]).group == g && tail[j].version == v
                && tail[j].plural == p));
        lemma_builtin_by_plural_found(tail, g, v, p, i - 1);
    }
}

proof fn lemma_builtin_by_plural_absent(rows: Seq<BuiltinV>, g: Seq<char>, v: Seq<char>, p: Seq<char>)
    requires
        forall|j: int|
            0 <= j < rows.len() ==> !((#[trigger] rows[j]).group == g && rows[j].version == v
                && rows[j].plural == p),
    ensures
        spec_builtin_by_plural(rows, g, v, p) is None,
    decreases rows.len(),
{
    if rows.len() > 0 {
        lemma_builtin_by_plural_absent(rows.drop_first(), g, v, p);
    }
}

/// Look a built-in resource up by group, version and kind.
#[verifier::loop_isolation(false)]
fn lookup_builtin(group: &str, version: &str, kind: &str) -> (r: Option<BuiltinResource>)
    ensures
        match r {
            Some(b) => spec_builtin_by_kind(spec_builtins(), group@, version@, kind@) == Some(b@),
            None => spec_builtin_by_kind(spec_builtins(), group@, version@, kind@) is None,
        },
{
    let t = build_builtins();
    let ghost tv = t@.map_values(|b: BuiltinResource| b@);
    let n = t.len();
    let mut i: usize = 0;
    while i < n
        invariant
            0 <= i <= n,
            n == tv.len(),
            tv == t@.map_values(|b: BuiltinResource| b@),
            tv == spec_builtins(),
            forall|j: int|
                0 <= j < i ==> !((#[trigger] tv[j]).group == group@ && tv[j].version == version@
                    && tv[j].kind == kind@),
        decreases n - i,
    {
        let b = &t[i];
        if str_eq(b.group.as_str(), group) && str_eq(b.version.as_str(), version) && str_eq(
            b.kind.as_str(),
            kind,
        ) {
            proof {
                lemma_builtin_by_kind_found(tv, group@, version@, kind@, i as int);
            }
            let found = &t[i];
            return Some(
                mk_row(
                    found.group.as_str(),
                    found.version.as_str(),
                    found.kind.as_str(),
                    found.plural.as_str(),
                    found.singular.as_str(),
                    found.namespaced,
                    dup_strings(&found.subresources),
                    dup_strings(&found.short_names),
                    dup_strings(&found.verbs),
                ),
            );
        }
        i = i + 1;
    }
    proof {
        lemma_builtin_by_kind_absent(tv, group@, version@, kind@);
    }
    None
}

/// Look a built-in resource up by group, version and plural.
#[verifier::loop_isolation(false)]
fn lookup_builtin_by_plural(group: &str, version: &str, plural: &str) -> (r: Option<
    BuiltinResource,
>)
    ensures
        match r {
            Some(b) => spec_builtin_by_plural(spec_builtins(), group@, version@, plural@) == Some(
                b@,
            ),
            None => spec_builtin_by_plural(spec_builtins(), group@, version@, plural@) is None,
        },
{
    let t = build_builtins();
    let ghost tv = t@.map_values(|b: BuiltinResource| b@);
    let n = t.len();
    let mut i: usize = 0;
    while i < n
        invariant
            0 <= i <= n,
            n == tv.len(),
            tv == t@.map_values(|b: BuiltinResource| b@),
            tv == spec_builtins(),
            forall|j: int|
                0 <= j < i ==> !((#[trigger] tv[j]).group == group@ && tv[j].version == version@
                    && tv[j].plural == plural@),
        decreases n - i,
    {
        let b = &t[i];
        if str_eq(b.group.as_str(), group) && str_eq(b.version.as_str(), version) && str_eq(
            b.plural.as_str(),
            plural,
        ) {
            proof {
                lemma_builtin_by_plural_found(tv, group@, version@, plural@, i as int);
            }
            let found = &t[i];
            return Some(
                mk_row(
                    found.group.as_str(),
                    found.version.as_str(),
                    found.kind.as_str(),
                    found.plural.as_str(),
                    found.singular.as_str(),
                    found.namespaced,
                    dup_strings(&found.subresources),
                    dup_strings(&found.short_names),
                    dup_strings(&found.verbs),
                ),
            );
        }
        i = i + 1;
    }
    proof {
        lemma_builtin_by_plural_absent(tv, group@, version@, plural@);
    }
    None
}

/// Copy a list of names.
#[verifier::loop_isolation(false)]
fn dup_strings(xs: &Vec<String>) -> (r: Vec<String>)
    ensures
        crate::selector::views_of(r@) == crate::selector::views_of(xs@),
{
    let n = xs.len();
    let mut r: Vec<String> = Vec::new();
    let mut i: usize = 0;
    while i < n
        invariant
            0 <= i <= n,
            r@.len() == i,
            forall|k: int|
                0 <= k < i ==> #[trigger] crate::selector::views_of(r@)[k]
                    == crate::selector::views_of(xs@)[k],
        decreases n - i,
    {
        let ghost prev = r@;
        r.push(xs[i].clone());
        proof {
            assert forall|k: int| 0 <= k < i + 1 implies #[trigger] crate::selector::views_of(
                r@,
            )[k] == crate::selector::views_of(xs@)[k] by {
                if k < i {
                    assert(r@[k] == prev[k]);
                    assert(crate::selector::views_of(prev)[k] == prev[k]@);
                } else {
                    assert(r@[k] == r@.last());
                }
            }
        }
        i = i + 1;
    }
    proof {
        assert(crate::selector::views_of(r@) =~= crate::selector::views_of(xs@));
    }
    r
}

/// Whether a list of names holds the given one.
#[verifier::loop_isolation(false)]
fn names_contain(xs: &Vec<String>, x: &str) -> (r: bool)
    ensures
        r == crate::selector::views_of(xs@).contains(x@),
{
    let n = xs.len();
    let mut i: usize = 0;
    while i < n
        invariant
            0 <= i <= n,
            forall|j: int| 0 <= j < i ==> #[trigger] crate::selector::views_of(xs@)[j] != x@,
        decreases n - i,
    {
        if str_eq(xs[i].as_str(), x) {
            assert(crate::selector::views_of(xs@)[i as int] == x@);
            return true;
        }
        i = i + 1;
    }
    proof {
        if crate::selector::views_of(xs@).contains(x@) {
            let j = choose|j: int|
                0 <= j < crate::selector::views_of(xs@).len() && crate::selector::views_of(xs@)[j]
                    == x@;
            assert(crate::selector::views_of(xs@)[j] != x@);
        }
    }
    false
}

/// Resource discovery over the built-in table, with optional fallbacks to
/// the runtime registry.
pub struct Discovery;

impl Discovery {
    /// Whether a built-in kind is namespaced; unknown kinds give `None`.
    pub fn is_namespaced(gvk: &GVK) -> (r: Option<bool>)
        ensures
            match spec_lookup_kind(gvk@) {
                Some(b) => r == Some(b.namespaced),
                None => r is None,
            },
    {
        match lookup_builtin(gvk.group.as_str(), gvk.version.as_str(), gvk.kind.as_str()) {
            Some(b) => Some(b.namespaced),
            None => None,
        }
    }

    /// The plural name of a built-in kind.
    pub fn get_plural(gvk: &GVK) -> (r: Option<String>)
        ensures
            match spec_lookup_kind(gvk@) {
                Some(b) => r matches Some(p) && p@ == b.plural,
                None => r is None,
            },
    {
        match lookup_builtin(gvk.group.as_str(), gvk.version.as_str(), gvk.kind.as_str()) {
            Some(b) => Some(b.plural),
            None => None,
        }
    }

    /// The singular name of a built-in kind.
    pub fn get_singular(gvk: &GVK) -> (r: Option<String>)
        ensures
            match spec_lookup_kind(gvk@) {
                Some(b) => r matches Some(p) && p@ == b.singular,
                None => r is None,
            },
    {
        match lookup_builtin(gvk.group.as_str(), gvk.version.as_str(), gvk.kind.as_str()) {
            Some(b) => Some(b.singular),
            None => None,
        }
    }

    /// The kind of a built-in plural resource name.
    pub fn plural_to_kind(group: &str, version: &str, plural: &str) -> (r: Option<String>)
        ensures
            match spec_builtin_by_plural(spec_builtins(), group@, version@, plural@) {
                Some(b) => r matches Some(k) && k@ == b.kind,
                None => r is None,
            },
    {
        match lookup_builtin_by_plural(group, version, plural) {
            Some(b) => Some(b.kind),
            None => None,
        }
    }

    /// The kind of a plural resource name: the built-in table first, then
    /// the registry.
    pub fn plural_to_kind_with_registry(
        group: &str,
        version: &str,
        plural: &str,
        registry: &ResourceRegistry,
    ) -> (r: Option<String>)
        ensures
            match spec_builtin_by_plural(spec_builtins(), group@, version@, plural@) {
                Some(b) => r matches Some(k) && k@ == b.kind,
                None => match crate::registry::spec_reg_lookup(
                    registry.regs(),
                    group@,
                    version@,
                    plural@,
                ) {
                    Some(m) => r matches Some(k) && k@ == m.kind,
                    None => r is None,
                },
            },
    {
        match Self::plural_to_kind(group, version, plural) {
            Some(k) => Some(k),
            None => registry.plural_to_kind(group, version, plural),
        }
    }

    /// The kind triple of a built-in resource triple.
    pub fn gvr_to_gvk(gvr: &GVR) -> (r: Option<GVK>)
        ensures
            match spec_builtin_by_plural(
                spec_builtins(),
                gvr@.group,
                gvr@.version,
                gvr@.resource,
            ) {
                Some(b) => r matches Some(g) && g@ == (GvkV {
                    group: gvr@.group,
                    version: gvr@.version,
                    kind: b.kind,
                }),
                None => r is None,
            },
    {
        match Self::plural_to_kind(gvr.group.as_str(), gvr.version.as_str(), gvr.resource.as_str()) {
            Some(k) => Some(GVK::new(gvr.group.as_str(), gvr.version.as_str(), k.as_str())),
            None => None,
        }
    }

    /// The kind triple of a resource triple: the built-in table first,
    /// then the registry.
    pub fn gvr_to_gvk_with_registry(gvr: &GVR, registry: &ResourceRegistry) -> (r: Option<GVK>)
        ensures
            match spec_builtin_by_plural(
                spec_builtins(),
                gvr@.group,
                gvr@.version,
                gvr@.resource,
            ) {
                Some(b) => r matches Some(g) && g@ == (GvkV {
                    group: gvr@.group,
                    version: gvr@.version,
                    kind: b.kind,
                }),
                None => match crate::registry::spec_reg_lookup(
                    registry.regs(),
                    gvr@.group,
                    gvr@.version,
                    gvr@.resource,
                ) {
                    Some(m) => r matches Some(g) && g@ == (GvkV {
                        group: gvr@.group,
                        version: gvr@.version,
                        kind: m.kind,
                    }),
                    None => r is None,
                },
            },
    {
        match Self::plural_to_kind_with_registry(
            gvr.group.as_str(),
            gvr.version.as_str(),
            gvr.resource.as_str(),
            registry,
        ) {
            Some(k) => Some(GVK::new(gvr.group.as_str(), gvr.version.as_str(), k.as_str())),
            None => None,
        }
    }

    /// Whether a built-in kind has the given subresource.
    pub fn has_subresource(gvk: &GVK, subresource: &str) -> (r: bool)
        ensures
            r == match spec_lookup_kind(gvk@) {
                Some(b) => b.subresources.contains(subresource@),
                None => false,
            },
    {
        match lookup_builtin(gvk.group.as_str(), gvk.version.as_str(), gvk.kind.as_str()) {
            Some(b) => names_contain(&b.subresources, subresource),
            None => false,
        }
    }

    /// The short names of a built-in kind; an unknown kind has none.
    pub fn get_short_names(gvk: &GVK) -> (r: Vec<String>)
        ensures
            crate::selector::views_of(r@) == match spec_lookup_kind(gvk@) {
                Some(b) => b.short_names,
                None => Seq::<Seq<char>>::empty(),
            },
    {
        match lookup_builtin(gvk.group.as_str(), gvk.version.as_str(), gvk.kind.as_str()) {
            Some(b) => b.short_names,
            None => strs0(),
        }
    }

    /// Whether a built-in kind supports a verb.
    pub fn supports_verb(gvk: &GVK, verb: &str) -> (r: bool)
        ensures
            r == match spec_lookup_kind(gvk@) {
                Some(b) => b.verbs.contains(verb@),
                None => false,
            },
    {
        match lookup_builtin(gvk.group.as_str(), gvk.version.as_str(), gvk.kind.as_str()) {
            Some(b) => names_contain(&b.verbs, verb),
            None => false,
        }
    }

    /// The resource triple of a built-in kind triple.
    pub fn gvk_to_gvr(gvk: &GVK) -> (r: Option<GVR>)
        ensures
            match spec_lookup_kind(gvk@) {
                Some(b) => r matches Some(g) && g@ == (crate::tracker::GvrV {
                    group: gvk@.group,
                    version: gvk@.version,
                    resource: b.plural,
                }),
                None => r is None,
            },
    {
        match Self::get_plural(gvk) {
            Some(p) => Some(GVR::new(gvk.group.as_str(), gvk.version.as_str(), p.as_str())),
            None => None,
        }
    }

    /// The resource triple of a kind triple: the built-in table first,
    /// then the registry.
    pub fn gvk_to_gvr_with_registry(gvk: &GVK, registry: &ResourceRegistry) -> (r: Option<GVR>)
        ensures
            match spec_lookup_kind(gvk@) {
                Some(b) => r matches Some(g) && g@ == (crate::tracker::GvrV {
                    group: gvk@.group,
                    version: gvk@.version,
                    resource: b.plural,
                }),
                None => match crate::registry::spec_reg_lookup_by_kind(
                    registry.regs(),
                    gvk@.group,
                    gvk@.version,
                    gvk@.kind,
                ) {
                    Some(m) => r matches Some(g) && g@ == (crate::tracker::GvrV {
                        group: gvk@.group,
                        version: gvk@.version,
                        resource: m.plural,
                    }),
                    None => r is None,
                },
            },
    {
        match Self::get_plural(gvk) {
            Some(p) => Some(GVR::new(gvk.group.as_str(), gvk.version.as_str(), p.as_str())),
            None => {
                match registry.kind_to_plural(
                    gvk.group.as_str(),
                    gvk.version.as_str(),
                    gvk.kind.as_str(),
                ) {
                    Some(p) => Some(
                        GVR::new(gvk.group.as_str(), gvk.version.as_str(), p.as_str()),
                    ),
                    None => None,
                }
            },
        }
    }

    /// Every built-in resource, as group, version, kind and plural.
    #[verifier::loop_isolation(false)]
    pub fn list_all_resources() -> (r: Vec<(String, String, String, String)>)
        ensures
            r@.len() == spec_builtins().len(),
            forall|i: int|
                0 <= i < r@.len() ==> {
                    let b = spec_builtins()[i];
                    &&& (#[trigger] r@[i]).0@ == b.group
                    &&& r@[i].1@ == b.version
                    &&& r@[i].2@ == b.kind
                    &&& r@[i].3@ == b.plural
                },
    {
        let t = build_builtins();
        let ghost tv = t@.map_values(|b: BuiltinResource| b@);
        let n = t.len();
        let mut r: Vec<(String, String, String, String)> = Vec::new();
        let mut i: usize = 0;
        while i < n
            invariant
                0 <= i <= n,
                n == tv.len(),
                tv == t@.map_values(|b: BuiltinResource| b@),
                tv == spec_builtins(),
                r@.len() == i,
                forall|k: int|
                    0 <= k < i ==> {
                        let b = spec_builtins()[k];
                        &&& (#[trigger] r@[k]).0@ == b.group
                        &&& r@[k].1@ == b.version
                        &&& r@[k].2@ == b.kind
                        &&& r@[k].3@ == b.plural
                    },
            decreases n - i,
        {
            let b = &t[i];
            r.push(
                (b.group.clone(), b.version.clone(), b.kind.clone(), b.plural.clone()),
            );
            i = i + 1;
        }
        r
    }
}

} // verus!
