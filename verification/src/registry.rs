//! The resource registry: custom resource types registered at runtime,
//! looked up by plural or by kind. Like a real cluster, a custom resource
//! must be registered before its URLs resolve.

use crate::strutil::str_eq;
use vstd::prelude::*;
use vstd::string::*;

verus! {

/// What is known of a registered resource type.
#[derive(Debug)]
pub struct ResourceMetadata {
    pub kind: String,
    pub group: String,
    pub version: String,
    pub plural: String,
    pub namespaced: bool,
}

/// The mathematical value of a registration.
pub struct ResourceMetadataV {
    pub kind: Seq<char>,
    pub group: Seq<char>,
    pub version: Seq<char>,
    pub plural: Seq<char>,
    pub namespaced: bool,
}

impl View for ResourceMetadata {
    type V = ResourceMetadataV;

    open spec fn view(&self) -> ResourceMetadataV {
        ResourceMetadataV {
            kind: self.kind@,
            group: self.group@,
            version: self.version@,
            plural: self.plural@,
            namespaced: self.namespaced,
        }
    }
}

impl ResourceMetadata {
    /// A copy with the same components.
    pub fn duplicate(&self) -> (r: ResourceMetadata)
        ensures
            r@ == self@,
    {
        ResourceMetadata {
            kind: self.kind.clone(),
            group: self.group.clone(),
            version: self.version.clone(),
            plural: self.plural.clone(),
            namespaced: self.namespaced,
        }
    }
}

/// The first registration keyed by group, version and plural.
pub open spec fn spec_reg_lookup(
    rs: Seq<ResourceMetadataV>,
    group: Seq<char>,
    version: Seq<char>,
    plural: Seq<char>,
) -> Option<ResourceMetadataV>
    decreases rs.len(),
{
    if rs.len() == 0 {
        None
    } else if rs[0].group == group && rs[0].version == version && rs[0].plural == plural {
        Some(rs[0])
    } else {
        spec_reg_lookup(rs.drop_first(), group, version, plural)
    }
}

/// The first registration with the given group, version and kind.
pub open spec fn spec_reg_lookup_by_kind(
    rs: Seq<ResourceMetadataV>,
    group: Seq<char>,
    version: Seq<char>,
    kind: Seq<char>,
) -> Option<ResourceMetadataV>
    decreases rs.len(),
{
    if rs.len() == 0 {
        None
    } else if rs[0].group == group && rs[0].version == version && rs[0].kind == kind {
        Some(rs[0])
    } else {
        spec_reg_lookup_by_kind(rs.drop_first(), group, version, kind)
    }
}

/// The default scope of a custom resource whose registration does not
/// say: most are namespaced.
pub fn is_namespaced_resource() -> (r: bool)
    ensures
        r == true,
{
    true
}

/// The registry of custom resource types.
#[derive(Debug)]
pub struct ResourceRegistry {
    resources: Vec<ResourceMetadata>,
}

impl ResourceRegistry {
    /// The registrations, in the order their keys first arrived.
    pub closed spec fn regs(&self) -> Seq<ResourceMetadataV> {
        self.resources@.map_values(|m: ResourceMetadata| m@)
    }

    /// An empty registry.
    pub fn new() -> (r: ResourceRegistry)
        ensures
            r.regs() == Seq::<ResourceMetadataV>::empty(),
    {
        let r = ResourceRegistry { resources: Vec::new() };
        proof {
            assert(r.regs() =~= Seq::<ResourceMetadataV>::empty());
        }
        r
    }

    /// Register a resource type with its scope: a registration with the
    /// same group, version and plural is replaced, a new key is appended,
    /// and every other key reads as before.
    #[verifier::loop_isolation(false)]
    pub fn register(&mut self, kind: &str, group: &str, version: &str, plural: &str, namespaced: bool)
        ensures
            forall|g: Seq<char>, v: Seq<char>, p: Seq<char>|
                #[trigger] spec_reg_lookup(final(self).regs(), g, v, p) == if g == group@ && v
                    == version@ && p == plural@ {
                    Some(
                        ResourceMetadataV {
                            kind: kind@,
                            group: group@,
                            version: version@,
                            plural: plural@,
                            namespaced: namespaced,
                        },
                    )
                } else {
                    spec_reg_lookup(old(self).regs(), g, v, p)
                },
            spec_reg_lookup_by_kind(final(self).regs(), group@, version@, kind@) is Some,
    {
        let m = ResourceMetadata {
            kind: kind.to_owned(),
            group: group.to_owned(),
            version: version.to_owned(),
            plural: plural.to_owned(),
            namespaced,
        };
        let ghost mv = m@;
        let ghost pre = self.regs();
        let n = self.resources.len();
        let mut i: usize = 0;
        while i < n
            invariant
                0 <= i <= n,
                n == pre.len(),
                pre == self.regs(),
                forall|j: int|
                    0 <= j < i ==> !((#[trigger] pre[j]).group == group@ && pre[j].version
                        == version@ && pre[j].plural == plural@),
            decreases n - i,
        {
            let e = &self.resources[i];
            if str_eq(e.group.as_str(), group) && str_eq(e.version.as_str(), version) && str_eq(
                e.plural.as_str(),
                plural,
            ) {
                self.resources[i] = m;
                proof {
                    assert(self.regs() =~= pre.update(i as int, mv));
                    lemma_reg_lookup_update(pre, i as int, mv);
                    lemma_reg_by_kind_found(self.regs(), i as int);
                }
                return ;
            }
            i = i + 1;
        }
        self.resources.push(m);
        proof {
            assert(self.regs() =~= pre.push(mv));
            lemma_reg_lookup_push(pre, mv);
            lemma_reg_by_kind_found(self.regs(), pre.len() as int);
        }
    }

    /// Look a resource up by group, version and plural.
    #[verifier::loop_isolation(false)]
    pub fn lookup(&self, group: &str, version: &str, plural: &str) -> (r: Option<ResourceMetadata>)
        ensures
            match r {
                Some(m) => spec_reg_lookup(self.regs(), group@, version@, plural@) == Some(m@),
                None => spec_reg_lookup(self.regs(), group@, version@, plural@) is None,
            },
    {
        let n = self.resources.len();
        let mut i: usize = 0;
        while i < n
            invariant
                0 <= i <= n,
                n == self.regs().len(),
                forall|j: int|
                    0 <= j < i ==> !((#[trigger] self.regs()[j]).group == group@
                        && self.regs()[j].version == version@ && self.regs()[j].plural == plural@),
            decreases n - i,
        {
            let e = &self.resources[i];
            if str_eq(e.group.as_str(), group) && str_eq(e.version.as_str(), version) && str_eq(
                e.plural.as_str(),
                plural,
            ) {
                proof {
                    lemma_reg_lookup_found(self.regs(), group@, version@, plural@, i as int);
                }
                return Some(e.duplicate());
            }
            i = i + 1;
        }
        proof {
            lemma_reg_lookup_absent(self.regs(), group@, version@, plural@);
        }
        None
    }

    /// The kind registered for a plural name.
    pub fn plural_to_kind(&self, group: &str, version: &str, plural: &str) -> (r: Option<String>)
        ensures
            match r {
                Some(k) => spec_reg_lookup(self.regs(), group@, version@, plural@) matches Some(m)
                    && m.kind == k@,
                None => spec_reg_lookup(self.regs(), group@, version@, plural@) is None,
            },
    {
        match self.lookup(group, version, plural) {
            Some(m) => Some(m.kind),
            None => None,
        }
    }

    /// Look a resource up by group, version and kind.
    #[verifier::loop_isolation(false)]
    pub fn lookup_by_kind(&self, group: &str, version: &str, kind: &str) -> (r: Option<
        ResourceMetadata,
    >)
        ensures
            match r {
                Some(m) => spec_reg_lookup_by_kind(self.regs(), group@, version@, kind@) == Some(
                    m@,
                ),
                None => spec_reg_lookup_by_kind(self.regs(), group@, version@, kind@) is None,
            },
    {
        let n = self.resources.len();
        let mut i: usize = 0;
        while i < n
            invariant
                0 <= i <= n,
                n == self.regs().len(),
                forall|j: int|
                    0 <= j < i ==> !((#[trigger] self.regs()[j]).group == group@
                        && self.regs()[j].version == version@ && self.regs()[j].kind == kind@),
            decreases n - i,
        {
            let e = &self.resources[i];
            if str_eq(e.group.as_str(), group) && str_eq(e.version.as_str(), version) && str_eq(
                e.kind.as_str(),
                kind,
            ) {
                proof {
                    lemma_reg_by_kind_at(self.regs(), group@, version@, kind@, i as int);
                }
                return Some(e.duplicate());
            }
            i = i + 1;
        }
        proof {
            lemma_reg_by_kind_absent(self.regs(), group@, version@, kind@);
        }
        None
    }

    /// The plural registered for a kind.
    pub fn kind_to_plural(&self, group: &str, version: &str, kind: &str) -> (r: Option<String>)
        ensures
            match r {
                Some(p) => spec_reg_lookup_by_kind(self.regs(), group@, version@, kind@) matches Some(
                    m,
                ) && m.plural == p@,
                None => spec_reg_lookup_by_kind(self.regs(), group@, version@, kind@) is None,
            },
    {
        match self.lookup_by_kind(group, version, kind) {
            Some(m) => Some(m.plural),
            None => None,
        }
    }

    /// Whether a registered kind is namespaced.
    pub fn is_namespaced(&self, group: &str, version: &str, kind: &str) -> (r: Option<bool>)
        ensures
            match r {
                Some(b) => spec_reg_lookup_by_kind(self.regs(), group@, version@, kind@) matches Some(
                    m,
                ) && m.namespaced == b,
                None => spec_reg_lookup_by_kind(self.regs(), group@, version@, kind@) is None,
            },
    {
        match self.lookup_by_kind(group, version, kind) {
            Some(m) => Some(m.namespaced),
            None => None,
        }
    }
}

proof fn lemma_reg_lookup_found(
    rs: Seq<ResourceMetadataV>,
    g: Seq<char>,
    v: Seq<char>,
    p: Seq<char>,
    i: int,
)
    requires
        0 <= i < rs.len(),
        rs[i].group == g && rs[i].version == v && rs[i].plural == p,
        forall|j: int|
            0 <= j < i ==> !((#[trigger] rs[j]).group == g && rs[j].version == v && rs[j].plural
                == p),
    ensures
        spec_reg_lookup(rs, g, v, p) == Some(rs[i]),
    decreases i,
{
    if i > 0 {
        let tail = rs.drop_first();
        assert(tail[i - 1] == rs[i]);
        assert(forall|j: int|
            0 <= j < i - 1 ==> !((#[trigger] tail[j]).group == g && tail[j].version == v
                && tail[j].plural == p));
        lemma_reg_lookup_found(tail, g, v, p, i - 1);
    }
}

proof fn lemma_reg_lookup_absent(
    rs: Seq<ResourceMetadataV>,
    g: Seq<char>,
    v: Seq<char>,
    p: Seq<char>,
)
    requires
        forall|j: int|
            0 <= j < rs.len() ==> !((#[trigger] rs[j]).group == g && rs[j].version == v
                && rs[j].plural == p),
    ensures
        spec_reg_lookup(rs, g, v, p) is None,
    decreases rs.len(),
{
    if rs.len() > 0 {
        lemma_reg_lookup_absent(rs.drop_first(), g, v, p);
    }
}

proof fn lemma_reg_by_kind_at(
    rs: Seq<ResourceMetadataV>,
    g: Seq<char>,
    v: Seq<char>,
    k: Seq<char>,
    i: int,
)
    requires
        0 <= i < rs.len(),
        rs[i].group == g && rs[i].version == v && rs[i].kind == k,
        forall|j: int|
            0 <= j < i ==> !((#[trigger] rs[j]).group == g && rs[j].version == v && rs[j].kind
                == k),
    ensures
        spec_reg_lookup_by_kind(rs, g, v, k) == Some(rs[i]),
    decreases i,
{
    if i > 0 {
        let tail = rs.drop_first();
        assert(tail[i - 1] == rs[i]);
        assert(forall|j: int|
            0 <= j < i - 1 ==> !((#[trigger] tail[j]).group == g && tail[j].version == v
                && tail[j].kind == k));
        lemma_reg_by_kind_at(tail, g, v, k, i - 1);
    }
}

proof fn lemma_reg_by_kind_absent(
    rs: Seq<ResourceMetadataV>,
    g: Seq<char>,
    v: Seq<char>,
    k: Seq<char>,
)
    requires
        forall|j: int|
            0 <= j < rs.len() ==> !((#[trigger] rs[j]).group == g && rs[j].version == v
                && rs[j].kind == k),
    ensures
        spec_reg_lookup_by_kind(rs, g, v, k) is None,
    decreases rs.len(),
{
    if rs.len() > 0 {
        lemma_reg_by_kind_absent(rs.drop_first(), g, v, k);
    }
}

/// A registration found somewhere keeps some registration findable, by
/// the same key, after the sequence grows or changes elsewhere.
proof fn lemma_reg_by_kind_found(rs: Seq<ResourceMetadataV>, i: int)
    requires
        0 <= i < rs.len(),
    ensures
        spec_reg_lookup_by_kind(rs, rs[i].group, rs[i].version, rs[i].kind) is Some,
    decreases i,
{
    if i > 0 {
        if rs[0].group == rs[i].group && rs[0].version == rs[i].version && rs[0].kind
            == rs[i].kind {
        } else {
            let tail = rs.drop_first();
            assert(tail[i - 1] == rs[i]);
            lemma_reg_by_kind_found(tail, i - 1);
        }
    }
}

proof fn lemma_reg_lookup_update(rs: Seq<ResourceMetadataV>, i: int, m: ResourceMetadataV)
    requires
        0 <= i < rs.len(),
        rs[i].group == m.group && rs[i].version == m.version && rs[i].plural == m.plural,
        forall|j: int|
            0 <= j < i ==> !((#[trigger] rs[j]).group == m.group && rs[j].version == m.version
                && rs[j].plural == m.plural),
    ensures
        forall|g: Seq<char>, v: Seq<char>, p: Seq<char>|
            #[trigger] spec_reg_lookup(rs.update(i, m), g, v, p) == if g == m.group && v
                == m.version && p == m.plural {
                Some(m)
            } else {
                spec_reg_lookup(rs, g, v, p)
            },
    decreases i,
{
    assert forall|g: Seq<char>, v: Seq<char>, p: Seq<char>| true implies #[trigger] spec_reg_lookup(
        rs.update(i, m),
        g,
        v,
        p,
    ) == if g == m.group && v == m.version && p == m.plural {
        Some(m)
    } else {
        spec_reg_lookup(rs, g, v, p)
    } by {
        lemma_reg_lookup_update_one(rs, i, m, g, v, p);
    }
}

proof fn lemma_reg_lookup_update_one(
    rs: Seq<ResourceMetadataV>,
    i: int,
    m: ResourceMetadataV,
    g: Seq<char>,
    v: Seq<char>,
    p: Seq<char>,
)
    requires
        0 <= i < rs.len(),
        rs[i].group == m.group && rs[i].version == m.version && rs[i].plural == m.plural,
        forall|j: int|
            0 <= j < i ==> !((#[trigger] rs[j]).group == m.group && rs[j].version == m.version
                && rs[j].plural == m.plural),
    ensures
        spec_reg_lookup(rs.update(i, m), g, v, p) == if g == m.group && v == m.version && p
            == m.plural {
            Some(m)
        } else {
            spec_reg_lookup(rs, g, v, p)
        },
    decreases rs.len(),
{
    let s2 = rs.update(i, m);
    if i == 0 {
        assert(s2[0] == m);
        assert(s2.drop_first() =~= rs.drop_first());
        if g == m.group && v == m.version && p == m.plural {
        } else {
            assert(spec_reg_lookup(s2, g, v, p) == spec_reg_lookup(s2.drop_first(), g, v, p));
        }
    } else {
        assert(s2[0] == rs[0]);
        assert(s2.drop_first() =~= rs.drop_first().update(i - 1, m));
        assert(rs.drop_first()[i - 1] == rs[i]);
        assert(forall|j: int|
            0 <= j < i - 1 ==> !((#[trigger] rs.drop_first()[j]).group == m.group
                && rs.drop_first()[j].version == m.version && rs.drop_first()[j].plural
                == m.plural));
        lemma_reg_lookup_update_one(rs.drop_first(), i - 1, m, g, v, p);
    }
}

proof fn lemma_reg_lookup_push(rs: Seq<ResourceMetadataV>, m: ResourceMetadataV)
    requires
        forall|j: int|
            0 <= j < rs.len() ==> !((#[trigger] rs[j]).group == m.group && rs[j].version
                == m.version && rs[j].plural == m.plural),
    ensures
        forall|g: Seq<char>, v: Seq<char>, p: Seq<char>|
            #[trigger] spec_reg_lookup(rs.push(m), g, v, p) == if g == m.group && v == m.version
                && p == m.plural {
                Some(m)
            } else {
                spec_reg_lookup(rs, g, v, p)
            },
{
    assert forall|g: Seq<char>, v: Seq<char>, p: Seq<char>| true implies #[trigger] spec_reg_lookup(
        rs.push(m),
        g,
        v,
        p,
    ) == if g == m.group && v == m.version && p == m.plural {
        Some(m)
    } else {
        spec_reg_lookup(rs, g, v, p)
    } by {
        lemma_reg_lookup_push_one(rs, m, g, v, p);
    }
}

proof fn lemma_reg_lookup_push_one(
    rs: Seq<ResourceMetadataV>,
    m: ResourceMetadataV,
    g: Seq<char>,
    v: Seq<char>,
    p: Seq<char>,
)
    requires
        forall|j: int|
            0 <= j < rs.len() ==> !((#[trigger] rs[j]).group == m.group && rs[j].version
                == m.version && rs[j].plural == m.plural),
    ensures
        spec_reg_lookup(rs.push(m), g, v, p) == if g == m.group && v == m.version && p == m.plural {
            Some(m)
        } else {
            spec_reg_lookup(rs, g, v, p)
        },
    decreases rs.len(),
{
    let s2 = rs.push(m);
    if rs.len() == 0 {
        assert(s2[0] == m);
        assert(s2.drop_first() =~= Seq::<ResourceMetadataV>::empty());
    } else {
        assert(s2[0] == rs[0]);
        assert(s2.drop_first() =~= rs.drop_first().push(m));
        lemma_reg_lookup_push_one(rs.drop_first(), m, g, v, p);
    }
}

} // verus!
