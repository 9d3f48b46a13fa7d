//! The immutability enforcer: a table of fields that may not change after
//! creation, and the diff that rejects the first changed immutable field.
//!
//! Object metadata contributes a fixed floor; the top-level `apiVersion`
//! and `kind` are always immutable; per-kind entries come from the fields
//! the OpenAPI documents call immutable.

use crate::error::Error;
use crate::json::{Json, JsonV, json_eq, spec_get, view_fields};
use crate::strutil::str_eq;
use crate::tracker::GVK;
use vstd::prelude::*;
use vstd::string::*;

verus! {

/// Whether a field of the given type is immutable: `apiVersion` and
/// `kind` always; the object-metadata floor of `name`, `namespace`,
/// `uid`, `creationTimestamp`, `generateName` and `generation`; and the
/// per-kind table.
pub open spec fn spec_is_field_immutable(
    group: Seq<char>,
    version: Seq<char>,
    kind: Seq<char>,
    field: Seq<char>,
) -> bool {
    ||| field == "apiVersion"@
    ||| field == "kind"@
    ||| (group == ""@ && version == "v1"@ && kind == "ObjectMeta"@ && (field == "name"@ || field
        == "namespace"@ || field == "uid"@ || field == "creationTimestamp"@ || field
        == "generateName"@ || field == "generation"@))
    ||| (group == ""@ && version == "v1"@ && kind == "PodSpec"@ && field == "resourceClaims"@)
    ||| (group == ""@ && version == "v1"@ && kind == "ServiceSpec"@ && field == "clusterIP"@)
}

/// Whether a field of the given type is immutable.
pub fn is_field_immutable(group: &str, version: &str, kind: &str, field_name: &str) -> (r: bool)
    ensures
        r == spec_is_field_immutable(group@, version@, kind@, field_name@),
{
    proof {
        reveal_strlit("");
        reveal_strlit("v1");
        reveal_strlit("ObjectMeta");
        reveal_strlit("PodSpec");
        reveal_strlit("ServiceSpec");
        assert("ObjectMeta"@.len() == 10);
        assert("PodSpec"@.len() == 7);
        assert("ServiceSpec"@.len() == 11);
        assert("ObjectMeta"@ != "PodSpec"@);
        assert("ObjectMeta"@ != "ServiceSpec"@);
        assert("PodSpec"@ != "ServiceSpec"@);
    }
    if str_eq(field_name, "apiVersion") || str_eq(field_name, "kind") {
        return true;
    }
    if str_eq(group, "") && str_eq(version, "v1") && str_eq(kind, "ObjectMeta") {
        return str_eq(field_name, "name") || str_eq(field_name, "namespace") || str_eq(
            field_name,
            "uid",
        ) || str_eq(field_name, "creationTimestamp") || str_eq(field_name, "generateName")
            || str_eq(field_name, "generation");
    }
    if str_eq(group, "") && str_eq(version, "v1") && str_eq(kind, "PodSpec") {
        return str_eq(field_name, "resourceClaims");
    }
    if str_eq(group, "") && str_eq(version, "v1") && str_eq(kind, "ServiceSpec") {
        return str_eq(field_name, "clusterIP");
    }
    false
}

/// Whether a field name is skipped by the scope: the subtrees handled
/// separately at the top level, and the server-managed metadata fields.
pub open spec fn spec_scope_skips(prefix: Seq<char>, field: Seq<char>) -> bool {
    ||| (prefix.len() == 0 && (field == "metadata"@ || field == "spec"@ || field == "status"@))
    ||| (prefix == "metadata"@ && (field == "resourceVersion"@ || field == "generation"@ || field
        == "uid"@ || field == "creationTimestamp"@))
}

/// The first field of `new`, in field order, that the table marks
/// immutable, that `old` also carries, and whose value changed; reported
/// as its path under the prefix.
pub open spec fn spec_check_fields(
    group: Seq<char>,
    version: Seq<char>,
    kind: Seq<char>,
    old_fs: JsonV,
    nfs: Seq<(Seq<char>, JsonV)>,
    prefix: Seq<char>,
) -> Option<Seq<char>>
    decreases nfs.len(),
{
    if nfs.len() == 0 {
        Option::None
    } else {
        let field = nfs[0].0;
        let nv = nfs[0].1;
        let bad = !spec_scope_skips(prefix, field) && spec_is_field_immutable(
            group,
            version,
            kind,
            field,
        ) && match spec_get(old_fs, field) {
            Option::Some(ov) => ov != nv,
            Option::None => false,
        };
        if bad {
            Option::Some(
                if prefix.len() == 0 {
                    field
                } else {
                    prefix + "."@ + field
                },
            )
        } else {
            spec_check_fields(group, version, kind, old_fs, nfs.drop_first(), prefix)
        }
    }
}

/// What the scope check finds: nothing unless both values are objects.
pub open spec fn spec_check_object(
    group: Seq<char>,
    version: Seq<char>,
    kind: Seq<char>,
    old: JsonV,
    new: JsonV,
    prefix: Seq<char>,
) -> Option<Seq<char>> {
    match (old, new) {
        (JsonV::Obj(_), JsonV::Obj(nfs)) => spec_check_fields(group, version, kind, old, nfs, prefix),
        _ => Option::None,
    }
}

/// Diff one scope of two documents against the table; the first changed
/// immutable field fails the write.
#[verifier::loop_isolation(false)]
fn check_immutable_object(
    group: &str,
    version: &str,
    kind: &str,
    old: &Json,
    new: &Json,
    path_prefix: &str,
) -> (r: Result<(), Error>)
    ensures
        match r {
            Ok(_) => spec_check_object(group@, version@, kind@, old@, new@, path_prefix@) is None,
            Err(e) => spec_check_object(group@, version@, kind@, old@, new@, path_prefix@) matches Some(
                p,
            ) && (e matches Error::ImmutableField { field } && field@ == p),
        },
{
    broadcast use crate::json::group_json_view_axioms;

    if !old.is_object() || !new.is_object() {
        return Ok(());
    }
    match new {
        Json::Obj(nfs) => {
            let ghost nv = view_fields(nfs@);
            let n = nfs.len();
            proof {
                crate::json::lemma_view_fields_len(nfs@);
                assert(nv.subrange(0, n as int) =~= nv);
            }
            let mut i: usize = 0;
            while i < n
                invariant
                    0 <= i <= n,
                    n == nfs@.len(),
                    nv.len() == n,
                    spec_check_object(group@, version@, kind@, old@, new@, path_prefix@)
                        == spec_check_fields(
                        group@,
                        version@,
                        kind@,
                        old@,
                        nv.subrange(i as int, n as int),
                        path_prefix@,
                    ),
                decreases n - i,
            {
                proof {
                    crate::json::lemma_view_fields_index(nfs@, i as int);
                    let pre = nv.subrange(i as int, n as int);
                    assert(pre[0] == nv[i as int]);
                    assert(pre.drop_first() =~= nv.subrange(i as int + 1, n as int));
                }
                let field = nfs[i].0.as_str();
                let nval = &nfs[i].1;
                let plen = path_prefix.unicode_len();
                let skip = (plen == 0 && (str_eq(field, "metadata") || str_eq(field, "spec")
                    || str_eq(field, "status"))) || (str_eq(path_prefix, "metadata") && (str_eq(
                    field,
                    "resourceVersion",
                ) || str_eq(field, "generation") || str_eq(field, "uid") || str_eq(
                    field,
                    "creationTimestamp",
                )));
                if !skip && is_field_immutable(group, version, kind, field) {
                    match old.get(field) {
                        Some(ov) => {
                            if !json_eq(ov, nval) {
                                let full_path: String = if plen == 0 {
                                    field.to_owned()
                                } else {
                                    let mut p: String = path_prefix.to_owned();
                                    p.append(".");
                                    p.append(field);
                                    p
                                };
                                proof {
                                    reveal_strlit(".");
                                }
                                return Err(Error::ImmutableField { field: full_path });
                            }
                        },
                        None => {},
                    }
                }
                i = i + 1;
            }
            proof {
                assert(nv.subrange(n as int, n as int) =~= Seq::<(Seq<char>, JsonV)>::empty());
            }
            Ok(())
        },
        _ => Ok(()),
    }
}

/// The first immutable-field change between two documents, checked at
/// three scopes: the top level against the kind, the metadata against the
/// object-metadata table, and the spec against the kind's spec type.
pub open spec fn spec_validate_immutable(gvk: crate::tracker::GvkV, old: JsonV, new: JsonV) -> Option<
    Seq<char>,
> {
    match spec_check_object(gvk.group, gvk.version, gvk.kind, old, new, ""@) {
        Option::Some(p) => Option::Some(p),
        Option::None => {
            let meta_bad = match (spec_get(old, "metadata"@), spec_get(new, "metadata"@)) {
                (Option::Some(om), Option::Some(nm)) => spec_check_object(
                    ""@,
                    "v1"@,
                    "ObjectMeta"@,
                    om,
                    nm,
                    "metadata"@,
                ),
                _ => Option::None,
            };
            match meta_bad {
                Option::Some(p) => Option::Some(p),
                Option::None => match (spec_get(old, "spec"@), spec_get(new, "spec"@)) {
                    (Option::Some(os), Option::Some(ns)) => spec_check_object(
                        gvk.group,
                        gvk.version,
                        gvk.kind + "Spec"@,
                        os,
                        ns,
                        "spec"@,
                    ),
                    _ => Option::None,
                },
            }
        },
    }
}

/// Check that no immutable field changed between the stored and the
/// incoming document.
pub fn validate_immutable_fields(gvk: &GVK, old: &Json, new: &Json) -> (r: Result<(), Error>)
    ensures
        match r {
            Ok(_) => spec_validate_immutable(gvk@, old@, new@) is None,
            Err(e) => spec_validate_immutable(gvk@, old@, new@) matches Some(p) && (
            e matches Error::ImmutableField { field } && field@ == p),
        },
{
    match check_immutable_object(
        gvk.group.as_str(),
        gvk.version.as_str(),
        gvk.kind.as_str(),
        old,
        new,
        "",
    ) {
        Err(e) => {
            return Err(e);
        },
        Ok(_) => {},
    }
    match (old.get("metadata"), new.get("metadata")) {
        (Some(om), Some(nm)) => {
            match check_immutable_object("", "v1", "ObjectMeta", om, nm, "metadata") {
                Err(e) => {
                    return Err(e);
                },
                Ok(_) => {},
            }
        },
        _ => {},
    }
    match (old.get("spec"), new.get("spec")) {
        (Some(os), Some(ns)) => {
            let spec_kind = gvk.kind.clone().concat("Spec");
            check_immutable_object(
                gvk.group.as_str(),
                gvk.version.as_str(),
                spec_kind.as_str(),
                os,
                ns,
                "spec",
            )
        },
        _ => Ok(()),
    }
}

} // verus!

verus! {

/// A found field stands somewhere in the field list.
proof fn lemma_lookup_witness(fs: Seq<(Seq<char>, JsonV)>, k: Seq<char>)
    requires
        crate::json::obj_lookup(fs, k) is Some,
    ensures
        exists|i: int|
            0 <= i < fs.len() && (#[trigger] fs[i]).0 == k && fs[i].1 == crate::json::obj_lookup(
                fs,
                k,
            )->0,
    decreases fs.len(),
{
    if fs.len() > 0 {
        if fs[0].0 == k {
            assert(fs[0].0 == k && fs[0].1 == crate::json::obj_lookup(fs, k)->0);
        } else {
            lemma_lookup_witness(fs.drop_first(), k);
            let j = choose|j: int|
                0 <= j < fs.drop_first().len() && (#[trigger] fs.drop_first()[j]).0 == k
                    && fs.drop_first()[j].1 == crate::json::obj_lookup(fs.drop_first(), k)->0;
            assert(fs[j + 1].0 == k && fs[j + 1].1 == crate::json::obj_lookup(fs, k)->0);
        }
    }
}

/// A bad field at position `i` means the scope check finds some bad
/// field.
proof fn lemma_check_fields_finds(
    group: Seq<char>,
    version: Seq<char>,
    kind: Seq<char>,
    old_fs: JsonV,
    nfs: Seq<(Seq<char>, JsonV)>,
    prefix: Seq<char>,
    i: int,
)
    requires
        0 <= i < nfs.len(),
        !spec_scope_skips(prefix, nfs[i].0),
        spec_is_field_immutable(group, version, kind, nfs[i].0),
        spec_get(old_fs, nfs[i].0) matches Some(ov) && ov != nfs[i].1,
    ensures
        spec_check_fields(group, version, kind, old_fs, nfs, prefix) is Some,
    decreases i,
{
    let field = nfs[0].0;
    let nv = nfs[0].1;
    let bad0 = !spec_scope_skips(prefix, field) && spec_is_field_immutable(
        group,
        version,
        kind,
        field,
    ) && match spec_get(old_fs, field) {
        Option::Some(ov) => ov != nv,
        Option::None => false,
    };
    if !bad0 {
        assert(i != 0);
        assert(nfs.drop_first()[i - 1] == nfs[i]);
        lemma_check_fields_finds(group, version, kind, old_fs, nfs.drop_first(), prefix, i - 1);
    }
}

/// Immutability holds: an update or patch whose document changes a field
/// the kind's table marks immutable does not pass the immutability check,
/// so the write is rejected and the store stays as it was.
pub proof fn lemma_immutable_change_is_caught(
    gvk: crate::tracker::GvkV,
    old: JsonV,
    new: JsonV,
    field: Seq<char>,
)
    requires
        old is Obj,
        new is Obj,
        spec_is_field_immutable(gvk.group, gvk.version, gvk.kind, field),
        field != "metadata"@ && field != "spec"@ && field != "status"@,
        spec_get(new, field) is Some,
        spec_get(old, field) is Some,
        spec_get(new, field) != spec_get(old, field),
    ensures
        spec_validate_immutable(gvk, old, new) is Some,
{
    let nfs = new->Obj_0;
    lemma_lookup_witness(nfs, field);
    let i = choose|i: int|
        0 <= i < nfs.len() && (#[trigger] nfs[i]).0 == field && nfs[i].1 == crate::json::obj_lookup(
            nfs,
            field,
        )->0;
    assert(!spec_scope_skips(""@, field)) by {
        reveal_strlit("");
        reveal_strlit("metadata");
        assert(""@.len() == 0);
        assert("metadata"@.len() == 8);
    }
    lemma_check_fields_finds(gvk.group, gvk.version, gvk.kind, old, nfs, ""@, i);
}

/// Immutability holds for the metadata floor: a write whose metadata
/// changes a field the object-metadata table marks immutable, other than
/// the server-managed ones, does not pass the immutability check.
pub proof fn lemma_immutable_meta_change_is_caught(
    gvk: crate::tracker::GvkV,
    old: JsonV,
    new: JsonV,
    field: Seq<char>,
)
    requires
        spec_get(old, "metadata"@) matches Some(om) && om is Obj,
        spec_get(new, "metadata"@) matches Some(nm) && nm is Obj,
        spec_is_field_immutable(""@, "v1"@, "ObjectMeta"@, field),
        !spec_scope_skips("metadata"@, field),
        spec_get(spec_get(new, "metadata"@)->0, field) is Some,
        spec_get(spec_get(old, "metadata"@)->0, field) is Some,
        spec_get(spec_get(new, "metadata"@)->0, field) != spec_get(
            spec_get(old, "metadata"@)->0,
            field,
        ),
    ensures
        spec_validate_immutable(gvk, old, new) is Some,
{
    let om = spec_get(old, "metadata"@)->0;
    let nm = spec_get(new, "metadata"@)->0;
    let nfs = nm->Obj_0;
    lemma_lookup_witness(nfs, field);
    let i = choose|i: int|
        0 <= i < nfs.len() && (#[trigger] nfs[i]).0 == field && nfs[i].1 == crate::json::obj_lookup(
            nfs,
            field,
        )->0;
    lemma_check_fields_finds(""@, "v1"@, "ObjectMeta"@, om, nfs, "metadata"@, i);
}

} // verus!
