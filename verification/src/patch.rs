//! The patch engine: JSON merge patches and their content-type dispatch.
//! A strategic merge patch and an apply patch degrade to the plain merge;
//! a JSON patch is an operation list applied elsewhere.

use crate::json::{Json, JsonV, spec_get, spec_remove, spec_set};
use vstd::prelude::*;
use vstd::string::*;

verus! {

/// The patch flavors, by request content type.
#[derive(Debug, PartialEq, Eq, Structural, Clone, Copy)]
pub enum PatchType {
    /// An operation list.
    JsonPatch,
    /// An object-wise deep merge; `null` removes a field.
    MergePatch,
    /// Degrades to the plain merge.
    StrategicMergePatch,
    /// Degrades to the plain merge.
    ApplyPatch,
}

/// A merge patch folded over a document, one patch field at a time: a
/// `null` removes the field, any other value merges into it, starting
/// from `null` where the document has no such field.
pub open spec fn spec_merge_fields(doc: JsonV, pfs: Seq<(Seq<char>, JsonV)>) -> JsonV
    decreases pfs,
{
    if pfs.len() == 0 {
        doc
    } else {
        let key = pfs[0].0;
        let pv = pfs[0].1;
        let doc2 = if pv is Null {
            spec_remove(doc, key)
        } else {
            let cur = match spec_get(doc, key) {
                Option::Some(v) => v,
                Option::None => JsonV::Null,
            };
            spec_set(doc, key, spec_merge(cur, pv))
        };
        spec_merge_fields(doc2, pfs.drop_first())
    }
}

/// The merge of a document and a merge patch: an object patch merges
/// field-wise into the document (an empty object where the document is
/// not an object); any other patch replaces the document.
pub open spec fn spec_merge(doc: JsonV, patch: JsonV) -> JsonV
    decreases patch,
{
    match patch {
        JsonV::Obj(pfs) => {
            let base = if doc is Obj {
                doc
            } else {
                JsonV::Obj(Seq::empty())
            };
            spec_merge_fields(base, pfs)
        },
        _ => patch,
    }
}

/// Apply a merge patch to a document.
#[verifier::loop_isolation(false)]
pub fn merge(doc: Json, patch: &Json) -> (r: Json)
    ensures
        r@ == spec_merge(doc@, patch@),
    decreases patch,
{
    broadcast use crate::json::group_json_view_axioms;

    let ghost d0 = doc@;
    match patch {
        Json::Obj(pfs) => {
            let mut acc = if doc.is_object() {
                doc
            } else {
                Json::empty_object()
            };
            let ghost pv = crate::json::view_fields(pfs@);
            proof {
                crate::json::lemma_view_fields_len(pfs@);
                assert(pv.subrange(0, pfs@.len() as int) =~= pv);
            }
            let n = pfs.len();
            let mut i: usize = 0;
            while i < n
                invariant
                    0 <= i <= n,
                    n == pfs@.len(),
                    pv.len() == n,
                    spec_merge(d0, patch@) == spec_merge_fields(
                        acc@,
                        pv.subrange(i as int, n as int),
                    ),
                decreases n - i,
            {
                proof {
                    crate::json::lemma_view_fields_index(pfs@, i as int);
                }
                let key = pfs[i].0.as_str();
                let pval = &pfs[i].1;
                let ghost pre = pv.subrange(i as int, n as int);
                proof {
                    assert(pre[0] == pv[i as int]);
                    assert(pre.drop_first() =~= pv.subrange(i as int + 1, n as int));
                }
                match pval {
                    Json::Null => {
                        acc = acc.remove(key);
                    },
                    _ => {
                        let cur = match acc.get(key) {
                            Some(v) => v.duplicate(),
                            None => Json::Null,
                        };
                        let merged = merge(cur, pval);
                        acc = acc.set(key, merged);
                    },
                }
                i = i + 1;
            }
            proof {
                assert(pv.subrange(n as int, n as int) =~= Seq::<(Seq<char>, JsonV)>::empty());
            }
            acc
        },
        _ => patch.duplicate(),
    }
}

} // verus!
