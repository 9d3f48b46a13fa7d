//! Kind-level helpers: reading the group, version and kind of a document,
//! and the pluralization fallback used when seeding objects.

use crate::error::Error;
use crate::json::{Json, JsonV, spec_get};
use crate::strutil::{ascii_lowercase, lower_char, spec_find_sub, str_eq};
use crate::tracker::{GVK, GvkV};
use vstd::prelude::*;
use vstd::string::*;

verus! {

/// A top-level string field of a document, if it has one.
pub open spec fn spec_top_string(obj: JsonV, key: Seq<char>) -> Option<Seq<char>> {
    match spec_get(obj, key) {
        Option::Some(JsonV::Str(s)) => Option::Some(s),
        _ => Option::None,
    }
}

/// The kind triple a document names: `apiVersion` split at its first
/// slash into group and version (no slash: the core group, whose name is
/// empty), and the `kind` field.
pub open spec fn spec_extract_gvk(obj: JsonV) -> Option<GvkV> {
    match (spec_top_string(obj, "apiVersion"@), spec_top_string(obj, "kind"@)) {
        (Option::Some(av), Option::Some(kind)) => {
            let i = spec_find_sub(av, "/"@);
            if i >= 0 {
                Option::Some(
                    GvkV {
                        group: av.subrange(0, i),
                        version: av.subrange(i + 1, av.len() as int),
                        kind: kind,
                    },
                )
            } else {
                Option::Some(GvkV { group: Seq::empty(), version: av, kind: kind })
            }
        },
        _ => Option::None,
    }
}

/// Read the kind triple of a document. A missing or non-string
/// `apiVersion` or `kind` is an invalid request.
pub fn extract_gvk(value: &Json) -> (r: Result<GVK, Error>)
    ensures
        match r {
            Ok(g) => spec_extract_gvk(value@) == Some(g@),
            Err(e) => spec_extract_gvk(value@) is None && e is InvalidRequest,
        },
        spec_top_string(value@, "apiVersion"@) is None ==> (r matches Err(
            Error::InvalidRequest(m),
        ) && m@ == "Missing apiVersion"@),
        spec_top_string(value@, "apiVersion"@) is Some && spec_top_string(value@, "kind"@) is None
            ==> (r matches Err(Error::InvalidRequest(m)) && m@ == "Missing kind"@),
{
    let av = match value.get("apiVersion") {
        Some(v) => match v {
            Json::Str(s) => s.clone(),
            _ => {
                return Err(Error::InvalidRequest("Missing apiVersion".to_owned()));
            },
        },
        None => {
            return Err(Error::InvalidRequest("Missing apiVersion".to_owned()));
        },
    };
    let kind = match value.get("kind") {
        Some(v) => match v {
            Json::Str(s) => s.clone(),
            _ => {
                return Err(Error::InvalidRequest("Missing kind".to_owned()));
            },
        },
        None => {
            return Err(Error::InvalidRequest("Missing kind".to_owned()));
        },
    };
    proof {
        reveal_strlit("/");
    }
    let avs = av.as_str();
    let avlen = avs.unicode_len();
    match crate::strutil::find_sub(avs, "/") {
        Some(i) => {
            proof {
                crate::strutil::lemma_find_from(avs@, "/"@, 0);
            }
            let group = avs.substring_char(0, i);
            let version = avs.substring_char(i + 1, avlen);
            Ok(GVK::new(group, version, kind.as_str()))
        },
        None => {
            proof {
                reveal_strlit("");
                assert(""@ =~= Seq::<char>::empty());
            }
            Ok(GVK::new("", version_str(avs), kind.as_str()))
        },
    }
}

/// Hand a version text through unchanged.
fn version_str<'a>(s: &'a str) -> (r: &'a str)
    ensures
        r@ == s@,
{
    s
}

/// Whether a character is one of the five vowels.
pub open spec fn is_vowel(c: char) -> bool {
    c == 'a' || c == 'e' || c == 'i' || c == 'o' || c == 'u'
}

/// The plural resource name of a kind, by the Kubernetes rules: the kind
/// is lower-cased; a few metrics and endpoint names are irregular; a word
/// ending in `s`, `x`, `z`, `ch` or `sh` takes `es`; a consonant followed
/// by `y` turns into `ies`; anything else takes `s`.
pub open spec fn spec_pluralize(kind: Seq<char>) -> Seq<char> {
    let w = kind.map_values(|c: char| lower_char(c));
    if w == "endpoints"@ || w == "endpointslices"@ {
        w
    } else if w == "nodemetrics"@ {
        "nodes"@
    } else if w == "podmetrics"@ {
        "pods"@
    } else if (w.len() >= 1 && (w.last() == 's' || w.last() == 'x' || w.last() == 'z')) || (w.len()
        >= 2 && (w.subrange(w.len() - 2, w.len() as int) == "ch"@ || w.subrange(
        w.len() - 2,
        w.len() as int,
    ) == "sh"@)) {
        w + "es"@
    } else if w.len() >= 2 && w.last() == 'y' && !is_vowel(w[w.len() - 2]) {
        w.drop_last() + "ies"@
    } else {
        w + "s"@
    }
}

/// The plural resource name of a kind.
pub fn pluralize(kind: &str) -> (r: String)
    ensures
        r@ == spec_pluralize(kind@),
{
    proof {
        reveal_strlit("ch");
        reveal_strlit("sh");
        reveal_strlit("es");
        reveal_strlit("ies");
        reveal_strlit("s");
    }
    let w = ascii_lowercase(kind);
    let ws = w.as_str();
    let len = ws.unicode_len();
    if str_eq(ws, "endpoints") || str_eq(ws, "endpointslices") {
        return w;
    }
    if str_eq(ws, "nodemetrics") {
        return "nodes".to_owned();
    }
    if str_eq(ws, "podmetrics") {
        return "pods".to_owned();
    }
    let last = if len >= 1 {
        ws.get_char(len - 1)
    } else {
        ' '
    };
    let prev = if len >= 2 {
        ws.get_char(len - 2)
    } else {
        ' '
    };
    if (len >= 1 && (last == 's' || last == 'x' || last == 'z')) || (len >= 2 && ((prev == 'c'
        && last == 'h') || (prev == 's' && last == 'h'))) {
        proof {
            if len >= 2 {
                let tail = ws@.subrange(len - 2, len as int);
                assert(tail.len() == 2);
                assert(tail[0] == ws@[len - 2]);
                assert(tail[1] == ws@[len - 1]);
                if ws@[len - 2] == 'c' && ws@[len - 1] == 'h' {
                    assert(tail =~= "ch"@);
                }
                if ws@[len - 2] == 's' && ws@[len - 1] == 'h' {
                    assert(tail =~= "sh"@);
                }
            }
        }
        let r = w.concat("es");
        return r;
    }
    proof {
        if len >= 2 {
            let tail = ws@.subrange(len - 2, len as int);
            assert(tail[0] == ws@[len - 2]);
            assert(tail[1] == ws@[len - 1]);
            if tail == "ch"@ {
                assert(ws@[len - 2] == 'c' && ws@[len - 1] == 'h');
            }
            if tail == "sh"@ {
                assert(ws@[len - 2] == 's' && ws@[len - 1] == 'h');
            }
        }
    }
    if len >= 2 && last == 'y' && !(prev == 'a' || prev == 'e' || prev == 'i' || prev == 'o'
        || prev == 'u') {
        let stem = ws.substring_char(0, len - 1);
        proof {
            assert(stem@ =~= ws@.drop_last());
        }
        let r = stem.to_owned().concat("ies");
        return r;
    }
    w.concat("s")
}

} // verus!
