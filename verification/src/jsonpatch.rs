//! JSON patches: an operation list of `add`, `remove`, `replace`, `move`,
//! `copy` and `test` steps, each aimed at a JSON pointer, applied in
//! order. A failing step fails the whole patch.

use crate::json::{
    obj_lookup, obj_remove, obj_set, spec_get, spec_remove, spec_set, Json, JsonV, json_eq,
};
use crate::error::Error;
use crate::strutil::{all_digits, dec_value, parse_u64, str_eq};
use vstd::prelude::*;
use vstd::string::*;

verus! {

/// One step of a pointer: an unescaped reference token.
pub open spec fn spec_unescape(t: Seq<char>) -> Seq<char>
    decreases t.len(),
{
    if t.len() == 0 {
        t
    } else if t.len() >= 2 && t[0] == '~' && t[1] == '0' {
        seq!['~'] + spec_unescape(t.subrange(2, t.len() as int))
    } else if t.len() >= 2 && t[0] == '~' && t[1] == '1' {
        seq!['/'] + spec_unescape(t.subrange(2, t.len() as int))
    } else {
        seq![t[0]] + spec_unescape(t.subrange(1, t.len() as int))
    }
}

/// The reference tokens of a JSON pointer: empty for the whole document,
/// else the slash-separated tokens, each unescaped.
pub open spec fn spec_tokens(p: Seq<char>) -> Option<Seq<Seq<char>>> {
    if p.len() == 0 {
        Option::Some(Seq::empty())
    } else if p[0] != '/' {
        Option::None
    } else {
        Option::Some(
            crate::strutil::spec_split_char(p.subrange(1, p.len() as int), '/').map_values(
                |t: Seq<char>| spec_unescape(t),
            ),
        )
    }
}

/// Unescape one reference token.
#[verifier::loop_isolation(false)]
fn unescape(t: &str) -> (r: String)
    ensures
        r@ == spec_unescape(t@),
{
    let n = t.unicode_len();
    let mut out = String::new();
    proof {
        assert(t@.subrange(0, n as int) =~= t@);
        assert(Seq::<char>::empty() + spec_unescape(t@) =~= spec_unescape(t@));
    }
    let mut i: usize = 0;
    while i < n
        invariant
            0 <= i <= n,
            n == t@.len(),
            spec_unescape(t@) == out@ + spec_unescape(t@.subrange(i as int, n as int)),
        decreases n - i,
    {
        let ghost pre = t@.subrange(i as int, n as int);
        let c = t.get_char(i);
        if c == '~' && i + 1 < n && t.get_char(i + 1) == '0' {
            proof {
                assert(pre[0] == '~' && pre[1] == '0');
                assert(pre.subrange(2, pre.len() as int) =~= t@.subrange(i as int + 2, n as int));
            }
            crate::strutil::push_char(&mut out, '~');
            i = i + 2;
        } else if c == '~' && i + 1 < n && t.get_char(i + 1) == '1' {
            proof {
                assert(pre[0] == '~' && pre[1] == '1');
                assert(pre.subrange(2, pre.len() as int) =~= t@.subrange(i as int + 2, n as int));
            }
            crate::strutil::push_char(&mut out, '/');
            i = i + 2;
        } else {
            proof {
                assert(pre[0] == t@[i as int]);
                if pre.len() >= 2 {
                    assert(pre[1] == t@[i as int + 1]);
                }
                assert(pre.subrange(1, pre.len() as int) =~= t@.subrange(i as int + 1, n as int));
            }
            crate::strutil::push_char(&mut out, c);
            i = i + 1;
        }
    }
    proof {
        assert(t@.subrange(n as int, n as int) =~= Seq::<char>::empty());
        assert(spec_unescape(Seq::<char>::empty()) =~= Seq::<char>::empty());
        assert(out@ + Seq::<char>::empty() =~= out@);
    }
    out
}

/// The reference tokens of a pointer text.
pub fn parse_pointer(p: &str) -> (r: Option<Vec<String>>)
    ensures
        match r {
            Some(ts) => spec_tokens(p@) == Some(crate::selector::views_of(ts@)),
            None => spec_tokens(p@) is None,
        },
{
    let n = p.unicode_len();
    if n == 0 {
        let out: Vec<String> = Vec::new();
        proof {
            assert(crate::selector::views_of(out@) =~= Seq::<Seq<char>>::empty());
        }
        return Some(out);
    }
    if p.get_char(0) != '/' {
        return None;
    }
    let rest = p.substring_char(1, n);
    let raw = crate::strutil::split_char(rest, '/');
    let ghost rawv = crate::strutil::spec_split_char(rest@, '/');
    let m = raw.len();
    let mut out: Vec<String> = Vec::new();
    let mut i: usize = 0;
    while i < m
        invariant
            0 <= i <= m,
            m == raw@.len(),
            crate::selector::views_of(raw@) == rawv,
            rawv.len() == m,
            out@.len() == i,
            forall|k: int|
                0 <= k < i ==> #[trigger] crate::selector::views_of(out@)[k] == spec_unescape(
                    rawv[k],
                ),
        decreases m - i,
    {
        let u = unescape(raw[i].as_str());
        let ghost prev = out@;
        let ghost uv = u@;
        out.push(u);
        proof {
            assert forall|k: int| 0 <= k < i + 1 implies #[trigger] crate::selector::views_of(
                out@,
            )[k] == spec_unescape(rawv[k]) by {
                if k < i {
                    assert(out@[k] == prev[k]);
                    assert(crate::selector::views_of(prev)[k] == prev[k]@);
                } else {
                    assert(out@[k] == out@.last());
                }
            }
        }
        i = i + 1;
    }
    proof {
        assert(crate::selector::views_of(out@) =~= rawv.map_values(
            |t: Seq<char>| spec_unescape(t),
        ));
    }
    Some(out)
}

/// The value a pointer names inside a document, if any: object tokens
/// look fields up, array tokens are decimal indices.
pub open spec fn spec_ptr_get(doc: JsonV, tokens: Seq<Seq<char>>) -> Option<JsonV>
    decreases tokens.len(),
{
    if tokens.len() == 0 {
        Option::Some(doc)
    } else {
        match doc {
            JsonV::Obj(fs) => match obj_lookup(fs, tokens[0]) {
                Option::Some(v) => spec_ptr_get(v, tokens.drop_first()),
                Option::None => Option::None,
            },
            JsonV::Arr(items) => {
                let t = tokens[0];
                if t.len() > 0 && all_digits(t) && dec_value(t) < items.len() {
                    spec_ptr_get(items[dec_value(t)], tokens.drop_first())
                } else {
                    Option::None
                }
            },
            _ => Option::None,
        }
    }
}

/// A document with the value a pointer names replaced or inserted: the
/// empty pointer replaces the document; an object's last token sets a
/// field; an array's last token inserts at the index, or appends for the
/// token `-`. `None` when the path cannot be followed.
pub open spec fn spec_ptr_add(doc: JsonV, tokens: Seq<Seq<char>>, value: JsonV) -> Option<JsonV>
    decreases tokens.len(),
{
    if tokens.len() == 0 {
        Option::Some(value)
    } else {
        match doc {
            JsonV::Obj(fs) => {
                if tokens.len() == 1 {
                    Option::Some(JsonV::Obj(obj_set(fs, tokens[0], value)))
                } else {
                    match obj_lookup(fs, tokens[0]) {
                        Option::Some(v) => match spec_ptr_add(v, tokens.drop_first(), value) {
                            Option::Some(v2) => Option::Some(
                                JsonV::Obj(obj_set(fs, tokens[0], v2)),
                            ),
                            Option::None => Option::None,
                        },
                        Option::None => Option::None,
                    }
                }
            },
            JsonV::Arr(items) => {
                let t = tokens[0];
                if tokens.len() == 1 {
                    if t == seq!['-'] {
                        Option::Some(JsonV::Arr(items.push(value)))
                    } else if t.len() > 0 && all_digits(t) && dec_value(t) <= items.len() {
                        Option::Some(JsonV::Arr(items.insert(dec_value(t), value)))
                    } else {
                        Option::None
                    }
                } else {
                    if t.len() > 0 && all_digits(t) && dec_value(t) < items.len() {
                        match spec_ptr_add(items[dec_value(t)], tokens.drop_first(), value) {
                            Option::Some(v2) => Option::Some(
                                JsonV::Arr(items.update(dec_value(t), v2)),
                            ),
                            Option::None => Option::None,
                        }
                    } else {
                        Option::None
                    }
                }
            },
            _ => Option::None,
        }
    }
}

/// A document without the value a pointer names. `None` when the pointer
/// names nothing (the empty pointer cannot be removed).
pub open spec fn spec_ptr_remove(doc: JsonV, tokens: Seq<Seq<char>>) -> Option<JsonV>
    decreases tokens.len(),
{
    if tokens.len() == 0 {
        Option::None
    } else {
        match doc {
            JsonV::Obj(fs) => {
                if tokens.len() == 1 {
                    match obj_lookup(fs, tokens[0]) {
                        Option::Some(_) => Option::Some(JsonV::Obj(obj_remove(fs, tokens[0]))),
                        Option::None => Option::None,
                    }
                } else {
                    match obj_lookup(fs, tokens[0]) {
                        Option::Some(v) => match spec_ptr_remove(v, tokens.drop_first()) {
                            Option::Some(v2) => Option::Some(
                                JsonV::Obj(obj_set(fs, tokens[0], v2)),
                            ),
                            Option::None => Option::None,
                        },
                        Option::None => Option::None,
                    }
                }
            },
            JsonV::Arr(items) => {
                let t = tokens[0];
                if t.len() > 0 && all_digits(t) && dec_value(t) < items.len() {
                    if tokens.len() == 1 {
                        Option::Some(JsonV::Arr(items.remove(dec_value(t))))
                    } else {
                        match spec_ptr_remove(items[dec_value(t)], tokens.drop_first()) {
                            Option::Some(v2) => Option::Some(
                                JsonV::Arr(items.update(dec_value(t), v2)),
                            ),
                            Option::None => Option::None,
                        }
                    }
                } else {
                    Option::None
                }
            },
            _ => Option::None,
        }
    }
}

} // verus!

verus! {

/// A document with the value a pointer names replaced; the target must
/// exist, and an array element is replaced in place.
pub open spec fn spec_ptr_replace(doc: JsonV, tokens: Seq<Seq<char>>, value: JsonV) -> Option<
    JsonV,
>
    decreases tokens.len(),
{
    if tokens.len() == 0 {
        Option::Some(value)
    } else {
        match doc {
            JsonV::Obj(fs) => match obj_lookup(fs, tokens[0]) {
                Option::Some(v) => {
                    if tokens.len() == 1 {
                        Option::Some(JsonV::Obj(obj_set(fs, tokens[0], value)))
                    } else {
                        match spec_ptr_replace(v, tokens.drop_first(), value) {
                            Option::Some(v2) => Option::Some(
                                JsonV::Obj(obj_set(fs, tokens[0], v2)),
                            ),
                            Option::None => Option::None,
                        }
                    }
                },
                Option::None => Option::None,
            },
            JsonV::Arr(items) => {
                let t = tokens[0];
                if t.len() > 0 && all_digits(t) && dec_value(t) < items.len() {
                    if tokens.len() == 1 {
                        Option::Some(JsonV::Arr(items.update(dec_value(t), value)))
                    } else {
                        match spec_ptr_replace(items[dec_value(t)], tokens.drop_first(), value) {
                            Option::Some(v2) => Option::Some(
                                JsonV::Arr(items.update(dec_value(t), v2)),
                            ),
                            Option::None => Option::None,
                        }
                    }
                } else {
                    Option::None
                }
            },
            _ => Option::None,
        }
    }
}

/// Parse an array index token against a length: digits naming a position
/// not past the length.
fn index_token(t: &str, len: usize, allow_end: bool) -> (r: Option<usize>)
    ensures
        match r {
            Some(i) => t@.len() > 0 && all_digits(t@) && dec_value(t@) == i as int && i as int
                <= len as int && (allow_end || (i as int) < len as int),
            None => !(t@.len() > 0 && all_digits(t@) && (if allow_end {
                dec_value(t@) <= len as int
            } else {
                dec_value(t@) < len as int
            })),
        },
{
    match parse_u64(t) {
        Some(n) => {
            if allow_end {
                if n <= len as u64 {
                    Some(n as usize)
                } else {
                    None
                }
            } else {
                if n < len as u64 {
                    Some(n as usize)
                } else {
                    None
                }
            }
        },
        None => {
            proof {
                if t@.len() > 0 && all_digits(t@) {
                    assert(dec_value(t@) > u64::MAX);
                }
            }
            None
        },
    }
}

/// Look the value a pointer names up, from token `i` on.
fn ptr_get_from<'a>(doc: &'a Json, tokens: &Vec<String>, i: usize) -> (r: Option<&'a Json>)
    requires
        i <= tokens@.len(),
    ensures
        ({
            let ts = crate::selector::views_of(tokens@).subrange(
                i as int,
                tokens@.len() as int,
            );
            match r {
                Some(v) => spec_ptr_get(doc@, ts) == Some(v@),
                None => spec_ptr_get(doc@, ts) is None,
            }
        }),
    decreases tokens@.len() - i,
{
    let ghost ts = crate::selector::views_of(tokens@).subrange(i as int, tokens@.len() as int);
    if i == tokens.len() {
        proof {
            assert(ts.len() == 0);
        }
        return Some(doc);
    }
    proof {
        assert(ts[0] == tokens@[i as int]@);
        assert(ts.drop_first() =~= crate::selector::views_of(tokens@).subrange(
            i as int + 1,
            tokens@.len() as int,
        ));
    }
    let tok = tokens[i].as_str();
    match doc {
        Json::Obj(_) => match doc.get(tok) {
            Some(v) => ptr_get_from(v, tokens, i + 1),
            None => None,
        },
        Json::Arr(items) => {
            broadcast use crate::json::group_json_view_axioms;

            match index_token(tok, items.len(), false) {
                Some(idx) => {
                    proof {
                        crate::json::lemma_view_items_len(items@);
                        crate::json::lemma_view_items_index(items@, idx as int);
                    }
                    ptr_get_from(&items[idx], tokens, i + 1)
                },
                None => None,
            }
        },
        _ => None,
    }
}

/// Write a value at a pointer, from token `i` on, by the add rule.
fn ptr_add_from(doc: Json, tokens: &Vec<String>, i: usize, value: Json) -> (r: Option<Json>)
    requires
        i <= tokens@.len(),
    ensures
        ({
            let ts = crate::selector::views_of(tokens@).subrange(
                i as int,
                tokens@.len() as int,
            );
            match r {
                Some(d) => spec_ptr_add(doc@, ts, value@) == Some(d@),
                None => spec_ptr_add(doc@, ts, value@) is None,
            }
        }),
    decreases tokens@.len() - i,
{
    broadcast use crate::json::group_json_view_axioms;

    let ghost ts = crate::selector::views_of(tokens@).subrange(i as int, tokens@.len() as int);
    if i == tokens.len() {
        proof {
            assert(ts.len() == 0);
        }
        return Some(value);
    }
    proof {
        assert(ts[0] == tokens@[i as int]@);
        assert(ts.drop_first() =~= crate::selector::views_of(tokens@).subrange(
            i as int + 1,
            tokens@.len() as int,
        ));
    }
    proof {
        reveal_strlit("-");
        assert("-"@ =~= seq!['-']);
    }
    let tok = tokens[i].as_str();
    let last = i + 1 == tokens.len();
    match doc {
        Json::Obj(fields) => {
            let d = Json::Obj(fields);
            if last {
                Some(d.set(tok, value))
            } else {
                match d.get(tok) {
                    Some(v) => {
                        let inner = v.duplicate();
                        match ptr_add_from(inner, tokens, i + 1, value) {
                            Some(v2) => Some(d.set(tok, v2)),
                            None => None,
                        }
                    },
                    None => None,
                }
            }
        },
        Json::Arr(mut items) => {
            proof {
                crate::json::lemma_view_items_len(items@);
            }
            if last {
                proof {
                    reveal_strlit("-");
                }
                if str_eq(tok, "-") {
                    let ghost prev = items@;
                    items.push(value);
                    proof {
                        assert(crate::json::view_items(items@) =~= crate::json::view_items(
                            prev,
                        ).push(crate::json::json_view(items@.last())));
                    }
                    Some(Json::Arr(items))
                } else {
                    match index_token(tok, items.len(), true) {
                        Some(idx) => {
                            proof {
                                assert(!(ts[0] == seq!['-'])) by {
                                    reveal_strlit("-");
                                    if ts[0] == seq!['-'] {
                                        assert(ts[0][0] == '-');
                                        assert(!crate::strutil::is_digit('-'));
                                    }
                                }
                            }
                            let ghost prev = items@;
                            items.insert(idx, value);
                            proof {
                                crate::json::lemma_view_items_len(items@);
                                assert forall|k: int|
                                    0 <= k < items@.len() implies #[trigger] crate::json::view_items(
                                    items@,
                                )[k] == crate::json::view_items(prev).insert(
                                    idx as int,
                                    value@,
                                )[k] by {
                                    crate::json::lemma_view_items_index(items@, k);
                                    if k < idx {
                                        crate::json::lemma_view_items_index(prev, k);
                                    } else if k > idx {
                                        crate::json::lemma_view_items_index(prev, k - 1);
                                    }
                                }
                                assert(crate::json::view_items(items@) =~= crate::json::view_items(
                                    prev,
                                ).insert(idx as int, value@));
                            }
                            Some(Json::Arr(items))
                        },
                        None => None,
                    }
                }
            } else {
                match index_token(tok, items.len(), false) {
                    Some(idx) => {
                        proof {
                            crate::json::lemma_view_items_index(items@, idx as int);
                        }
                        let inner = items[idx].duplicate();
                        match ptr_add_from(inner, tokens, i + 1, value) {
                            Some(v2) => {
                                let ghost prev = items@;
                                let ghost v2v = v2@;
                                items[idx] = v2;
                                proof {
                                    crate::json::lemma_view_items_len(items@);
                                    assert forall|k: int|
                                        0 <= k < items@.len() implies #[trigger] crate::json::view_items(
                                        items@,
                                    )[k] == crate::json::view_items(prev).update(
                                        idx as int,
                                        v2v,
                                    )[k] by {
                                        crate::json::lemma_view_items_index(items@, k);
                                        if k != idx {
                                            crate::json::lemma_view_items_index(prev, k);
                                        }
                                    }
                                    assert(crate::json::view_items(items@)
                                        =~= crate::json::view_items(prev).update(idx as int, v2v));
                                }
                                Some(Json::Arr(items))
                            },
                            None => None,
                        }
                    },
                    None => None,
                }
            }
        },
        _ => None,
    }
}

} // verus!

verus! {

/// Remove the value a pointer names, from token `i` on.
fn ptr_remove_from(doc: Json, tokens: &Vec<String>, i: usize) -> (r: Option<Json>)
    requires
        i <= tokens@.len(),
    ensures
        ({
            let ts = crate::selector::views_of(tokens@).subrange(
                i as int,
                tokens@.len() as int,
            );
            match r {
                Some(d) => spec_ptr_remove(doc@, ts) == Some(d@),
                None => spec_ptr_remove(doc@, ts) is None,
            }
        }),
    decreases tokens@.len() - i,
{
    broadcast use crate::json::group_json_view_axioms;

    let ghost ts = crate::selector::views_of(tokens@).subrange(i as int, tokens@.len() as int);
    if i == tokens.len() {
        proof {
            assert(ts.len() == 0);
        }
        return None;
    }
    proof {
        assert(ts[0] == tokens@[i as int]@);
        assert(ts.drop_first() =~= crate::selector::views_of(tokens@).subrange(
            i as int + 1,
            tokens@.len() as int,
        ));
    }
    let tok = tokens[i].as_str();
    let last = i + 1 == tokens.len();
    match doc {
        Json::Obj(fields) => {
            let d = Json::Obj(fields);
            if last {
                match d.get(tok) {
                    Some(_) => Some(d.remove(tok)),
                    None => None,
                }
            } else {
                match d.get(tok) {
                    Some(v) => {
                        let inner = v.duplicate();
                        match ptr_remove_from(inner, tokens, i + 1) {
                            Some(v2) => Some(d.set(tok, v2)),
                            None => None,
                        }
                    },
                    None => None,
                }
            }
        },
        Json::Arr(mut items) => {
            proof {
                crate::json::lemma_view_items_len(items@);
            }
            match index_token(tok, items.len(), false) {
                Some(idx) => {
                    if last {
                        let ghost prev = items@;
                        items.remove(idx);
                        proof {
                            crate::json::lemma_view_items_len(items@);
                            assert forall|k: int|
                                0 <= k < items@.len() implies #[trigger] crate::json::view_items(
                                items@,
                            )[k] == crate::json::view_items(prev).remove(idx as int)[k] by {
                                crate::json::lemma_view_items_index(items@, k);
                                if k < idx {
                                    crate::json::lemma_view_items_index(prev, k);
                                } else {
                                    crate::json::lemma_view_items_index(prev, k + 1);
                                }
                            }
                            assert(crate::json::view_items(items@) =~= crate::json::view_items(
                                prev,
                            ).remove(idx as int));
                        }
                        Some(Json::Arr(items))
                    } else {
                        proof {
                            crate::json::lemma_view_items_index(items@, idx as int);
                        }
                        let inner = items[idx].duplicate();
                        match ptr_remove_from(inner, tokens, i + 1) {
                            Some(v2) => {
                                let ghost prev = items@;
                                let ghost v2v = v2@;
                                items[idx] = v2;
                                proof {
                                    crate::json::lemma_view_items_len(items@);
                                    assert forall|k: int|
                                        0 <= k < items@.len() implies #[trigger] crate::json::view_items(
                                        items@,
                                    )[k] == crate::json::view_items(prev).update(
                                        idx as int,
                                        v2v,
                                    )[k] by {
                                        crate::json::lemma_view_items_index(items@, k);
                                        if k != idx {
                                            crate::json::lemma_view_items_index(prev, k);
                                        }
                                    }
                                    assert(crate::json::view_items(items@)
                                        =~= crate::json::view_items(prev).update(idx as int, v2v));
                                }
                                Some(Json::Arr(items))
                            },
                            None => None,
                        }
                    }
                },
                None => None,
            }
        },
        _ => None,
    }
}

/// Replace the value a pointer names, from token `i` on.
fn ptr_replace_from(doc: Json, tokens: &Vec<String>, i: usize, value: Json) -> (r: Option<Json>)
    requires
        i <= tokens@.len(),
    ensures
        ({
            let ts = crate::selector::views_of(tokens@).subrange(
                i as int,
                tokens@.len() as int,
            );
            match r {
                Some(d) => spec_ptr_replace(doc@, ts, value@) == Some(d@),
                None => spec_ptr_replace(doc@, ts, value@) is None,
            }
        }),
    decreases tokens@.len() - i,
{
    broadcast use crate::json::group_json_view_axioms;

    let ghost ts = crate::selector::views_of(tokens@).subrange(i as int, tokens@.len() as int);
    if i == tokens.len() {
        proof {
            assert(ts.len() == 0);
        }
        return Some(value);
    }
    proof {
        assert(ts[0] == tokens@[i as int]@);
        assert(ts.drop_first() =~= crate::selector::views_of(tokens@).subrange(
            i as int + 1,
            tokens@.len() as int,
        ));
    }
    let tok = tokens[i].as_str();
    let last = i + 1 == tokens.len();
    match doc {
        Json::Obj(fields) => {
            let d = Json::Obj(fields);
            match d.get(tok) {
                Some(v) => {
                    if last {
                        Some(d.set(tok, value))
                    } else {
                        let inner = v.duplicate();
                        match ptr_replace_from(inner, tokens, i + 1, value) {
                            Some(v2) => Some(d.set(tok, v2)),
                            None => None,
                        }
                    }
                },
                None => None,
            }
        },
        Json::Arr(mut items) => {
            proof {
                crate::json::lemma_view_items_len(items@);
            }
            match index_token(tok, items.len(), false) {
                Some(idx) => {
                    if last {
                        let ghost prev = items@;
                        let ghost vv = value@;
                        items[idx] = value;
                        proof {
                            crate::json::lemma_view_items_len(items@);
                            assert forall|k: int|
                                0 <= k < items@.len() implies #[trigger] crate::json::view_items(
                                items@,
                            )[k] == crate::json::view_items(prev).update(idx as int, vv)[k] by {
                                crate::json::lemma_view_items_index(items@, k);
                                if k != idx {
                                    crate::json::lemma_view_items_index(prev, k);
                                }
                            }
                            assert(crate::json::view_items(items@) =~= crate::json::view_items(
                                prev,
                            ).update(idx as int, vv));
                        }
                        Some(Json::Arr(items))
                    } else {
                        proof {
                            crate::json::lemma_view_items_index(items@, idx as int);
                        }
                        let inner = items[idx].duplicate();
                        match ptr_replace_from(inner, tokens, i + 1, value) {
                            Some(v2) => {
                                let ghost prev = items@;
                                let ghost v2v = v2@;
                                items[idx] = v2;
                                proof {
                                    crate::json::lemma_view_items_len(items@);
                                    assert forall|k: int|
                                        0 <= k < items@.len() implies #[trigger] crate::json::view_items(
                                        items@,
                                    )[k] == crate::json::view_items(prev).update(
                                        idx as int,
                                        v2v,
                                    )[k] by {
                                        crate::json::lemma_view_items_index(items@, k);
                                        if k != idx {
                                            crate::json::lemma_view_items_index(prev, k);
                                        }
                                    }
                                    assert(crate::json::view_items(items@)
                                        =~= crate::json::view_items(prev).update(idx as int, v2v));
                                }
                                Some(Json::Arr(items))
                            },
                            None => None,
                        }
                    }
                },
                None => None,
            }
        },
        _ => None,
    }
}

} // verus!

verus! {

/// What one patch operation does to a document; `None` fails the patch.
pub open spec fn spec_apply_op(doc: JsonV, op: JsonV) -> Option<JsonV> {
    match crate::client_utils::spec_top_string(op, "op"@) {
        Option::None => Option::None,
        Option::Some(name) => match crate::client_utils::spec_top_string(op, "path"@) {
            Option::None => Option::None,
            Option::Some(ptext) => match spec_tokens(ptext) {
                Option::None => Option::None,
                Option::Some(path) => {
                    if name == "add"@ {
                        match spec_get(op, "value"@) {
                            Option::Some(v) => spec_ptr_add(doc, path, v),
                            Option::None => Option::None,
                        }
                    } else if name == "remove"@ {
                        spec_ptr_remove(doc, path)
                    } else if name == "replace"@ {
                        match spec_get(op, "value"@) {
                            Option::Some(v) => spec_ptr_replace(doc, path, v),
                            Option::None => Option::None,
                        }
                    } else if name == "move"@ {
                        match crate::client_utils::spec_top_string(op, "from"@) {
                            Option::None => Option::None,
                            Option::Some(ftext) => match spec_tokens(ftext) {
                                Option::None => Option::None,
                                Option::Some(from) => match spec_ptr_get(doc, from) {
                                    Option::None => Option::None,
                                    Option::Some(v) => match spec_ptr_remove(doc, from) {
                                        Option::None => Option::None,
                                        Option::Some(doc2) => spec_ptr_add(doc2, path, v),
                                    },
                                },
                            },
                        }
                    } else if name == "copy"@ {
                        match crate::client_utils::spec_top_string(op, "from"@) {
                            Option::None => Option::None,
                            Option::Some(ftext) => match spec_tokens(ftext) {
                                Option::None => Option::None,
                                Option::Some(from) => match spec_ptr_get(doc, from) {
                                    Option::None => Option::None,
                                    Option::Some(v) => spec_ptr_add(doc, path, v),
                                },
                            },
                        }
                    } else if name == "test"@ {
                        match spec_get(op, "value"@) {
                            Option::Some(v) => match spec_ptr_get(doc, path) {
                                Option::Some(cur) => if cur == v {
                                    Option::Some(doc)
                                } else {
                                    Option::None
                                },
                                Option::None => Option::None,
                            },
                            Option::None => Option::None,
                        }
                    } else {
                        Option::None
                    }
                },
            },
        },
    }
}

/// What an operation list does to a document, in order.
pub open spec fn spec_apply_ops(doc: JsonV, ops: Seq<JsonV>) -> Option<JsonV>
    decreases ops.len(),
{
    if ops.len() == 0 {
        Option::Some(doc)
    } else {
        match spec_apply_op(doc, ops[0]) {
            Option::Some(d2) => spec_apply_ops(d2, ops.drop_first()),
            Option::None => Option::None,
        }
    }
}

/// What a whole JSON patch does: the patch must be an operation list.
pub open spec fn spec_apply_patch_doc(doc: JsonV, patch: JsonV) -> Option<JsonV> {
    match patch {
        JsonV::Arr(ops) => spec_apply_ops(doc, ops),
        _ => Option::None,
    }
}

/// Read a top-level string field.
fn top_str(op: &Json, key: &str) -> (r: Option<String>)
    ensures
        match r {
            Some(s) => crate::client_utils::spec_top_string(op@, key@) == Some(s@),
            None => crate::client_utils::spec_top_string(op@, key@) is None,
        },
{
    match op.get(key) {
        Some(v) => match v {
            Json::Str(s) => Some(s.clone()),
            _ => None,
        },
        None => None,
    }
}

/// Apply one patch operation.
fn apply_op(doc: Json, op: &Json) -> (r: Result<Json, Error>)
    ensures
        match r {
            Ok(d) => spec_apply_op(doc@, op@) == Some(d@),
            Err(e) => spec_apply_op(doc@, op@) is None && e is PatchError,
        },
{
    proof {
        reveal_strlit("add");
        reveal_strlit("remove");
        reveal_strlit("replace");
        reveal_strlit("move");
        reveal_strlit("copy");
        reveal_strlit("test");
        assert("add"@.len() == 3);
        assert("remove"@.len() == 6);
        assert("replace"@.len() == 7);
        assert("move"@.len() == 4);
        assert("copy"@.len() == 4);
        assert("test"@.len() == 4);
        assert("move"@[0] == 'm' && "copy"@[0] == 'c' && "test"@[0] == 't');
    }
    let name = match top_str(op, "op") {
        Some(n) => n,
        None => {
            return Err(Error::PatchError("operation is missing its op".to_owned()));
        },
    };
    let ptext = match top_str(op, "path") {
        Some(p) => p,
        None => {
            return Err(Error::PatchError("operation is missing its path".to_owned()));
        },
    };
    let path = match parse_pointer(ptext.as_str()) {
        Some(p) => p,
        None => {
            return Err(Error::PatchError("invalid pointer".to_owned()));
        },
    };
    proof {
        lemma_full_subrange(path@);
    }
    let ns = name.as_str();
    if str_eq(ns, "add") {
        let value = match op.get("value") {
            Some(v) => v.duplicate(),
            None => {
                return Err(Error::PatchError("add is missing its value".to_owned()));
            },
        };
        match ptr_add_from(doc, &path, 0, value) {
            Some(d) => {
                proof {
                    lemma_full_subrange(path@);
                }
                Ok(d)
            },
            None => Err(Error::PatchError("add path cannot be followed".to_owned())),
        }
    } else if str_eq(ns, "remove") {
        match ptr_remove_from(doc, &path, 0) {
            Some(d) => {
                proof {
                    lemma_full_subrange(path@);
                }
                Ok(d)
            },
            None => Err(Error::PatchError("remove path names nothing".to_owned())),
        }
    } else if str_eq(ns, "replace") {
        let value = match op.get("value") {
            Some(v) => v.duplicate(),
            None => {
                return Err(Error::PatchError("replace is missing its value".to_owned()));
            },
        };
        match ptr_replace_from(doc, &path, 0, value) {
            Some(d) => {
                proof {
                    lemma_full_subrange(path@);
                }
                Ok(d)
            },
            None => Err(Error::PatchError("replace path names nothing".to_owned())),
        }
    } else if str_eq(ns, "move") {
        let ftext = match top_str(op, "from") {
            Some(f) => f,
            None => {
                return Err(Error::PatchError("move is missing its source".to_owned()));
            },
        };
        let from = match parse_pointer(ftext.as_str()) {
            Some(f) => f,
            None => {
                return Err(Error::PatchError("invalid pointer".to_owned()));
            },
        };
        proof {
            lemma_full_subrange(from@);
        }
        let value = match ptr_get_from(&doc, &from, 0) {
            Some(v) => v.duplicate(),
            None => {
                proof {
                    lemma_full_subrange(from@);
                }
                return Err(Error::PatchError("move source names nothing".to_owned()));
            },
        };
        proof {
            lemma_full_subrange(from@);
        }
        let doc2 = match ptr_remove_from(doc, &from, 0) {
            Some(d) => d,
            None => {
                return Err(Error::PatchError("move source names nothing".to_owned()));
            },
        };
        match ptr_add_from(doc2, &path, 0, value) {
            Some(d) => {
                proof {
                    lemma_full_subrange(path@);
                }
                Ok(d)
            },
            None => Err(Error::PatchError("move path cannot be followed".to_owned())),
        }
    } else if str_eq(ns, "copy") {
        let ftext = match top_str(op, "from") {
            Some(f) => f,
            None => {
                return Err(Error::PatchError("copy is missing its source".to_owned()));
            },
        };
        let from = match parse_pointer(ftext.as_str()) {
            Some(f) => f,
            None => {
                return Err(Error::PatchError("invalid pointer".to_owned()));
            },
        };
        proof {
            lemma_full_subrange(from@);
        }
        let value = match ptr_get_from(&doc, &from, 0) {
            Some(v) => v.duplicate(),
            None => {
                proof {
                    lemma_full_subrange(from@);
                }
                return Err(Error::PatchError("copy source names nothing".to_owned()));
            },
        };
        proof {
            lemma_full_subrange(from@);
        }
        match ptr_add_from(doc, &path, 0, value) {
            Some(d) => {
                proof {
                    lemma_full_subrange(path@);
                }
                Ok(d)
            },
            None => Err(Error::PatchError("copy path cannot be followed".to_owned())),
        }
    } else if str_eq(ns, "test") {
        let value = match op.get("value") {
            Some(v) => v,
            None => {
                return Err(Error::PatchError("test is missing its value".to_owned()));
            },
        };
        match ptr_get_from(&doc, &path, 0) {
            Some(cur) => {
                proof {
                    lemma_full_subrange(path@);
                }
                if json_eq(cur, value) {
                    Ok(doc)
                } else {
                    Err(Error::PatchError("test failed".to_owned()))
                }
            },
            None => {
                proof {
                    lemma_full_subrange(path@);
                }
                Err(Error::PatchError("test path names nothing".to_owned()))
            },
        }
    } else {
        Err(Error::PatchError("unknown operation".to_owned()))
    }
}

/// The full token range of a parsed pointer.
proof fn lemma_full_subrange(tokens: Seq<String>)
    ensures
        crate::selector::views_of(tokens).subrange(0, tokens.len() as int)
            =~= crate::selector::views_of(tokens),
{
}

/// Apply a JSON patch: the operation list runs in order on a copy; any
/// failing step fails the whole patch.
#[verifier::loop_isolation(false)]
pub fn apply_json_patch(doc: Json, patch: &Json) -> (r: Result<Json, Error>)
    ensures
        match r {
            Ok(d) => spec_apply_patch_doc(doc@, patch@) == Some(d@),
            Err(e) => spec_apply_patch_doc(doc@, patch@) is None && e is PatchError,
        },
{
    broadcast use crate::json::group_json_view_axioms;

    let ops = match patch {
        Json::Arr(ops) => ops,
        _ => {
            return Err(Error::PatchError("a JSON patch is a list of operations".to_owned()));
        },
    };
    let ghost opsv = crate::json::view_items(ops@);
    let n = ops.len();
    proof {
        crate::json::lemma_view_items_len(ops@);
        assert(opsv.subrange(0, n as int) =~= opsv);
    }
    let mut cur = doc;
    let mut i: usize = 0;
    while i < n
        invariant
            0 <= i <= n,
            n == ops@.len(),
            opsv.len() == n,
            spec_apply_ops(doc@, opsv) == spec_apply_ops(cur@, opsv.subrange(i as int, n as int)),
        decreases n - i,
    {
        proof {
            crate::json::lemma_view_items_index(ops@, i as int);
            let pre = opsv.subrange(i as int, n as int);
            assert(pre[0] == opsv[i as int]);
            assert(pre.drop_first() =~= opsv.subrange(i as int + 1, n as int));
        }
        cur = match apply_op(cur, &ops[i]) {
            Ok(d) => d,
            Err(e) => {
                return Err(e);
            },
        };
        i = i + 1;
    }
    proof {
        assert(opsv.subrange(n as int, n as int) =~= Seq::<JsonV>::empty());
    }
    Ok(cur)
}

} // verus!
