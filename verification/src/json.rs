//! A schemaless JSON document model.
//!
//! Stored objects are opaque JSON documents; this module gives them an
//! executable representation together with a mathematical view (`JsonV`)
//! that contracts are stated over. Object fields keep their order; a
//! lookup finds the first field with the given key.

use vstd::prelude::*;

verus! {

/// The mathematical value of a JSON document.
pub enum JsonV {
    Null,
    Bool(bool),
    Int(int),
    /// A JSON number that is not a 64-bit integer, kept as its decimal text.
    Num(Seq<char>),
    Str(Seq<char>),
    Arr(Seq<JsonV>),
    Obj(Seq<(Seq<char>, JsonV)>),
}

/// A JSON document.
#[derive(Debug)]
pub enum Json {
    Null,
    Bool(bool),
    Int(i64),
    /// A JSON number that is not a 64-bit integer, kept as its decimal text.
    Num(String),
    Str(String),
    Arr(Vec<Json>),
    Obj(Vec<(String, Json)>),
}

/// The mathematical value of a document.
pub open spec fn json_view(j: Json) -> JsonV
    decreases j,
{
    match j {
        Json::Null => JsonV::Null,
        Json::Bool(b) => JsonV::Bool(b),
        Json::Int(n) => JsonV::Int(n as int),
        Json::Num(s) => JsonV::Num(s@),
        Json::Str(s) => JsonV::Str(s@),
        Json::Arr(items) => JsonV::Arr(view_items(items@)),
        Json::Obj(fields) => JsonV::Obj(view_fields(fields@)),
    }
}

/// The values of the documents of a sequence.
pub open spec fn view_items(items: Seq<Json>) -> Seq<JsonV>
    decreases items,
{
    if items.len() == 0 {
        Seq::empty()
    } else {
        view_items(items.drop_last()).push(json_view(items.last()))
    }
}

/// The values of the fields of an object.
pub open spec fn view_fields(fields: Seq<(String, Json)>) -> Seq<(Seq<char>, JsonV)>
    decreases fields,
{
    if fields.len() == 0 {
        Seq::empty()
    } else {
        view_fields(fields.drop_last()).push(
            (fields.last().0@, json_view(fields.last().1)),
        )
    }
}

pub broadcast proof fn lemma_view_items_len(items: Seq<Json>)
    ensures
        #[trigger] view_items(items).len() == items.len(),
    decreases items.len(),
{
    if items.len() > 0 {
        lemma_view_items_len(items.drop_last());
    }
}

pub broadcast proof fn lemma_view_items_index(items: Seq<Json>, i: int)
    requires
        0 <= i < items.len(),
    ensures
        #[trigger] view_items(items)[i] == json_view(items[i]),
    decreases items.len(),
{
    lemma_view_items_len(items);
    if items.len() > 0 {
        if i < items.len() - 1 {
            lemma_view_items_len(items.drop_last());
            lemma_view_items_index(items.drop_last(), i);
        }
    }
}

pub broadcast proof fn lemma_view_fields_len(fields: Seq<(String, Json)>)
    ensures
        #[trigger] view_fields(fields).len() == fields.len(),
    decreases fields.len(),
{
    if fields.len() > 0 {
        lemma_view_fields_len(fields.drop_last());
    }
}

pub broadcast proof fn lemma_view_fields_index(fields: Seq<(String, Json)>, i: int)
    requires
        0 <= i < fields.len(),
    ensures
        #[trigger] view_fields(fields)[i] == (fields[i].0@, json_view(fields[i].1)),
    decreases fields.len(),
{
    lemma_view_fields_len(fields);
    if fields.len() > 0 {
        if i < fields.len() - 1 {
            lemma_view_fields_len(fields.drop_last());
            lemma_view_fields_index(fields.drop_last(), i);
        }
    }
}

pub broadcast group group_json_view_axioms {
    lemma_view_items_len,
    lemma_view_items_index,
    lemma_view_fields_len,
    lemma_view_fields_index,
}

impl View for Json {
    type V = JsonV;

    open spec fn view(&self) -> JsonV {
        json_view(*self)
    }
}

/// The first field with the given key, if any.
pub open spec fn obj_lookup(fs: Seq<(Seq<char>, JsonV)>, key: Seq<char>) -> Option<JsonV>
    decreases fs.len(),
{
    if fs.len() == 0 {
        None
    } else if fs[0].0 == key {
        Some(fs[0].1)
    } else {
        obj_lookup(fs.drop_first(), key)
    }
}

/// The value of a field of an object; `None` for other documents or for
/// an absent field.
pub open spec fn spec_get(j: JsonV, key: Seq<char>) -> Option<JsonV> {
    match j {
        JsonV::Obj(fs) => obj_lookup(fs, key),
        _ => None,
    }
}

/// The fields with the first binding of `key` replaced by `value`, or with
/// `(key, value)` appended when no field has that key.
pub open spec fn obj_set(fs: Seq<(Seq<char>, JsonV)>, key: Seq<char>, value: JsonV) -> Seq<
    (Seq<char>, JsonV),
>
    decreases fs.len(),
{
    if fs.len() == 0 {
        seq![(key, value)]
    } else if fs[0].0 == key {
        seq![(key, value)] + fs.drop_first()
    } else {
        seq![fs[0]] + obj_set(fs.drop_first(), key, value)
    }
}

/// The fields without the first binding of `key`.
pub open spec fn obj_remove(fs: Seq<(Seq<char>, JsonV)>, key: Seq<char>) -> Seq<
    (Seq<char>, JsonV),
>
    decreases fs.len(),
{
    if fs.len() == 0 {
        fs
    } else if fs[0].0 == key {
        fs.drop_first()
    } else {
        seq![fs[0]] + obj_remove(fs.drop_first(), key)
    }
}

/// Setting a field on an object document; other documents stay unchanged.
pub open spec fn spec_set(j: JsonV, key: Seq<char>, value: JsonV) -> JsonV {
    match j {
        JsonV::Obj(fs) => JsonV::Obj(obj_set(fs, key, value)),
        _ => j,
    }
}

/// Removing a field from an object document; other documents stay unchanged.
pub open spec fn spec_remove(j: JsonV, key: Seq<char>) -> JsonV {
    match j {
        JsonV::Obj(fs) => JsonV::Obj(obj_remove(fs, key)),
        _ => j,
    }
}

/// A set field is found under its key; other keys are untouched.
pub proof fn lemma_obj_set_lookup(
    fs: Seq<(Seq<char>, JsonV)>,
    key: Seq<char>,
    value: JsonV,
    k2: Seq<char>,
)
    ensures
        obj_lookup(obj_set(fs, key, value), k2) == if k2 == key {
            Some(value)
        } else {
            obj_lookup(fs, k2)
        },
    decreases fs.len(),
{
    if fs.len() == 0 {
        let r = seq![(key, value)];
        assert(r.len() == 1);
        assert(r[0] == (key, value));
        assert(r[0].0 == key);
        assert(r.drop_first() =~= Seq::<(Seq<char>, JsonV)>::empty());
        if k2 == key {
            assert(obj_lookup(r, k2) == Some(value));
        } else {
            assert(obj_lookup(r, k2) == obj_lookup(r.drop_first(), k2));
            assert(obj_lookup(r.drop_first(), k2) is None);
        }
    } else if fs[0].0 == key {
        let r = seq![(key, value)] + fs.drop_first();
        assert(r.len() == 1 + fs.drop_first().len());
        assert(r[0] == (key, value));
        assert(r[0].0 == key);
        assert(r.drop_first() =~= fs.drop_first());
        if k2 == key {
            assert(obj_lookup(r, k2) == Some(value));
        } else {
            assert(obj_lookup(r, k2) == obj_lookup(fs.drop_first(), k2));
            assert(obj_lookup(fs, k2) == obj_lookup(fs.drop_first(), k2));
        }
    } else {
        let r = seq![fs[0]] + obj_set(fs.drop_first(), key, value);
        assert(r[0] == fs[0]);
        assert(r.drop_first() =~= obj_set(fs.drop_first(), key, value));
        lemma_obj_set_lookup(fs.drop_first(), key, value, k2);
    }
}

/// A removed field is gone when keys are unique; other keys are untouched.
pub proof fn lemma_obj_remove_lookup(fs: Seq<(Seq<char>, JsonV)>, key: Seq<char>, k2: Seq<char>)
    requires
        forall|i: int, j: int|
            0 <= i < j < fs.len() ==> (#[trigger] fs[i]).0 != (#[trigger] fs[j]).0,
    ensures
        obj_lookup(obj_remove(fs, key), k2) == if k2 == key {
            None::<JsonV>
        } else {
            obj_lookup(fs, k2)
        },
    decreases fs.len(),
{
    if fs.len() == 0 {
    } else if fs[0].0 == key {
        if k2 == key {
            assert(forall|i: int|
                0 <= i < fs.drop_first().len() ==> (#[trigger] fs.drop_first()[i]).0 != key);
            lemma_lookup_absent_key(fs.drop_first(), k2);
        }
    } else {
        let r = seq![fs[0]] + obj_remove(fs.drop_first(), key);
        assert(r[0] == fs[0]);
        assert(r.drop_first() =~= obj_remove(fs.drop_first(), key));
        lemma_obj_remove_lookup(fs.drop_first(), key, k2);
    }
}

/// A key that no field carries is not found.
pub proof fn lemma_lookup_absent_key(fs: Seq<(Seq<char>, JsonV)>, key: Seq<char>)
    requires
        forall|i: int| 0 <= i < fs.len() ==> (#[trigger] fs[i]).0 != key,
    ensures
        obj_lookup(fs, key) is None,
    decreases fs.len(),
{
    if fs.len() > 0 {
        lemma_lookup_absent_key(fs.drop_first(), key);
    }
}

impl Json {
    /// An empty JSON object.
    pub fn empty_object() -> (r: Json)
        ensures
            r@ == JsonV::Obj(Seq::<(Seq<char>, JsonV)>::empty()),
    {
        Json::Obj(Vec::new())
    }

    /// A JSON string with the given text.
    pub fn string(s: &str) -> (r: Json)
        ensures
            r@ == JsonV::Str(s@),
    {
        Json::Str(s.to_owned())
    }

    /// Whether this document is an object.
    pub fn is_object(&self) -> (r: bool)
        ensures
            r == (self@ is Obj),
    {
        match self {
            Json::Obj(_) => true,
            _ => false,
        }
    }

    /// The first field with the given key of an object document.
    #[verifier::loop_isolation(false)]
    pub fn get<'a>(&'a self, key: &str) -> (r: Option<&'a Json>)
        ensures
            match r {
                Some(v) => spec_get(self@, key@) == Some(v@),
                None => spec_get(self@, key@) is None,
            },
    {
        broadcast use group_json_view_axioms;

        match self {
            Json::Obj(fields) => {
                let ghost fs = view_fields(fields@);
                let n = fields.len();
                let mut i: usize = 0;
                while i < n
                    invariant
                        0 <= i <= n,
                        n == fields@.len(),
                        fs == view_fields(fields@),
                        fs.len() == n,
                        self@ == JsonV::Obj(fs),
                        forall|k: int| 0 <= k < i ==> (#[trigger] fs[k]).0 != key@,
                    decreases n - i,
                {
                    proof {
                        lemma_view_fields_index(fields@, i as int);
                    }
                    if crate::strutil::str_eq(fields[i].0.as_str(), key) {
                        proof {
                            lemma_lookup_found(fs, key@, i as int);
                        }
                        return Some(&fields[i].1);
                    }
                    i = i + 1;
                }
                proof {
                    lemma_lookup_absent_key(fs, key@);
                }
                None
            },
            _ => None,
        }
    }

    /// Replace or append a field of an object document; any other document
    /// stays unchanged.
    #[verifier::loop_isolation(false)]
    pub fn set(self, key: &str, value: Json) -> (r: Json)
        ensures
            r@ == spec_set(self@, key@, value@),
    {
        broadcast use group_json_view_axioms;

        let ghost old_view = self@;
        match self {
            Json::Obj(mut fields) => {
                let ghost fs = view_fields(fields@);
                let n = fields.len();
                let mut i: usize = 0;
                while i < n
                    invariant
                        0 <= i <= n,
                        n == fields@.len(),
                        fs == view_fields(fields@),
                        fs.len() == n,
                        old_view == JsonV::Obj(fs),
                        forall|k: int| 0 <= k < i ==> (#[trigger] fs[k]).0 != key@,
                    decreases n - i,
                {
                    proof {
                        lemma_view_fields_index(fields@, i as int);
                    }
                    if crate::strutil::str_eq(fields[i].0.as_str(), key) {
                        proof {
                            lemma_obj_set_at_index(fs, key@, value@, i as int);
                        }
                        let ghost value_view = value@;
                        let ghost old_fields = fields@;
                        fields[i] = (key.to_owned(), value);
                        proof {
                            lemma_view_fields_len(fields@);
                            assert forall|k: int| 0 <= k < fields@.len() implies #[trigger] view_fields(
                                fields@,
                            )[k] == fs.update(i as int, (key@, value_view))[k] by {
                                lemma_view_fields_index(fields@, k);
                                if k != i {
                                    lemma_view_fields_index(old_fields, k);
                                }
                            }
                            assert(view_fields(fields@) =~= obj_set(fs, key@, value_view));
                        }
                        return Json::Obj(fields);
                    }
                    i = i + 1;
                }
                proof {
                    lemma_obj_set_append(fs, key@, value@);
                }
                let ghost value_view = value@;
                let ghost old_fields = fields@;
                fields.push((key.to_owned(), value));
                proof {
                    lemma_view_fields_len(fields@);
                    assert forall|k: int| 0 <= k < fields@.len() implies #[trigger] view_fields(
                        fields@,
                    )[k] == fs.push((key@, value_view))[k] by {
                        lemma_view_fields_index(fields@, k);
                        if k < old_fields.len() {
                            lemma_view_fields_index(old_fields, k);
                        }
                    }
                    assert(view_fields(fields@) =~= obj_set(fs, key@, value_view));
                }
                Json::Obj(fields)
            },
            other => other,
        }
    }

    /// Remove a field of an object document; any other document stays
    /// unchanged.
    #[verifier::loop_isolation(false)]
    pub fn remove(self, key: &str) -> (r: Json)
        ensures
            r@ == spec_remove(self@, key@),
    {
        broadcast use group_json_view_axioms;

        let ghost old_view = self@;
        match self {
            Json::Obj(mut fields) => {
                let ghost fs = view_fields(fields@);
                let n = fields.len();
                let mut i: usize = 0;
                while i < n
                    invariant
                        0 <= i <= n,
                        n == fields@.len(),
                        fs == view_fields(fields@),
                        fs.len() == n,
                        old_view == JsonV::Obj(fs),
                        forall|k: int| 0 <= k < i ==> (#[trigger] fs[k]).0 != key@,
                    decreases n - i,
                {
                    proof {
                        lemma_view_fields_index(fields@, i as int);
                    }
                    if crate::strutil::str_eq(fields[i].0.as_str(), key) {
                        proof {
                            lemma_obj_remove_at_index(fs, key@, i as int);
                        }
                        let ghost old_fields = fields@;
                        fields.remove(i);
                        proof {
                            lemma_view_fields_len(fields@);
                            assert forall|k: int| 0 <= k < fields@.len() implies #[trigger] view_fields(
                                fields@,
                            )[k] == (fs.subrange(0, i as int) + fs.subrange(
                                i as int + 1,
                                fs.len() as int,
                            ))[k] by {
                                lemma_view_fields_index(fields@, k);
                                if k < i {
                                    lemma_view_fields_index(old_fields, k);
                                } else {
                                    lemma_view_fields_index(old_fields, k + 1);
                                }
                            }
                            assert(view_fields(fields@) =~= obj_remove(fs, key@));
                        }
                        return Json::Obj(fields);
                    }
                    i = i + 1;
                }
                proof {
                    lemma_obj_remove_absent(fs, key@);
                    assert(view_fields(fields@) =~= obj_remove(fs, key@));
                }
                Json::Obj(fields)
            },
            other => other,
        }
    }
}

/// Where the first match sits at index `i`, the set replaces that field.
proof fn lemma_obj_set_at_index(fs: Seq<(Seq<char>, JsonV)>, key: Seq<char>, value: JsonV, i: int)
    requires
        0 <= i < fs.len(),
        fs[i].0 == key,
        forall|k: int| 0 <= k < i ==> (#[trigger] fs[k]).0 != key,
    ensures
        obj_set(fs, key, value) =~= fs.update(i, (key, value)),
    decreases i,
{
    if i == 0 {
        assert(obj_set(fs, key, value) == seq![(key, value)] + fs.drop_first());
    } else {
        assert(fs[0].0 != key);
        let tail = fs.drop_first();
        assert(tail[i - 1].0 == key);
        assert(forall|k: int| 0 <= k < i - 1 ==> (#[trigger] tail[k]).0 != key);
        lemma_obj_set_at_index(tail, key, value, i - 1);
        assert(obj_set(fs, key, value) == seq![fs[0]] + obj_set(tail, key, value));
        assert(seq![fs[0]] + tail.update(i - 1, (key, value)) =~= fs.update(i, (key, value)));
    }
}

/// Where no field has the key, the set appends.
proof fn lemma_obj_set_append(fs: Seq<(Seq<char>, JsonV)>, key: Seq<char>, value: JsonV)
    requires
        forall|k: int| 0 <= k < fs.len() ==> (#[trigger] fs[k]).0 != key,
    ensures
        obj_set(fs, key, value) =~= fs.push((key, value)),
    decreases fs.len(),
{
    if fs.len() == 0 {
    } else {
        lemma_obj_set_append(fs.drop_first(), key, value);
        assert(seq![fs[0]] + fs.drop_first().push((key, value)) =~= fs.push((key, value)));
    }
}

/// Where the first match sits at index `i`, the removal drops that field.
proof fn lemma_obj_remove_at_index(fs: Seq<(Seq<char>, JsonV)>, key: Seq<char>, i: int)
    requires
        0 <= i < fs.len(),
        fs[i].0 == key,
        forall|k: int| 0 <= k < i ==> (#[trigger] fs[k]).0 != key,
    ensures
        obj_remove(fs, key) =~= fs.subrange(0, i) + fs.subrange(i + 1, fs.len() as int),
    decreases i,
{
    if i == 0 {
        assert(obj_remove(fs, key) == fs.drop_first());
        assert(fs.drop_first() =~= fs.subrange(0, 0) + fs.subrange(1, fs.len() as int));
    } else {
        let tail = fs.drop_first();
        lemma_obj_remove_at_index(tail, key, i - 1);
        assert(obj_remove(fs, key) == seq![fs[0]] + obj_remove(tail, key));
        assert(seq![fs[0]] + (tail.subrange(0, i - 1) + tail.subrange(i, tail.len() as int)) =~= fs
            .subrange(0, i) + fs.subrange(i + 1, fs.len() as int));
    }
}

/// Where no field has the key, the removal changes nothing.
proof fn lemma_obj_remove_absent(fs: Seq<(Seq<char>, JsonV)>, key: Seq<char>)
    requires
        forall|k: int| 0 <= k < fs.len() ==> (#[trigger] fs[k]).0 != key,
    ensures
        obj_remove(fs, key) =~= fs,
    decreases fs.len(),
{
    if fs.len() > 0 {
        lemma_obj_remove_absent(fs.drop_first(), key);
        assert(seq![fs[0]] + fs.drop_first() =~= fs);
    }
}

/// Where field `i` is the first match, the lookup returns its value.
pub proof fn lemma_lookup_found(fs: Seq<(Seq<char>, JsonV)>, key: Seq<char>, i: int)
    requires
        0 <= i < fs.len(),
        fs[i].0 == key,
        forall|k: int| 0 <= k < i ==> (#[trigger] fs[k]).0 != key,
    ensures
        obj_lookup(fs, key) == Some(fs[i].1),
    decreases i,
{
    if i == 0 {
    } else {
        let tail = fs.drop_first();
        assert(tail[i - 1].0 == key);
        assert(forall|k: int| 0 <= k < i - 1 ==> (#[trigger] tail[k]).0 != key);
        lemma_lookup_found(tail, key, i - 1);
    }
}

} // verus!

verus! {

impl Json {
    /// A deep copy of a document, with the same mathematical value.
    #[verifier::loop_isolation(false)]
    pub fn duplicate(&self) -> (r: Json)
        ensures
            r@ == self@,
        decreases *self,
    {
        broadcast use group_json_view_axioms;

        match self {
            Json::Null => Json::Null,
            Json::Bool(b) => Json::Bool(*b),
            Json::Int(n) => Json::Int(*n),
            Json::Num(s) => Json::Num(s.clone()),
            Json::Str(s) => Json::Str(s.clone()),
            Json::Arr(items) => {
                let n = items.len();
                let mut out: Vec<Json> = Vec::new();
                let mut i: usize = 0;
                while i < n
                    invariant
                        0 <= i <= n,
                        out@.len() == i,
                        view_items(out@) =~= view_items(items@).subrange(0, i as int),
                    decreases n - i,
                {
                    let d = items[i].duplicate();
                    out.push(d);
                    proof {
                        let prev = out@.drop_last();
                        assert(view_items(out@) == view_items(prev).push(json_view(out@.last())));
                        assert(view_items(out@) =~= view_items(items@).subrange(0, i as int + 1));
                    }
                    i = i + 1;
                }
                proof {
                    assert(view_items(items@).subrange(0, n as int) =~= view_items(items@));
                }
                Json::Arr(out)
            },
            Json::Obj(fields) => {
                let n = fields.len();
                let mut out: Vec<(String, Json)> = Vec::new();
                let mut i: usize = 0;
                while i < n
                    invariant
                        0 <= i <= n,
                        out@.len() == i,
                        view_fields(out@) =~= view_fields(fields@).subrange(0, i as int),
                    decreases n - i,
                {
                    proof {
                        lemma_view_fields_index(fields@, i as int);
                    }
                    let k = fields[i].0.clone();
                    let d = fields[i].1.duplicate();
                    out.push((k, d));
                    proof {
                        let prev = out@.drop_last();
                        assert(view_fields(out@) == view_fields(prev).push(
                            (out@.last().0@, json_view(out@.last().1)),
                        ));
                        assert(view_fields(out@) =~= view_fields(fields@).subrange(0, i as int + 1));
                    }
                    i = i + 1;
                }
                proof {
                    assert(view_fields(fields@).subrange(0, n as int) =~= view_fields(fields@));
                }
                Json::Obj(out)
            },
        }
    }
}

/// Whether two documents have the same mathematical value.
#[verifier::loop_isolation(false)]
pub fn json_eq(a: &Json, b: &Json) -> (r: bool)
    ensures
        r == (a@ == b@),
    decreases *a,
{
    broadcast use group_json_view_axioms;

    match (a, b) {
        (Json::Null, Json::Null) => true,
        (Json::Bool(x), Json::Bool(y)) => x == y,
        (Json::Int(x), Json::Int(y)) => x == y,
        (Json::Num(x), Json::Num(y)) => crate::strutil::str_eq(x.as_str(), y.as_str()),
        (Json::Str(x), Json::Str(y)) => crate::strutil::str_eq(x.as_str(), y.as_str()),
        (Json::Arr(xs), Json::Arr(ys)) => {
            if xs.len() != ys.len() {
                proof {
                    lemma_view_items_len(xs@);
                    lemma_view_items_len(ys@);
                }
                return false;
            }
            let n = xs.len();
            let mut i: usize = 0;
            while i < n
                invariant
                    0 <= i <= n,
                    forall|k: int|
                        0 <= k < i ==> view_items(xs@)[k] == #[trigger] view_items(ys@)[k],
                decreases n - i,
            {
                if !json_eq(&xs[i], &ys[i]) {
                    proof {
                        lemma_view_items_index(xs@, i as int);
                        lemma_view_items_index(ys@, i as int);
                    }
                    return false;
                }
                proof {
                    lemma_view_items_index(xs@, i as int);
                    lemma_view_items_index(ys@, i as int);
                }
                i = i + 1;
            }
            proof {
                lemma_view_items_len(xs@);
                lemma_view_items_len(ys@);
                assert(view_items(xs@) =~= view_items(ys@));
            }
            true
        },
        (Json::Obj(xs), Json::Obj(ys)) => {
            if xs.len() != ys.len() {
                proof {
                    lemma_view_fields_len(xs@);
                    lemma_view_fields_len(ys@);
                }
                return false;
            }
            let n = xs.len();
            let mut i: usize = 0;
            while i < n
                invariant
                    0 <= i <= n,
                    forall|k: int|
                        0 <= k < i ==> view_fields(xs@)[k] == #[trigger] view_fields(ys@)[k],
                decreases n - i,
            {
                proof {
                    lemma_view_fields_index(xs@, i as int);
                    lemma_view_fields_index(ys@, i as int);
                }
                if !crate::strutil::str_eq(xs[i].0.as_str(), ys[i].0.as_str()) {
                    return false;
                }
                if !json_eq(&xs[i].1, &ys[i].1) {
                    return false;
                }
                i = i + 1;
            }
            proof {
                lemma_view_fields_len(xs@);
                lemma_view_fields_len(ys@);
                assert(view_fields(xs@) =~= view_fields(ys@));
            }
            true
        },
        _ => {
            proof {
                assert(a@ != b@);
            }
            false
        },
    }
}

} // verus!

verus! {

/// Removing one key leaves the lookup of every other key as it was.
pub proof fn lemma_obj_remove_lookup_other(fs: Seq<(Seq<char>, JsonV)>, key: Seq<char>, k2: Seq<char>)
    requires
        k2 != key,
    ensures
        obj_lookup(obj_remove(fs, key), k2) == obj_lookup(fs, k2),
    decreases fs.len(),
{
    if fs.len() == 0 {
    } else if fs[0].0 == key {
    } else {
        let r = seq![fs[0]] + obj_remove(fs.drop_first(), key);
        assert(r[0] == fs[0]);
        assert(r.drop_first() =~= obj_remove(fs.drop_first(), key));
        lemma_obj_remove_lookup_other(fs.drop_first(), key, k2);
    }
}

} // verus!
