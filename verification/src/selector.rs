//! Label selectors: the Kubernetes selector grammar, parsed and matched.
//!
//! A selector is a comma-separated list of requirements (commas inside
//! parentheses belong to value lists): equality `k=v` / `k==v`,
//! inequality `k!=v`, set forms `k in (v1,v2)` / `k notin (v1,v2)`,
//! existence `k` and non-existence `!k`. All requirements are combined
//! with AND; an empty selector matches everything; an absent label counts
//! as non-existence.

use crate::strutil::str_eq;
use vstd::prelude::*;
use vstd::string::*;

verus! {

/// One selector requirement.
#[derive(Debug)]
pub enum Expression {
    In(String, Vec<String>),
    NotIn(String, Vec<String>),
    Exists(String),
    DoesNotExist(String),
}

/// The mathematical value of a requirement.
pub enum ExprV {
    In(Seq<char>, Seq<Seq<char>>),
    NotIn(Seq<char>, Seq<Seq<char>>),
    Exists(Seq<char>),
    DoesNotExist(Seq<char>),
}

/// The views of a list of strings.
pub open spec fn views_of(v: Seq<String>) -> Seq<Seq<char>> {
    v.map_values(|s: String| s@)
}

impl View for Expression {
    type V = ExprV;

    open spec fn view(&self) -> ExprV {
        match self {
            Expression::In(k, vs) => ExprV::In(k@, views_of(vs@)),
            Expression::NotIn(k, vs) => ExprV::NotIn(k@, views_of(vs@)),
            Expression::Exists(k) => ExprV::Exists(k@),
            Expression::DoesNotExist(k) => ExprV::DoesNotExist(k@),
        }
    }
}

/// A parsed label selector: a conjunction of requirements.
#[derive(Debug)]
pub struct Selector {
    pub exprs: Vec<Expression>,
}

impl View for Selector {
    type V = Seq<ExprV>;

    open spec fn view(&self) -> Seq<ExprV> {
        self.exprs@.map_values(|e: Expression| e@)
    }
}

/// The value bound to a label key, if any: the first binding counts.
pub open spec fn spec_label_get(labels: Seq<(Seq<char>, Seq<char>)>, k: Seq<char>) -> Option<
    Seq<char>,
>
    decreases labels.len(),
{
    if labels.len() == 0 {
        None
    } else if labels[0].0 == k {
        Some(labels[0].1)
    } else {
        spec_label_get(labels.drop_first(), k)
    }
}

/// Whether one requirement holds of a label map.
pub open spec fn spec_expr_matches(e: ExprV, labels: Seq<(Seq<char>, Seq<char>)>) -> bool {
    match e {
        ExprV::In(k, vs) => match spec_label_get(labels, k) {
            Some(v) => vs.contains(v),
            None => false,
        },
        ExprV::NotIn(k, vs) => match spec_label_get(labels, k) {
            Some(v) => !vs.contains(v),
            None => true,
        },
        ExprV::Exists(k) => spec_label_get(labels, k) is Some,
        ExprV::DoesNotExist(k) => spec_label_get(labels, k) is None,
    }
}

/// Whether every requirement of a selector holds of a label map.
pub open spec fn spec_selector_matches(
    es: Seq<ExprV>,
    labels: Seq<(Seq<char>, Seq<char>)>,
) -> bool {
    forall|i: int| 0 <= i < es.len() ==> spec_expr_matches(#[trigger] es[i], labels)
}

/// The view of an executable label list.
pub open spec fn labels_view(labels: Seq<(String, String)>) -> Seq<(Seq<char>, Seq<char>)> {
    labels.map_values(|p: (String, String)| (p.0@, p.1@))
}

/// Look a label key up.
#[verifier::loop_isolation(false)]
fn label_get<'a>(labels: &'a Vec<(String, String)>, k: &str) -> (r: Option<&'a String>)
    ensures
        match r {
            Some(v) => spec_label_get(labels_view(labels@), k@) == Some(v@),
            None => spec_label_get(labels_view(labels@), k@) is None,
        },
{
    let n = labels.len();
    let mut i: usize = 0;
    while i < n
        invariant
            0 <= i <= n,
            forall|j: int| 0 <= j < i ==> (#[trigger] labels_view(labels@)[j]).0 != k@,
        decreases n - i,
    {
        if str_eq(labels[i].0.as_str(), k) {
            proof {
                lemma_label_get_found(labels_view(labels@), k@, i as int);
            }
            return Some(&labels[i].1);
        }
        i = i + 1;
    }
    proof {
        lemma_label_get_absent(labels_view(labels@), k@);
    }
    None
}

proof fn lemma_label_get_found(labels: Seq<(Seq<char>, Seq<char>)>, k: Seq<char>, i: int)
    requires
        0 <= i < labels.len(),
        labels[i].0 == k,
        forall|j: int| 0 <= j < i ==> (#[trigger] labels[j]).0 != k,
    ensures
        spec_label_get(labels, k) == Some(labels[i].1),
    decreases i,
{
    if i > 0 {
        let tail = labels.drop_first();
        assert(tail[i - 1] == labels[i]);
        assert(forall|j: int| 0 <= j < i - 1 ==> (#[trigger] tail[j]).0 != k);
        lemma_label_get_found(tail, k, i - 1);
    }
}

proof fn lemma_label_get_absent(labels: Seq<(Seq<char>, Seq<char>)>, k: Seq<char>)
    requires
        forall|j: int| 0 <= j < labels.len() ==> (#[trigger] labels[j]).0 != k,
    ensures
        spec_label_get(labels, k) is None,
    decreases labels.len(),
{
    if labels.len() > 0 {
        lemma_label_get_absent(labels.drop_first(), k);
    }
}

/// Whether a list of strings holds one equal to the given text.
#[verifier::loop_isolation(false)]
fn contains_str(vs: &Vec<String>, v: &str) -> (r: bool)
    ensures
        r == views_of(vs@).contains(v@),
{
    let n = vs.len();
    let mut i: usize = 0;
    while i < n
        invariant
            0 <= i <= n,
            forall|j: int| 0 <= j < i ==> #[trigger] views_of(vs@)[j] != v@,
        decreases n - i,
    {
        if str_eq(vs[i].as_str(), v) {
            assert(views_of(vs@)[i as int] == v@);
            return true;
        }
        i = i + 1;
    }
    proof {
        if views_of(vs@).contains(v@) {
            let j = choose|j: int| 0 <= j < views_of(vs@).len() && views_of(vs@)[j] == v@;
            assert(views_of(vs@)[j] != v@);
        }
    }
    false
}

impl Expression {
    /// Whether this requirement holds of a label map.
    pub fn matches(&self, labels: &Vec<(String, String)>) -> (r: bool)
        ensures
            r == spec_expr_matches(self@, labels_view(labels@)),
    {
        match self {
            Expression::In(k, vs) => match label_get(labels, k.as_str()) {
                Some(v) => contains_str(vs, v.as_str()),
                None => false,
            },
            Expression::NotIn(k, vs) => match label_get(labels, k.as_str()) {
                Some(v) => !contains_str(vs, v.as_str()),
                None => true,
            },
            Expression::Exists(k) => label_get(labels, k.as_str()).is_some(),
            Expression::DoesNotExist(k) => label_get(labels, k.as_str()).is_none(),
        }
    }
}

impl Selector {
    /// A selector with no requirements; it matches everything.
    pub fn empty() -> (r: Selector)
        ensures
            r@ == Seq::<ExprV>::empty(),
    {
        let r = Selector { exprs: Vec::new() };
        proof {
            assert(r@ =~= Seq::<ExprV>::empty());
        }
        r
    }

    /// Whether every requirement of this selector holds of a label map.
    #[verifier::loop_isolation(false)]
    pub fn matches(&self, labels: &Vec<(String, String)>) -> (r: bool)
        ensures
            r == spec_selector_matches(self@, labels_view(labels@)),
    {
        let n = self.exprs.len();
        let mut i: usize = 0;
        while i < n
            invariant
                0 <= i <= n,
                forall|j: int|
                    0 <= j < i ==> spec_expr_matches(#[trigger] self@[j], labels_view(labels@)),
            decreases n - i,
        {
            if !self.exprs[i].matches(labels) {
                assert(!spec_expr_matches(self@[i as int], labels_view(labels@)));
                return false;
            }
            i = i + 1;
        }
        true
    }
}

} // verus!

verus! {

/// The position of the first comma outside parentheses, scanning from
/// position `i` with the given open-parenthesis depth; `-1` when none is
/// left.
pub open spec fn spec_d0_comma(s: Seq<char>, i: int, depth: int) -> int
    decreases s.len() - i + 1,
{
    if i < 0 || i >= s.len() {
        -1
    } else if s[i] == ',' && depth == 0 {
        i
    } else {
        let d = if s[i] == '(' {
            depth + 1
        } else if s[i] == ')' {
            depth - 1
        } else {
            depth
        };
        spec_d0_comma(s, i + 1, d)
    }
}

/// The segments of a selector: split at the commas that stand outside
/// parentheses; a trailing comma closes the last segment.
pub open spec fn spec_split_parens(s: Seq<char>) -> Seq<Seq<char>>
    decreases s.len(),
{
    let c = spec_d0_comma(s, 0, 0);
    if c < 0 || c >= s.len() {
        if s.len() == 0 {
            Seq::empty()
        } else {
            seq![s]
        }
    } else {
        seq![s.subrange(0, c)] + spec_split_parens(s.subrange(c + 1, s.len() as int))
    }
}

/// The comma-separated pieces of a value list; an empty text is one empty
/// piece.
pub open spec fn spec_split_csv(s: Seq<char>) -> Seq<Seq<char>>
    decreases s.len(),
{
    let c = crate::strutil::spec_find_sub(s, ","@);
    if c < 0 || c >= s.len() {
        seq![s]
    } else {
        seq![s.subrange(0, c)] + spec_split_csv(s.subrange(c + 1, s.len() as int))
    }
}

/// The values of a set-based requirement: the comma-separated pieces,
/// each trimmed.
pub open spec fn spec_values(v: Seq<char>) -> Seq<Seq<char>> {
    spec_split_csv(v).map_values(|x: Seq<char>| crate::strutil::spec_trim(x))
}

/// Split a selector at the commas that stand outside parentheses.
pub fn split_preserving_parentheses(selector: &str) -> (r: Vec<String>)
    ensures
        views_of(r@) == spec_split_parens(selector@),
    decreases selector@.len(),
{
    let len = selector.unicode_len();
    let mut i: usize = 0;
    let mut depth: i128 = 0;
    while i < len
        invariant
            0 <= i <= len,
            len == selector@.len(),
            -(i as int) <= depth <= i as int,
            spec_d0_comma(selector@, 0, 0) == spec_d0_comma(selector@, i as int, depth as int),
        ensures
            0 <= i <= len,
            len == selector@.len(),
            spec_d0_comma(selector@, 0, 0) == spec_d0_comma(selector@, i as int, depth as int),
            i < len ==> selector@[i as int] == ',' && depth == 0,
            i == len ==> spec_d0_comma(selector@, i as int, depth as int) == -1,
        decreases len - i,
    {
        let c = selector.get_char(i);
        if c == ',' && depth == 0 {
            break;
        }
        if c == '(' {
            depth = depth + 1;
        } else if c == ')' {
            depth = depth - 1;
        }
        i = i + 1;
    }
    if i < len {
        proof {
            assert(spec_d0_comma(selector@, 0, 0) == i as int);
        }
        let pre = selector.substring_char(0, i).to_owned();
        let suf = selector.substring_char(i + 1, len);
        let mut rest = split_preserving_parentheses(suf);
        let ghost restv = rest@;
        let mut out: Vec<String> = Vec::new();
        out.push(pre);
        out.append(&mut rest);
        proof {
            assert forall|k: int| 0 <= k < out@.len() implies #[trigger] views_of(out@)[k]
                == (seq![selector@.subrange(0, i as int)] + spec_split_parens(
                selector@.subrange(i as int + 1, len as int),
            ))[k] by {
                if k > 0 {
                    assert(out@[k] == restv[k - 1]);
                    assert(views_of(restv)[k - 1] == restv[k - 1]@);
                }
            }
            assert(views_of(out@) =~= spec_split_parens(selector@));
        }
        out
    } else {
        if len == 0 {
            let out: Vec<String> = Vec::new();
            proof {
                assert(views_of(out@) =~= spec_split_parens(selector@));
            }
            out
        } else {
            let mut out: Vec<String> = Vec::new();
            out.push(selector.to_owned());
            proof {
                assert(views_of(out@) =~= spec_split_parens(selector@));
            }
            out
        }
    }
}

/// Split a value list at its commas.
pub fn split_csv(s: &str) -> (r: Vec<String>)
    ensures
        views_of(r@) == spec_split_csv(s@),
    decreases s@.len(),
{
    proof {
        reveal_strlit(",");
    }
    let len = s.unicode_len();
    match crate::strutil::find_sub(s, ",") {
        Some(c) => {
            proof {
                crate::strutil::lemma_find_from(s@, ","@, 0);
                assert(crate::strutil::match_at(s@, ","@, c as int));
            }
            let pre = s.substring_char(0, c).to_owned();
            let suf = s.substring_char(c + 1, len);
            let mut rest = split_csv(suf);
            let ghost restv = rest@;
            let mut out: Vec<String> = Vec::new();
            out.push(pre);
            out.append(&mut rest);
            proof {
                assert forall|k: int| 0 <= k < out@.len() implies #[trigger] views_of(out@)[k]
                    == (seq![s@.subrange(0, c as int)] + spec_split_csv(
                    s@.subrange(c as int + 1, len as int),
                ))[k] by {
                    if k > 0 {
                        assert(out@[k] == restv[k - 1]);
                        assert(views_of(restv)[k - 1] == restv[k - 1]@);
                    }
                }
                assert(views_of(out@) =~= spec_split_csv(s@));
            }
            out
        },
        None => {
            let mut out: Vec<String> = Vec::new();
            out.push(s.to_owned());
            proof {
                assert(views_of(out@) =~= spec_split_csv(s@));
            }
            out
        },
    }
}

/// Parse the value list of a set-based requirement.
#[verifier::loop_isolation(false)]
fn parse_values(v: &str) -> (r: Vec<String>)
    ensures
        views_of(r@) == spec_values(v@),
{
    let parts = split_csv(v);
    let n = parts.len();
    let mut out: Vec<String> = Vec::new();
    let mut i: usize = 0;
    while i < n
        invariant
            0 <= i <= n,
            n == parts@.len(),
            views_of(parts@) == spec_split_csv(v@),
            out@.len() == i,
            forall|k: int|
                0 <= k < i ==> #[trigger] views_of(out@)[k] == crate::strutil::spec_trim(
                    views_of(parts@)[k],
                ),
        decreases n - i,
    {
        let t = crate::strutil::trim(parts[i].as_str());
        let ghost prev = out@;
        let ghost tv = t@;
        out.push(t);
        proof {
            assert forall|k: int| 0 <= k < i + 1 implies #[trigger] views_of(out@)[k]
                == crate::strutil::spec_trim(views_of(parts@)[k]) by {
                if k < i {
                    assert(out@[k] == prev[k]);
                    assert(views_of(prev)[k] == prev[k]@);
                } else {
                    assert(out@[k] == out@.last());
                    assert(out@.last()@ == tv);
                }
            }
        }
        i = i + 1;
    }
    proof {
        assert(views_of(out@) =~= spec_values(v@));
    }
    out
}

} // verus!

verus! {

/// How one trimmed, non-empty requirement parses: `Ok(None)` for a blank
/// segment, `Ok(Some(..))` for a requirement, `Err` for bad set syntax.
pub open spec fn spec_parse_requirement(seg: Seq<char>) -> Result<Option<ExprV>, ()> {
    let t = crate::strutil::spec_trim(seg);
    if t.len() == 0 {
        Ok(Option::None)
    } else if crate::strutil::spec_find_sub(t, " in "@) >= 0 {
        let i = crate::strutil::spec_find_sub(t, " in "@);
        let k = crate::strutil::spec_trim(t.subrange(0, i));
        let rest = t.subrange(i + 4, t.len() as int);
        if rest.len() >= 2 && rest[0] == '(' && rest.last() == ')' {
            Ok(Option::Some(ExprV::In(k, spec_values(rest.subrange(1, rest.len() - 1)))))
        } else {
            Err(())
        }
    } else if crate::strutil::spec_find_sub(t, " notin "@) >= 0 {
        let i = crate::strutil::spec_find_sub(t, " notin "@);
        let k = crate::strutil::spec_trim(t.subrange(0, i));
        let rest = t.subrange(i + 7, t.len() as int);
        if rest.len() >= 2 && rest[0] == '(' && rest.last() == ')' {
            Ok(Option::Some(ExprV::NotIn(k, spec_values(rest.subrange(1, rest.len() - 1)))))
        } else {
            Err(())
        }
    } else if t[0] == '!' {
        Ok(Option::Some(ExprV::DoesNotExist(crate::strutil::spec_trim(t.drop_first()))))
    } else if crate::strutil::spec_find_sub(t, "!="@) >= 0 {
        let i = crate::strutil::spec_find_sub(t, "!="@);
        let k = crate::strutil::spec_trim(t.subrange(0, i));
        let v = crate::strutil::spec_trim(t.subrange(i + 2, t.len() as int));
        Ok(Option::Some(ExprV::NotIn(k, seq![v])))
    } else if crate::strutil::spec_find_sub(t, "=="@) >= 0 {
        let i = crate::strutil::spec_find_sub(t, "=="@);
        let k = crate::strutil::spec_trim(t.subrange(0, i));
        let v = crate::strutil::spec_trim(t.subrange(i + 2, t.len() as int));
        Ok(Option::Some(ExprV::In(k, seq![v])))
    } else if crate::strutil::spec_find_sub(t, "="@) >= 0 {
        let i = crate::strutil::spec_find_sub(t, "="@);
        let k = crate::strutil::spec_trim(t.subrange(0, i));
        let v = crate::strutil::spec_trim(t.subrange(i + 1, t.len() as int));
        Ok(Option::Some(ExprV::In(k, seq![v])))
    } else {
        Ok(Option::Some(ExprV::Exists(t)))
    }
}

/// How a list of segments parses: blank segments are skipped, the rest
/// keep their order, and any bad segment fails the parse.
pub open spec fn spec_parse_segments(segs: Seq<Seq<char>>) -> Result<Seq<ExprV>, ()>
    decreases segs.len(),
{
    if segs.len() == 0 {
        Ok(Seq::empty())
    } else {
        match spec_parse_segments(segs.drop_last()) {
            Err(e) => Err(e),
            Ok(es) => match spec_parse_requirement(segs.last()) {
                Err(e) => Err(e),
                Ok(Option::None) => Ok(es),
                Ok(Option::Some(x)) => Ok(es.push(x)),
            },
        }
    }
}

/// How a selector text parses: blank text is the selector that matches
/// everything; otherwise the requirements between the commas that stand
/// outside parentheses, in order.
pub open spec fn spec_parse_selector(s: Seq<char>) -> Result<Seq<ExprV>, ()> {
    if crate::strutil::spec_trim(s).len() == 0 {
        Ok(Seq::empty())
    } else {
        spec_parse_segments(spec_split_parens(s))
    }
}

/// Parse one requirement segment.
fn parse_requirement(seg: &str) -> (r: Result<Option<Expression>, String>)
    ensures
        match spec_parse_requirement(seg@) {
            Ok(Option::None) => r matches Ok(o) && o is None,
            Ok(Option::Some(e)) => r matches Ok(o) && (o matches Some(x) && x@ == e),
            Err(_) => r is Err,
        },
{
    proof {
        reveal_strlit(" in ");
        reveal_strlit(" notin ");
        reveal_strlit("!=");
        reveal_strlit("==");
        reveal_strlit("=");
        reveal_strlit("!");
    }
    let t = crate::strutil::trim(seg);
    let ts = t.as_str();
    let tlen = ts.unicode_len();
    if tlen == 0 {
        return Ok(None);
    }
    if let Some(i) = crate::strutil::find_sub(ts, " in ") {
        proof {
            crate::strutil::lemma_find_from(ts@, " in "@, 0);
        }
        let k = crate::strutil::trim(ts.substring_char(0, i));
        let rest = ts.substring_char(i + 4, tlen);
        let rlen = rest.unicode_len();
        if rlen >= 2 && rest.get_char(0) == '(' && rest.get_char(rlen - 1) == ')' {
            let inner = rest.substring_char(1, rlen - 1);
            let vals = parse_values(inner);
            return Ok(Some(Expression::In(k, vals)));
        } else {
            let mut msg: String = "Invalid 'in' syntax: ".to_owned();
            msg.append(ts);
            return Err(msg);
        }
    }
    if let Some(i) = crate::strutil::find_sub(ts, " notin ") {
        proof {
            crate::strutil::lemma_find_from(ts@, " notin "@, 0);
        }
        let k = crate::strutil::trim(ts.substring_char(0, i));
        let rest = ts.substring_char(i + 7, tlen);
        let rlen = rest.unicode_len();
        if rlen >= 2 && rest.get_char(0) == '(' && rest.get_char(rlen - 1) == ')' {
            let inner = rest.substring_char(1, rlen - 1);
            let vals = parse_values(inner);
            return Ok(Some(Expression::NotIn(k, vals)));
        } else {
            let mut msg: String = "Invalid 'notin' syntax: ".to_owned();
            msg.append(ts);
            return Err(msg);
        }
    }
    if ts.get_char(0) == '!' {
        let k = crate::strutil::trim(ts.substring_char(1, tlen));
        proof {
            assert(ts@.subrange(1, tlen as int) =~= ts@.drop_first());
        }
        return Ok(Some(Expression::DoesNotExist(k)));
    }
    if let Some(i) = crate::strutil::find_sub(ts, "!=") {
        proof {
            crate::strutil::lemma_find_from(ts@, "!="@, 0);
        }
        let k = crate::strutil::trim(ts.substring_char(0, i));
        let v = crate::strutil::trim(ts.substring_char(i + 2, tlen));
        let mut vals: Vec<String> = Vec::new();
        let ghost vv = v@;
        vals.push(v);
        proof {
            assert(views_of(vals@) =~= seq![vv]);
        }
        return Ok(Some(Expression::NotIn(k, vals)));
    }
    if let Some(i) = crate::strutil::find_sub(ts, "==") {
        proof {
            crate::strutil::lemma_find_from(ts@, "=="@, 0);
        }
        let k = crate::strutil::trim(ts.substring_char(0, i));
        let v = crate::strutil::trim(ts.substring_char(i + 2, tlen));
        let mut vals: Vec<String> = Vec::new();
        let ghost vv = v@;
        vals.push(v);
        proof {
            assert(views_of(vals@) =~= seq![vv]);
        }
        return Ok(Some(Expression::In(k, vals)));
    }
    if let Some(i) = crate::strutil::find_sub(ts, "=") {
        proof {
            crate::strutil::lemma_find_from(ts@, "="@, 0);
        }
        let k = crate::strutil::trim(ts.substring_char(0, i));
        let v = crate::strutil::trim(ts.substring_char(i + 1, tlen));
        let mut vals: Vec<String> = Vec::new();
        let ghost vv = v@;
        vals.push(v);
        proof {
            assert(views_of(vals@) =~= seq![vv]);
        }
        return Ok(Some(Expression::In(k, vals)));
    }
    Ok(Some(Expression::Exists(t)))
}

/// A bad segment anywhere fails the whole parse.
proof fn lemma_parse_segments_err(segs: Seq<Seq<char>>, i: int)
    requires
        0 <= i < segs.len(),
        spec_parse_requirement(segs[i]) is Err,
    ensures
        spec_parse_segments(segs) is Err,
    decreases segs.len(),
{
    if i < segs.len() - 1 {
        assert(segs.drop_last()[i] == segs[i]);
        lemma_parse_segments_err(segs.drop_last(), i);
    }
}

/// Parse a label selector.
#[verifier::loop_isolation(false)]
pub fn parse_label_selector(selector: &str) -> (r: Result<Selector, String>)
    ensures
        match spec_parse_selector(selector@) {
            Ok(es) => r matches Ok(sel) && sel@ == es,
            Err(_) => r is Err,
        },
{
    let t = crate::strutil::trim(selector);
    if t.as_str().unicode_len() == 0 {
        return Ok(Selector::empty());
    }
    let segs = split_preserving_parentheses(selector);
    let n = segs.len();
    let mut exprs: Vec<Expression> = Vec::new();
    proof {
        assert(views_of(segs@).subrange(0, 0) =~= Seq::<Seq<char>>::empty());
        assert(exprs@.map_values(|e: Expression| e@) =~= Seq::<ExprV>::empty());
    }
    let mut i: usize = 0;
    while i < n
        invariant
            0 <= i <= n,
            n == segs@.len(),
            views_of(segs@) == spec_split_parens(selector@),
            spec_parse_segments(views_of(segs@).subrange(0, i as int)) == Ok::<_, ()>(
                exprs@.map_values(|e: Expression| e@),
            ),
        decreases n - i,
    {
        let ghost pre = views_of(segs@).subrange(0, i as int);
        let ghost cur = views_of(segs@).subrange(0, i as int + 1);
        proof {
            assert(cur.drop_last() =~= pre);
            assert(cur.last() == segs@[i as int]@);
        }
        match parse_requirement(segs[i].as_str()) {
            Err(e) => {
                proof {
                    lemma_parse_segments_err(views_of(segs@), i as int);
                }
                return Err(e);
            },
            Ok(None) => {},
            Ok(Some(x)) => {
                let ghost prev = exprs@;
                let ghost xv = x@;
                exprs.push(x);
                proof {
                    assert(exprs@.map_values(|e: Expression| e@) =~= prev.map_values(
                        |e: Expression| e@,
                    ).push(xv));
                }
            },
        }
        i = i + 1;
    }
    proof {
        assert(views_of(segs@).subrange(0, n as int) =~= views_of(segs@));
    }
    Ok(Selector { exprs })
}

/// Match labels against a label selector text.
pub fn matches_label_selector(labels: &Vec<(String, String)>, selector: &str) -> (r: Result<
    bool,
    String,
>)
    ensures
        match spec_parse_selector(selector@) {
            Ok(es) => r matches Ok(b) && b == spec_selector_matches(es, labels_view(labels@)),
            Err(_) => r is Err,
        },
{
    match parse_label_selector(selector) {
        Ok(sel) => Ok(sel.matches(labels)),
        Err(e) => Err(e),
    }
}

} // verus!
