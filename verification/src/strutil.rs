//! String helpers: equality, decimal rendering and parsing, case folding.

use vstd::prelude::*;
use vstd::string::*;

verus! {

/// Relies on std's String::push: appends the given character to the end of
/// the string.
#[verifier::external_body]
pub fn push_char(s: &mut String, c: char)
    ensures
        final(s)@ == old(s)@.push(c),
{
    s.push(c);
}

/// Compare two string slices for equality of their character sequences.
pub fn str_eq(a: &str, b: &str) -> (r: bool)
    ensures
        r == (a@ == b@),
{
    let x: String = a.to_owned();
    let y: String = b.to_owned();
    x == y
}

/// The character for one decimal digit.
pub open spec fn digit_char(d: int) -> char {
    if d == 0 {
        '0'
    } else if d == 1 {
        '1'
    } else if d == 2 {
        '2'
    } else if d == 3 {
        '3'
    } else if d == 4 {
        '4'
    } else if d == 5 {
        '5'
    } else if d == 6 {
        '6'
    } else if d == 7 {
        '7'
    } else if d == 8 {
        '8'
    } else {
        '9'
    }
}

/// The decimal rendering of a natural number, most significant digit first.
pub open spec fn spec_dec(n: nat) -> Seq<char>
    decreases n,
{
    if n < 10 {
        seq![digit_char(n as int)]
    } else {
        spec_dec(n / 10).push(digit_char((n % 10) as int))
    }
}

fn digit_str(d: u64) -> (r: &'static str)
    requires
        d < 10,
    ensures
        r@ == seq![digit_char(d as int)],
{
    proof {
        reveal_strlit("0");
        reveal_strlit("1");
        reveal_strlit("2");
        reveal_strlit("3");
        reveal_strlit("4");
        reveal_strlit("5");
        reveal_strlit("6");
        reveal_strlit("7");
        reveal_strlit("8");
        reveal_strlit("9");
    }
    if d == 0 {
        "0"
    } else if d == 1 {
        "1"
    } else if d == 2 {
        "2"
    } else if d == 3 {
        "3"
    } else if d == 4 {
        "4"
    } else if d == 5 {
        "5"
    } else if d == 6 {
        "6"
    } else if d == 7 {
        "7"
    } else if d == 8 {
        "8"
    } else {
        "9"
    }
}

/// Render a number in decimal.
pub fn u64_to_string(n: u64) -> (s: String)
    ensures
        s@ == spec_dec(n as nat),
    decreases n,
{
    if n < 10 {
        digit_str(n).to_owned()
    } else {
        let mut s = u64_to_string(n / 10);
        s.append(digit_str(n % 10));
        assert(s@ == spec_dec((n / 10) as nat) + seq![digit_char((n % 10) as int)]);
        assert(spec_dec(n as nat) == spec_dec((n / 10) as nat).push(digit_char((n % 10) as int)));
        assert(spec_dec((n / 10) as nat).push(digit_char((n % 10) as int)) == spec_dec(
            (n / 10) as nat,
        ) + seq![digit_char((n % 10) as int)]);
        s
    }
}

/// The absolute value of a signed number, as a natural number.
pub open spec fn abs_nat(n: int) -> nat {
    if n < 0 {
        (-n) as nat
    } else {
        n as nat
    }
}

/// The decimal rendering of a signed number.
pub open spec fn spec_dec_i64(n: int) -> Seq<char> {
    if n < 0 {
        seq!['-'] + spec_dec(abs_nat(n))
    } else {
        spec_dec(abs_nat(n))
    }
}

/// Render a signed number in decimal.
pub fn i64_to_string(n: i64) -> (s: String)
    ensures
        s@ == spec_dec_i64(n as int),
{
    if n >= 0 {
        u64_to_string(n as u64)
    } else {
        let m: u64 = ((-(n + 1)) as u64) + 1;
        assert(m as nat == abs_nat(n as int));
        proof {
            reveal_strlit("-");
        }
        let mut s: String = "-".to_owned();
        let tail = u64_to_string(m);
        s.append(tail.as_str());
        assert(s@ == seq!['-'] + spec_dec(abs_nat(n as int)));
        s
    }
}

/// Whether a character is a decimal digit.
pub open spec fn is_digit(c: char) -> bool {
    '0' <= c && c <= '9'
}

/// The value of one decimal digit character.
pub open spec fn digit_value(c: char) -> int {
    c as int - '0' as int
}

/// The numeric value of a sequence of decimal digit characters.
pub open spec fn dec_value(s: Seq<char>) -> int
    decreases s.len(),
{
    if s.len() == 0 {
        0
    } else {
        dec_value(s.drop_last()) * 10 + digit_value(s.last())
    }
}

/// Whether every character of a sequence is a decimal digit.
pub open spec fn all_digits(s: Seq<char>) -> bool {
    forall|i: int| 0 <= i < s.len() ==> is_digit(#[trigger] s[i])
}

/// Parse a string of decimal digits. Returns `None` when the string is
/// empty, holds a non-digit, or names a value that does not fit in `u64`.
pub fn parse_u64(s: &str) -> (r: Option<u64>)
    ensures
        r is Some ==> s@.len() > 0 && all_digits(s@) && r->0 as int == dec_value(s@),
        r is None ==> s@.len() == 0 || !all_digits(s@) || dec_value(s@) > u64::MAX,
{
    let len = s.unicode_len();
    if len == 0 {
        return None;
    }
    let mut acc: u64 = 0;
    let mut i: usize = 0;
    while i < len
        invariant
            0 <= i <= len,
            len == s@.len(),
            all_digits(s@.subrange(0, i as int)),
            acc as int == dec_value(s@.subrange(0, i as int)),
        decreases len - i,
    {
        let c = s.get_char(i);
        if c < '0' || c > '9' {
            assert(!is_digit(s@[i as int]));
            return None;
        }
        let d: u64 = ((c as u32) - ('0' as u32)) as u64;
        if acc > 1844674407370955161u64 || (acc == 1844674407370955161u64 && d > 5) {
            proof {
                if all_digits(s@) {
                    assert(s@.subrange(0, (i + 1) as int).drop_last() =~= s@.subrange(
                        0,
                        i as int,
                    ));
                    assert(s@.subrange(0, (i + 1) as int).last() == s@[i as int]);
                    assert(dec_value(s@.subrange(0, (i + 1) as int)) > u64::MAX);
                    lemma_dec_value_grows(s@.subrange(0, (i + 1) as int), s@);
                }
            }
            return None;
        }
        acc = acc * 10 + d;
        proof {
            assert(s@.subrange(0, (i + 1) as int).drop_last() =~= s@.subrange(0, i as int));
            assert(s@.subrange(0, (i + 1) as int).last() == s@[i as int]);
        }
        i = i + 1;
    }
    proof {
        assert(s@.subrange(0, len as int) =~= s@);
    }
    Some(acc)
}

/// A longer digit string never names a smaller value.
proof fn lemma_dec_value_grows(pre: Seq<char>, s: Seq<char>)
    requires
        pre.len() <= s.len(),
        s.subrange(0, pre.len() as int) =~= pre,
        all_digits(s),
        pre.len() > 0,
    ensures
        dec_value(s) >= dec_value(pre),
        dec_value(s) >= 0,
    decreases s.len(),
{
    lemma_dec_value_nonneg(s);
    lemma_dec_value_nonneg(pre);
    if s.len() == pre.len() {
        assert(s =~= pre);
    } else {
        assert(s.drop_last().subrange(0, pre.len() as int) =~= pre);
        assert(all_digits(s.drop_last()));
        lemma_dec_value_grows(pre, s.drop_last());
        assert(dec_value(s) == dec_value(s.drop_last()) * 10 + digit_value(s.last()));
        assert(dec_value(s.drop_last()) * 10 >= dec_value(s.drop_last())) by (nonlinear_arith)
            requires
                dec_value(s.drop_last()) >= 0,
        ;
    }
}

/// The value of an all-digit sequence is not negative.
pub proof fn lemma_dec_value_nonneg(s: Seq<char>)
    requires
        all_digits(s),
    ensures
        dec_value(s) >= 0,
    decreases s.len(),
{
    if s.len() > 0 {
        assert(all_digits(s.drop_last()));
        lemma_dec_value_nonneg(s.drop_last());
        assert(dec_value(s.drop_last()) * 10 >= 0) by (nonlinear_arith)
            requires
                dec_value(s.drop_last()) >= 0,
        ;
    }
}

/// Lower-case an ASCII letter; other characters stay as they are.
pub open spec fn lower_char(c: char) -> char {
    if 'A' <= c && c <= 'Z' {
        ((c as u8) + 32) as char
    } else {
        c
    }
}

/// Lower-case the ASCII letters of a string.
pub fn ascii_lowercase(s: &str) -> (r: String)
    ensures
        r@ == s@.map_values(|c: char| lower_char(c)),
{
    let len = s.unicode_len();
    let mut out = String::new();
    let mut i: usize = 0;
    while i < len
        invariant
            0 <= i <= len,
            len == s@.len(),
            out@ == s@.subrange(0, i as int).map_values(|c: char| lower_char(c)),
        decreases len - i,
    {
        let c = s.get_char(i);
        let lc: char = if 'A' <= c && c <= 'Z' {
            (((c as u8) + 32) as char)
        } else {
            c
        };
        push_char(&mut out, lc);
        proof {
            assert(s@.subrange(0, (i + 1) as int) =~= s@.subrange(0, i as int).push(s@[i as int]));
            assert(s@.subrange(0, (i + 1) as int).map_values(|c: char| lower_char(c)) =~= s@
                .subrange(0, i as int).map_values(|c: char| lower_char(c)).push(
                lower_char(s@[i as int]),
            ));
        }
        i = i + 1;
    }
    proof {
        assert(s@.subrange(0, len as int) =~= s@);
    }
    out
}

} // verus!

verus! {

/// A decimal rendering has at least one digit, and exactly one digit for
/// numbers below ten.
pub proof fn lemma_spec_dec_len(n: nat)
    ensures
        spec_dec(n).len() >= 1,
        (n < 10) <==> (spec_dec(n).len() == 1),
    decreases n,
{
    if n >= 10 {
        lemma_spec_dec_len(n / 10);
    }
}

/// Two different numbers have different decimal renderings.
pub proof fn lemma_spec_dec_injective(a: nat, b: nat)
    requires
        a != b,
    ensures
        spec_dec(a) != spec_dec(b),
    decreases a + b,
{
    lemma_spec_dec_len(a);
    lemma_spec_dec_len(b);
    if a < 10 && b < 10 {
        assert(spec_dec(a) == seq![digit_char(a as int)]);
        assert(spec_dec(b) == seq![digit_char(b as int)]);
        assert(digit_char(a as int) != digit_char(b as int));
        assert(spec_dec(a)[0] != spec_dec(b)[0]);
    } else if a < 10 || b < 10 {
    } else {
        assert(a == (a / 10) * 10 + a % 10);
        assert(b == (b / 10) * 10 + b % 10);
        assert(spec_dec(a) == spec_dec(a / 10).push(digit_char((a % 10) as int)));
        assert(spec_dec(b) == spec_dec(b / 10).push(digit_char((b % 10) as int)));
        if a % 10 != b % 10 {
            assert(digit_char((a % 10) as int) != digit_char((b % 10) as int));
            if spec_dec(a) == spec_dec(b) {
                assert(spec_dec(a).last() == spec_dec(b).last());
                assert(false);
            }
        } else {
            assert(a / 10 != b / 10);
            lemma_spec_dec_injective(a / 10, b / 10);
            if spec_dec(a) == spec_dec(b) {
                assert(spec_dec(a).drop_last() =~= spec_dec(a / 10));
                assert(spec_dec(b).drop_last() =~= spec_dec(b / 10));
                assert(false);
            }
        }
    }
}

} // verus!

verus! {

/// Whether a character is blank space.
pub open spec fn is_ws(c: char) -> bool {
    c == ' ' || c == '\t' || c == '\n' || c == '\r'
}

/// A sequence without its leading blank space.
pub open spec fn spec_trim_front(s: Seq<char>) -> Seq<char>
    decreases s.len(),
{
    if s.len() > 0 && is_ws(s[0]) {
        spec_trim_front(s.drop_first())
    } else {
        s
    }
}

/// A sequence without its trailing blank space.
pub open spec fn spec_trim_back(s: Seq<char>) -> Seq<char>
    decreases s.len(),
{
    if s.len() > 0 && is_ws(s.last()) {
        spec_trim_back(s.drop_last())
    } else {
        s
    }
}

/// A sequence without leading and trailing blank space.
pub open spec fn spec_trim(s: Seq<char>) -> Seq<char> {
    spec_trim_back(spec_trim_front(s))
}

proof fn lemma_trim_front_at(s: Seq<char>, i: int)
    requires
        0 <= i <= s.len(),
        forall|j: int| 0 <= j < i ==> is_ws(#[trigger] s[j]),
        i < s.len() ==> !is_ws(s[i]),
    ensures
        spec_trim_front(s) =~= s.subrange(i, s.len() as int),
    decreases i,
{
    if i == 0 {
        if s.len() > 0 && is_ws(s[0]) {
            assert(false);
        }
        assert(s.subrange(0, s.len() as int) =~= s);
    } else {
        let tail = s.drop_first();
        assert(forall|j: int| 0 <= j < i - 1 ==> is_ws(#[trigger] tail[j]));
        lemma_trim_front_at(tail, i - 1);
        assert(tail.subrange(i - 1, tail.len() as int) =~= s.subrange(i, s.len() as int));
    }
}

proof fn lemma_trim_back_at(s: Seq<char>, e: int)
    requires
        0 <= e <= s.len(),
        forall|j: int| e <= j < s.len() ==> is_ws(#[trigger] s[j]),
        e > 0 ==> !is_ws(s[e - 1]),
    ensures
        spec_trim_back(s) =~= s.subrange(0, e),
    decreases s.len(),
{
    if e == s.len() {
        if s.len() > 0 && is_ws(s.last()) {
            assert(false);
        }
        assert(s.subrange(0, e) =~= s);
    } else {
        assert(is_ws(s.last()));
        let front = s.drop_last();
        assert(forall|j: int| e <= j < front.len() ==> is_ws(#[trigger] front[j]));
        lemma_trim_back_at(front, e);
        assert(front.subrange(0, e) =~= s.subrange(0, e));
    }
}

/// Drop the blank space around a string.
pub fn trim(s: &str) -> (r: String)
    ensures
        r@ == spec_trim(s@),
{
    let len = s.unicode_len();
    let mut a: usize = 0;
    while a < len
        invariant
            0 <= a <= len,
            len == s@.len(),
            forall|j: int| 0 <= j < a ==> is_ws(#[trigger] s@[j]),
        ensures
            0 <= a <= len,
            forall|j: int| 0 <= j < a ==> is_ws(#[trigger] s@[j]),
            a < len ==> !is_ws(s@[a as int]),
        decreases len - a,
    {
        let c = s.get_char(a);
        if !(c == ' ' || c == '\t' || c == '\n' || c == '\r') {
            break;
        }
        a = a + 1;
    }
    let mut b: usize = len;
    while b > a
        invariant
            a <= b <= len,
            len == s@.len(),
            forall|j: int| b <= j < len ==> is_ws(#[trigger] s@[j]),
        ensures
            a <= b <= len,
            len == s@.len(),
            forall|j: int| b <= j < len ==> is_ws(#[trigger] s@[j]),
            b > a ==> !is_ws(s@[b - 1]),
        decreases b,
    {
        let c = s.get_char(b - 1);
        if !(c == ' ' || c == '\t' || c == '\n' || c == '\r') {
            break;
        }
        b = b - 1;
    }
    proof {
        lemma_trim_front_at(s@, a as int);
        let f = s@.subrange(a as int, len as int);
        assert(forall|j: int|
            (b - a) <= j < f.len() ==> is_ws(#[trigger] f[j]));
        lemma_trim_back_at(f, b - a);
        assert(f.subrange(0, b - a) =~= s@.subrange(a as int, b as int));
    }
    s.substring_char(a, b).to_owned()
}

/// Whether the pattern stands in the text at position `i`.
pub open spec fn match_at(s: Seq<char>, p: Seq<char>, i: int) -> bool {
    0 <= i && i + p.len() <= s.len() && s.subrange(i, i + p.len()) == p
}

/// The first position at or after `i` where the pattern stands in the
/// text, or `-1`.
pub open spec fn spec_find_from(s: Seq<char>, p: Seq<char>, i: int) -> int
    decreases s.len() - i + 1,
{
    if i < 0 || i + p.len() > s.len() {
        -1
    } else if match_at(s, p, i) {
        i
    } else {
        spec_find_from(s, p, i + 1)
    }
}

/// The first position where the pattern stands in the text, or `-1`.
pub open spec fn spec_find_sub(s: Seq<char>, p: Seq<char>) -> int {
    spec_find_from(s, p, 0)
}

/// Find the first position where the pattern stands in the text.
#[verifier::loop_isolation(false)]
pub fn find_sub(s: &str, p: &str) -> (r: Option<usize>)
    ensures
        match r {
            Some(i) => spec_find_sub(s@, p@) == i as int,
            None => spec_find_sub(s@, p@) == -1,
        },
{
    let n = s.unicode_len();
    let m = p.unicode_len();
    if m > n {
        return None;
    }
    let mut i: usize = 0;
    while i <= n - m
        invariant
            0 <= i,
            m <= n,
            i + m <= n + 1,
            n == s@.len(),
            m == p@.len(),
            spec_find_sub(s@, p@) == spec_find_from(s@, p@, i as int),
        decreases n - i,
    {
        let mut j: usize = 0;
        let mut ok = true;
        while j < m
            invariant
                0 <= j <= m,
                i + m <= n,
                ok == (s@.subrange(i as int, i as int + j as int) =~= p@.subrange(0, j as int)),
            decreases m - j,
        {
            let ghost pre_ok = ok;
            if s.get_char(i + j) != p.get_char(j) {
                ok = false;
            }
            proof {
                let sj = s@.subrange(i as int, i as int + j as int + 1);
                let pj = p@.subrange(0, j as int + 1);
                assert(sj.drop_last() =~= s@.subrange(i as int, i as int + j as int));
                assert(pj.drop_last() =~= p@.subrange(0, j as int));
                assert(sj.last() == s@[i as int + j as int]);
                assert(pj.last() == p@[j as int]);
                if pre_ok && s@[i as int + j as int] == p@[j as int] {
                    assert(sj =~= pj);
                } else {
                    if sj == pj {
                        assert(sj.drop_last() == pj.drop_last());
                        assert(sj.last() == pj.last());
                        assert(false);
                    }
                    assert(sj != pj);
                }
            }
            j = j + 1;
        }
        if ok {
            proof {
                assert(s@.subrange(i as int, i as int + m as int) =~= p@);
                assert(match_at(s@, p@, i as int));
            }
            return Some(i);
        }
        proof {
            if match_at(s@, p@, i as int) {
                assert(s@.subrange(i as int, i as int + m as int) =~= p@);
            }
            assert(spec_find_from(s@, p@, i as int) == spec_find_from(s@, p@, i as int + 1));
        }
        i = i + 1;
    }
    proof {
        assert(spec_find_from(s@, p@, i as int) == -1);
    }
    None
}

} // verus!

verus! {

/// A found position carries a match of the pattern; `-1` means no
/// position at or after `i` does.
pub proof fn lemma_find_from(s: Seq<char>, p: Seq<char>, i: int)
    requires
        0 <= i,
    ensures
        spec_find_from(s, p, i) != -1 ==> {
            let r = spec_find_from(s, p, i);
            &&& i <= r
            &&& match_at(s, p, r)
        },
        spec_find_from(s, p, i) == -1 ==> forall|j: int| i <= j ==> !match_at(s, p, j),
    decreases s.len() - i + 1,
{
    if i + p.len() > s.len() {
        assert forall|j: int| i <= j implies !match_at(s, p, j) by {
            if match_at(s, p, j) {
                assert(j + p.len() <= s.len());
            }
        }
    } else if match_at(s, p, i) {
    } else {
        lemma_find_from(s, p, i + 1);
    }
}

} // verus!

verus! {

/// The position of the first occurrence of a character at or after `i`,
/// or `-1`.
pub open spec fn spec_find_char(s: Seq<char>, c: char, i: int) -> int
    decreases s.len() - i + 1,
{
    if i < 0 || i >= s.len() {
        -1
    } else if s[i] == c {
        i
    } else {
        spec_find_char(s, c, i + 1)
    }
}

/// The pieces of a text split at every occurrence of a character; an
/// empty text is one empty piece.
pub open spec fn spec_split_char(s: Seq<char>, c: char) -> Seq<Seq<char>>
    decreases s.len(),
{
    let p = spec_find_char(s, c, 0);
    if p < 0 || p >= s.len() {
        seq![s]
    } else {
        seq![s.subrange(0, p)] + spec_split_char(s.subrange(p + 1, s.len() as int), c)
    }
}

/// Split a text at every occurrence of a character.
pub fn split_char(s: &str, c: char) -> (r: Vec<String>)
    ensures
        crate::strutil::views_of_strings(r@) == spec_split_char(s@, c),
    decreases s@.len(),
{
    let n = s.unicode_len();
    let mut p: usize = 0;
    while p < n
        invariant
            0 <= p <= n,
            n == s@.len(),
            spec_find_char(s@, c, 0) == spec_find_char(s@, c, p as int),
        ensures
            0 <= p <= n,
            n == s@.len(),
            spec_find_char(s@, c, 0) == spec_find_char(s@, c, p as int),
            p < n ==> s@[p as int] == c,
            p == n ==> spec_find_char(s@, c, p as int) == -1,
        decreases n - p,
    {
        if s.get_char(p) == c {
            break;
        }
        p = p + 1;
    }
    if p < n {
        proof {
            assert(spec_find_char(s@, c, 0) == p as int);
        }
        let pre = s.substring_char(0, p).to_owned();
        let suf = s.substring_char(p + 1, n);
        let mut rest = split_char(suf, c);
        let ghost restv = rest@;
        let mut out: Vec<String> = Vec::new();
        out.push(pre);
        out.append(&mut rest);
        proof {
            assert forall|k: int| 0 <= k < out@.len() implies #[trigger] views_of_strings(out@)[k]
                == (seq![s@.subrange(0, p as int)] + spec_split_char(
                s@.subrange(p as int + 1, n as int),
                c,
            ))[k] by {
                if k > 0 {
                    assert(out@[k] == restv[k - 1]);
                    assert(views_of_strings(restv)[k - 1] == restv[k - 1]@);
                }
            }
            assert(views_of_strings(out@) =~= spec_split_char(s@, c));
        }
        out
    } else {
        let mut out: Vec<String> = Vec::new();
        out.push(s.to_owned());
        proof {
            assert(views_of_strings(out@) =~= spec_split_char(s@, c));
        }
        out
    }
}

/// The views of a list of strings.
pub open spec fn views_of_strings(v: Seq<String>) -> Seq<Seq<char>> {
    v.map_values(|s: String| s@)
}

} // verus!

verus! {

/// Filtering steps over the first element.
pub proof fn lemma_filter_step(s: Seq<Seq<char>>, pred: spec_fn(Seq<char>) -> bool)
    requires
        s.len() > 0,
    ensures
        s.filter(pred) == (if pred(s[0]) {
            seq![s[0]]
        } else {
            Seq::<Seq<char>>::empty()
        }) + s.drop_first().filter(pred),
{
    let head = seq![s[0]];
    Seq::filter_distributes_over_add(head, s.drop_first(), pred);
    assert(head + s.drop_first() =~= s);
    reveal(Seq::filter);
    assert(head.drop_last() =~= Seq::<Seq<char>>::empty());
    assert(head.last() == s[0]);
    assert(Seq::<Seq<char>>::empty().filter(pred) =~= Seq::<Seq<char>>::empty());
    if pred(s[0]) {
        assert(head.filter(pred) =~= seq![s[0]]);
        assert(head.filter(pred) + s.drop_first().filter(pred) =~= seq![s[0]] + s.drop_first().filter(
            pred,
        ));
    } else {
        assert(head.filter(pred) =~= Seq::<Seq<char>>::empty());
        assert(head.filter(pred) + s.drop_first().filter(pred) =~= Seq::<Seq<char>>::empty()
            + s.drop_first().filter(pred));
    }
}

/// Filtering an empty sequence gives an empty sequence.
pub proof fn lemma_filter_empty(s: Seq<Seq<char>>, pred: spec_fn(Seq<char>) -> bool)
    requires
        s.len() == 0,
    ensures
        s.filter(pred) == s,
{
    reveal(Seq::filter);
}

} // verus!

verus! {

/// Find the first occurrence of a character.
pub fn find_char(s: &str, c: char) -> (r: Option<usize>)
    ensures
        match r {
            Some(i) => spec_find_char(s@, c, 0) == i as int && i < s@.len() && s@[i as int] == c,
            None => spec_find_char(s@, c, 0) == -1,
        },
{
    let n = s.unicode_len();
    let mut i: usize = 0;
    while i < n
        invariant
            0 <= i <= n,
            n == s@.len(),
            spec_find_char(s@, c, 0) == spec_find_char(s@, c, i as int),
        ensures
            0 <= i <= n,
            n == s@.len(),
            spec_find_char(s@, c, 0) == spec_find_char(s@, c, i as int),
            i < n ==> s@[i as int] == c,
            i == n ==> spec_find_char(s@, c, i as int) == -1,
        decreases n - i,
    {
        if s.get_char(i) == c {
            break;
        }
        i = i + 1;
    }
    if i < n {
        Some(i)
    } else {
        None
    }
}

} // verus!
