//! A compact JSON writer: the text of a document, with strings escaped
//! and numbers in decimal.

use crate::json::{Json, JsonV, view_fields, view_items};
use crate::strutil::{digit_char, i64_to_string, push_char, spec_dec_i64};
use vstd::prelude::*;
use vstd::string::*;

verus! {

/// The character of one hexadecimal digit.
pub open spec fn hex_char(d: int) -> char {
    if d < 10 {
        digit_char(d)
    } else if d == 10 {
        'a'
    } else if d == 11 {
        'b'
    } else if d == 12 {
        'c'
    } else if d == 13 {
        'd'
    } else if d == 14 {
        'e'
    } else {
        'f'
    }
}

/// The escape of one string character: quotes and backslashes take a
/// backslash, control characters take a unicode escape, the rest stand
/// as they are.
pub open spec fn esc_char(c: char) -> Seq<char> {
    if c == '"' {
        seq!['\\', '"']
    } else if c == '\\' {
        seq!['\\', '\\']
    } else if (c as int) < 32 {
        seq!['\\', 'u', '0', '0', hex_char(c as int / 16), hex_char(c as int % 16)]
    } else {
        seq![c]
    }
}

/// The escaped text of a string body.
pub open spec fn esc_text(s: Seq<char>) -> Seq<char>
    decreases s.len(),
{
    if s.len() == 0 {
        Seq::empty()
    } else {
        esc_char(s[0]) + esc_text(s.drop_first())
    }
}

/// The JSON text of a document.
pub open spec fn json_text(j: JsonV) -> Seq<char>
    decreases j,
{
    match j {
        JsonV::Null => "null"@,
        JsonV::Bool(b) => if b {
            "true"@
        } else {
            "false"@
        },
        JsonV::Int(n) => spec_dec_i64(n),
        JsonV::Num(s) => s,
        JsonV::Str(s) => seq!['"'] + esc_text(s) + seq!['"'],
        JsonV::Arr(items) => seq!['['] + items_text(items) + seq![']'],
        JsonV::Obj(fs) => seq!['{'] + fields_text(fs) + seq!['}'],
    }
}

/// The comma-separated texts of array elements.
pub open spec fn items_text(items: Seq<JsonV>) -> Seq<char>
    decreases items,
{
    if items.len() == 0 {
        Seq::empty()
    } else if items.len() == 1 {
        json_text(items[0])
    } else {
        items_text(items.drop_last()) + seq![','] + json_text(items.last())
    }
}

/// The comma-separated texts of object fields.
pub open spec fn fields_text(fs: Seq<(Seq<char>, JsonV)>) -> Seq<char>
    decreases fs,
{
    if fs.len() == 0 {
        Seq::empty()
    } else if fs.len() == 1 {
        field_text(fs[0])
    } else {
        fields_text(fs.drop_last()) + seq![','] + field_text(fs.last())
    }
}

/// The text of one object field.
pub open spec fn field_text(f: (Seq<char>, JsonV)) -> Seq<char>
    decreases f,
{
    seq!['"'] + esc_text(f.0) + seq!['"', ':'] + json_text(f.1)
}

/// Append the escaped text of a string body.
#[verifier::loop_isolation(false)]
fn append_escaped(out: &mut String, s: &str)
    ensures
        final(out)@ == old(out)@ + esc_text(s@),
{
    let n = s.unicode_len();
    let ghost base = out@;
    proof {
        assert(s@.subrange(0, n as int) =~= s@);
        assert(base + Seq::<char>::empty() =~= base);
    }
    let mut i: usize = 0;
    while i < n
        invariant
            0 <= i <= n,
            n == s@.len(),
            base + esc_text(s@) == out@ + esc_text(s@.subrange(i as int, n as int)),
        decreases n - i,
    {
        let ghost pre = s@.subrange(i as int, n as int);
        let ghost out0 = out@;
        proof {
            assert(pre[0] == s@[i as int]);
            assert(pre.drop_first() =~= s@.subrange(i as int + 1, n as int));
        }
        let c = s.get_char(i);
        if c == '"' {
            push_char(out, '\\');
            push_char(out, '"');
        } else if c == '\\' {
            push_char(out, '\\');
            push_char(out, '\\');
        } else if (c as u32) < 32 {
            push_char(out, '\\');
            push_char(out, 'u');
            push_char(out, '0');
            push_char(out, '0');
            let hi = (c as u32) / 16;
            let lo = (c as u32) % 16;
            let hc: char = if hi == 0 {
                '0'
            } else {
                '1'
            };
            push_char(out, hc);
            let lc: char = if lo == 0 {
                '0'
            } else if lo == 1 {
                '1'
            } else if lo == 2 {
                '2'
            } else if lo == 3 {
                '3'
            } else if lo == 4 {
                '4'
            } else if lo == 5 {
                '5'
            } else if lo == 6 {
                '6'
            } else if lo == 7 {
                '7'
            } else if lo == 8 {
                '8'
            } else if lo == 9 {
                '9'
            } else if lo == 10 {
                'a'
            } else if lo == 11 {
                'b'
            } else if lo == 12 {
                'c'
            } else if lo == 13 {
                'd'
            } else if lo == 14 {
                'e'
            } else {
                'f'
            };
            push_char(out, lc);
            proof {
                assert(hc == hex_char((c as int) / 16));
                assert(lc == hex_char((c as int) % 16));
                assert(out@ =~= out0 + esc_char(s@[i as int]));
            }
        } else {
            proof {
                assert(esc_char(c) =~= seq![c]);
            }
            push_char(out, c);
        }
        proof {
            assert(out@ =~= out0 + esc_char(s@[i as int]));
            assert(out@ + esc_text(s@.subrange(i as int + 1, n as int)) =~= out0 + (esc_char(
                s@[i as int],
            ) + esc_text(s@.subrange(i as int + 1, n as int))));
            assert(esc_char(s@[i as int]) + esc_text(s@.subrange(i as int + 1, n as int))
                =~= esc_text(pre));
        }
        i = i + 1;
    }
    proof {
        assert(esc_text(s@.subrange(n as int, n as int)) =~= Seq::<char>::empty());
        assert(out@ + Seq::<char>::empty() =~= out@);
    }
}

/// Write a document as compact JSON text.
#[verifier::loop_isolation(false)]
pub fn json_to_string(j: &Json) -> (r: String)
    ensures
        r@ == json_text(j@),
    decreases j,
{
    broadcast use crate::json::group_json_view_axioms;

    match j {
        Json::Null => "null".to_owned(),
        Json::Bool(b) => {
            if *b {
                "true".to_owned()
            } else {
                "false".to_owned()
            }
        },
        Json::Int(n) => i64_to_string(*n),
        Json::Num(s) => s.clone(),
        Json::Str(s) => {
            let mut out = String::new();
            push_char(&mut out, '"');
            append_escaped(&mut out, s.as_str());
            push_char(&mut out, '"');
            proof {
                assert(out@ =~= json_text(j@));
            }
            out
        },
        Json::Arr(items) => {
            let ghost iv = view_items(items@);
            let n = items.len();
            proof {
                crate::json::lemma_view_items_len(items@);
            }
            let mut out = String::new();
            push_char(&mut out, '[');
            let mut i: usize = 0;
            while i < n
                invariant
                    0 <= i <= n,
                    n == items@.len(),
                    iv.len() == n,
                    out@ == seq!['['] + items_text(iv.subrange(0, i as int)),
                decreases n - i,
            {
                proof {
                    crate::json::lemma_view_items_index(items@, i as int);
                }
                if i > 0 {
                    push_char(&mut out, ',');
                }
                let t = json_to_string(&items[i]);
                out.append(t.as_str());
                proof {
                    let cur = iv.subrange(0, i as int + 1);
                    assert(cur.drop_last() =~= iv.subrange(0, i as int));
                    assert(cur.last() == iv[i as int]);
                    if i == 0 {
                        assert(out@ =~= seq!['['] + items_text(cur));
                    } else {
                        assert(out@ =~= seq!['['] + items_text(cur));
                    }
                }
                i = i + 1;
            }
            push_char(&mut out, ']');
            proof {
                assert(iv.subrange(0, n as int) =~= iv);
                assert(out@ =~= json_text(j@));
            }
            out
        },
        Json::Obj(fs) => {
            let ghost fv = view_fields(fs@);
            let n = fs.len();
            proof {
                crate::json::lemma_view_fields_len(fs@);
            }
            let mut out = String::new();
            push_char(&mut out, '{');
            let mut i: usize = 0;
            while i < n
                invariant
                    0 <= i <= n,
                    n == fs@.len(),
                    fv.len() == n,
                    out@ == seq!['{'] + fields_text(fv.subrange(0, i as int)),
                decreases n - i,
            {
                proof {
                    crate::json::lemma_view_fields_index(fs@, i as int);
                }
                let ghost out0 = out@;
                if i > 0 {
                    push_char(&mut out, ',');
                }
                push_char(&mut out, '"');
                append_escaped(&mut out, fs[i].0.as_str());
                push_char(&mut out, '"');
                push_char(&mut out, ':');
                let t = json_to_string(&fs[i].1);
                out.append(t.as_str());
                proof {
                    let cur = fv.subrange(0, i as int + 1);
                    assert(cur.drop_last() =~= fv.subrange(0, i as int));
                    assert(cur.last() == fv[i as int]);
                    if i == 0 {
                        assert(out@ =~= out0 + field_text(fv[i as int]));
                    } else {
                        assert(out@ =~= out0 + seq![','] + field_text(fv[i as int]));
                    }
                    assert(out@ =~= seq!['{'] + fields_text(cur));
                }
                i = i + 1;
            }
            push_char(&mut out, '}');
            proof {
                assert(fv.subrange(0, n as int) =~= fv);
                assert(out@ =~= json_text(j@));
            }
            out
        },
    }
}

} // verus!
