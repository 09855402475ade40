use vstd::prelude::*;
use vstd::string::StrSliceExecFns;
use vstd::string::StringExecFns;

use crate::strutil::{dec_chars, digit_char, push_dec};

verus! {

/// A JSON document, as the metadata builders assemble it.
///
/// Objects keep their entries in insertion order.
#[verifier::ext_equal]
pub enum JsonValue {
    Null,
    Bool(bool),
    Int(i64),
    Str(String),
    Arr(Vec<JsonValue>),
    Obj(Vec<(String, JsonValue)>),
}

/// The character of a hexadecimal digit.
pub open spec fn hex_char(d: int) -> char {
    if d < 10 {
        digit_char(d)
    } else if d == 10 {
        'a'
    } else if d == 11 {
        'b'
    } else if d == 12 {
        'c'
    } else if d == 13 {
        'd'
    } else if d == 14 {
        'e'
    } else {
        'f'
    }
}

/// How one character is written inside a JSON string: quotes and
/// backslashes escaped, control characters as `\u00..`, everything else
/// as itself.
pub open spec fn escape_char(c: char) -> Seq<char> {
    if c == '"' {
        seq!['\\', '"']
    } else if c == '\\' {
        seq!['\\', '\\']
    } else if (c as int) < 32 {
        seq!['\\', 'u', '0', '0', hex_char(c as int / 16), hex_char(c as int % 16)]
    } else {
        seq![c]
    }
}

/// A string's characters, escaped for a JSON string literal.
pub open spec fn escape_chars(s: Seq<char>) -> Seq<char>
    decreases s.len(),
{
    if s.len() == 0 {
        Seq::empty()
    } else {
        escape_chars(s.drop_last()) + escape_char(s.last())
    }
}

/// The decimal spelling of an integer, minus sign included.
pub open spec fn int_chars(i: int) -> Seq<char> {
    if i < 0 {
        seq!['-'] + dec_chars(-i)
    } else {
        dec_chars(i)
    }
}

/// The text of a JSON value, in compact form: no whitespace, object
/// entries in insertion order.
pub open spec fn json_chars(v: JsonValue) -> Seq<char>
    decreases v,
{
    match v {
        JsonValue::Null => "null"@,
        JsonValue::Bool(b) => if b {
            "true"@
        } else {
            "false"@
        },
        JsonValue::Int(i) => int_chars(i as int),
        JsonValue::Str(s) => seq!['"'] + escape_chars(s@) + seq!['"'],
        JsonValue::Arr(items) => seq!['['] + arr_chars(items@) + seq![']'],
        JsonValue::Obj(entries) => seq!['{'] + obj_chars(entries@) + seq!['}'],
    }
}

/// The comma-separated texts of an array's items.
pub open spec fn arr_chars(items: Seq<JsonValue>) -> Seq<char>
    decreases items,
{
    if items.len() == 0 {
        Seq::empty()
    } else {
        arr_chars(items.drop_last()) + (
        if items.len() > 1 {
            seq![',']
        } else {
            Seq::<char>::empty()
        }) + json_chars(items.last())
    }
}

/// The text of one object entry: quoted key, colon, value.
pub open spec fn entry_chars(e: (String, JsonValue)) -> Seq<char>
    decreases e,
{
    seq!['"'] + escape_chars(e.0@) + seq!['"', ':'] + json_chars(e.1)
}

/// The comma-separated texts of an object's entries.
pub open spec fn obj_chars(entries: Seq<(String, JsonValue)>) -> Seq<char>
    decreases entries,
{
    if entries.len() == 0 {
        Seq::empty()
    } else {
        obj_chars(entries.drop_last()) + (
        if entries.len() > 1 {
            seq![',']
        } else {
            Seq::<char>::empty()
        }) + entry_chars(entries.last())
    }
}

/// Appends one escaped hexadecimal digit.
fn push_hex_digit(out: &mut String, d: u32)
    requires
        d < 16,
    ensures
        final(out)@ == old(out)@ + seq![hex_char(d as int)],
{
    proof {
        reveal_strlit("a");
        reveal_strlit("b");
        reveal_strlit("c");
        reveal_strlit("d");
        reveal_strlit("e");
        reveal_strlit("f");
        reveal_strlit("0");
        reveal_strlit("1");
        reveal_strlit("2");
        reveal_strlit("3");
        reveal_strlit("4");
        reveal_strlit("5");
        reveal_strlit("6");
        reveal_strlit("7");
        reveal_strlit("8");
        reveal_strlit("9");
    }
    if d == 0 {
        out.append("0");
    } else if d == 1 {
        out.append("1");
    } else if d == 2 {
        out.append("2");
    } else if d == 3 {
        out.append("3");
    } else if d == 4 {
        out.append("4");
    } else if d == 5 {
        out.append("5");
    } else if d == 6 {
        out.append("6");
    } else if d == 7 {
        out.append("7");
    } else if d == 8 {
        out.append("8");
    } else if d == 9 {
        out.append("9");
    } else if d == 10 {
        out.append("a");
    } else if d == 11 {
        out.append("b");
    } else if d == 12 {
        out.append("c");
    } else if d == 13 {
        out.append("d");
    } else if d == 14 {
        out.append("e");
    } else {
        out.append("f");
    }
}

/// Appends `s` to `out`, escaped for a JSON string literal.
pub fn push_escaped(out: &mut String, s: &str)
    ensures
        final(out)@ == old(out)@ + escape_chars(s@),
{
    let len = s.unicode_len();
    let mut i: usize = 0;
    proof {
        reveal_strlit("\\\"");
        reveal_strlit("\\\\");
        reveal_strlit("\\u00");
    }
    while i < len
        invariant
            i <= len,
            len == s@.len(),
            out@ == old(out)@ + escape_chars(s@.subrange(0, i as int)),
        decreases len - i,
    {
        proof {
            reveal_strlit("\\\"");
            reveal_strlit("\\\\");
            reveal_strlit("\\u00");
            assert(s@.subrange(0, i as int + 1).drop_last() =~= s@.subrange(0, i as int));
        }
        let c = s.get_char(i);
        let ghost pre = out@;
        if c == '"' {
            out.append("\\\"");
            assert(out@ =~= pre + escape_char(c));
        } else if c == '\\' {
            out.append("\\\\");
            assert(out@ =~= pre + escape_char(c));
        } else if (c as u32) < 32 {
            let code = c as u32;
            out.append("\\u00");
            push_hex_digit(out, code / 16);
            push_hex_digit(out, code % 16);
            assert(out@ =~= pre + escape_char(c));
        } else {
            let piece = s.substring_char(i, i + 1);
            out.append(piece);
            assert(piece@ =~= seq![c]);
            assert(out@ =~= pre + escape_char(c));
        }
        assert(out@ =~= old(out)@ + escape_chars(s@.subrange(0, i as int + 1)));
        i += 1;
    }
    proof {
        assert(s@.subrange(0, len as int) =~= s@);
    }
}

/// Appends the decimal spelling of `i`, minus sign included.
pub fn push_int(out: &mut String, i: i64)
    ensures
        final(out)@ == old(out)@ + int_chars(i as int),
{
    proof {
        reveal_strlit("-");
    }
    if i >= 0 {
        push_dec(out, i as u64);
    } else {
        out.append("-");
        let m: u64 = if i == i64::MIN {
            9223372036854775808u64
        } else {
            (-i) as u64
        };
        push_dec(out, m);
        proof {
            assert(m as int == -(i as int));
            assert(out@ =~= old(out)@ + int_chars(i as int));
        }
    }
}

/// Appends the compact JSON text of `v` to `out`.
pub fn push_json(v: &JsonValue, out: &mut String)
    ensures
        final(out)@ == old(out)@ + json_chars(*v),
    decreases *v,
{
    proof {
        reveal_strlit("null");
        reveal_strlit("true");
        reveal_strlit("false");
        reveal_strlit("\"");
        reveal_strlit("[");
        reveal_strlit("]");
        reveal_strlit("{");
        reveal_strlit("}");
        reveal_strlit(",");
        reveal_strlit(":");
    }
    match v {
        JsonValue::Null => {
            out.append("null");
        },
        JsonValue::Bool(b) => {
            if *b {
                out.append("true");
            } else {
                out.append("false");
            }
        },
        JsonValue::Int(i) => {
            push_int(out, *i);
        },
        JsonValue::Str(s) => {
            out.append("\"");
            push_escaped(out, s.as_str());
            out.append("\"");
            assert(out@ =~= old(out)@ + json_chars(*v));
        },
        JsonValue::Arr(items) => {
            out.append("[");
            let ghost base = out@;
            let ghost iseq = items@;
            let n = items.len();
            let mut j: usize = 0;
            while j < n
                invariant
                    n == iseq.len(),
                    j <= n,
                    iseq == items@,
                    decreases_to!(*v => *items),
                    out@ == base + arr_chars(iseq.subrange(0, j as int)),
                decreases n - j,
            {
                proof {
                    reveal_strlit(",");
                    assert(iseq.subrange(0, j as int + 1).drop_last() =~= iseq.subrange(
                        0,
                        j as int,
                    ));
                }
                if j > 0 {
                    out.append(",");
                }
                proof {
                    assert(decreases_to!(*items => items@));
                    assert(decreases_to!(items@ => items@[j as int]));
                }
                push_json(&items[j], out);
                assert(out@ =~= base + arr_chars(iseq.subrange(0, j as int + 1)));
                j += 1;
            }
            proof {
                assert(iseq.subrange(0, n as int) =~= iseq);
            }
            out.append("]");
            assert(out@ =~= old(out)@ + json_chars(*v));
        },
        JsonValue::Obj(entries) => {
            out.append("{");
            let ghost base = out@;
            let ghost eseq = entries@;
            let n = entries.len();
            let mut j: usize = 0;
            while j < n
                invariant
                    n == eseq.len(),
                    j <= n,
                    eseq == entries@,
                    decreases_to!(*v => *entries),
                    out@ == base + obj_chars(eseq.subrange(0, j as int)),
                decreases n - j,
            {
                proof {
                    reveal_strlit(",");
                    reveal_strlit("\"");
                    reveal_strlit(":");
                    assert(eseq.subrange(0, j as int + 1).drop_last() =~= eseq.subrange(
                        0,
                        j as int,
                    ));
                }
                if j > 0 {
                    out.append(",");
                }
                let ghost pre = out@;
                out.append("\"");
                push_escaped(out, entries[j].0.as_str());
                out.append("\":");
                proof {
                    reveal_strlit("\":");
                    assert(decreases_to!(*entries => entries@));
                    assert(decreases_to!(entries@ => entries@[j as int]));
                    assert(decreases_to!(entries@[j as int] => entries@[j as int].1));
                }
                push_json(&entries[j].1, out);
                proof {
                    let e = eseq[j as int];
                    assert(out@ =~= pre + seq!['"'] + escape_chars(e.0@) + seq!['"', ':']
                        + json_chars(e.1));
                    assert(out@ =~= pre + entry_chars(e));
                    let s1 = eseq.subrange(0, j as int + 1);
                    assert(s1.last() == e);
                    assert(obj_chars(s1) == obj_chars(s1.drop_last()) + (
                    if s1.len() > 1 {
                        seq![',']
                    } else {
                        Seq::<char>::empty()
                    }) + entry_chars(s1.last()));
                    assert(out@ =~= base + obj_chars(s1));
                }
                j += 1;
            }
            proof {
                assert(eseq.subrange(0, n as int) =~= eseq);
            }
            out.append("}");
            assert(out@ =~= old(out)@ + json_chars(*v));
        },
    }
}

/// The compact JSON text of `v`.
pub fn to_json_string(v: &JsonValue) -> (r: String)
    ensures
        r@ == json_chars(*v),
{
    let mut out = String::new();
    push_json(v, &mut out);
    proof {
        assert(out@ =~= json_chars(*v));
    }
    out
}

} // verus!
