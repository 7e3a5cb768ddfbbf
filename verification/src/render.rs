//! Serialization: the stable, human-readable text a document value is
//! written as — two-space indentation, one entry per line — pinned down by
//! a rendering function on the model.

use vstd::prelude::*;
use crate::json::{JsonValue, JsonModel, json_model};
use crate::text::chars_to_string;

verus! {

broadcast use vstd::std_specs::vec::group_vec_axioms, vstd::seq::group_seq_axioms;

/// The lowercase hexadecimal digit character for `d` (below sixteen).
pub open spec fn hex_char(d: nat) -> char {
    if d < 10 {
        ((48 + d) as u8) as char
    } else {
        ((87 + d) as u8) as char
    }
}

/// How one character appears inside a rendered string literal: quote and
/// backslash are escaped, the five short control escapes are used where they
/// exist, other control characters become `\u00` plus two hex digits, and
/// everything else stands verbatim.
pub open spec fn escape_char(c: char) -> Seq<char> {
    if c == '"' {
        seq!['\\', '"']
    } else if c == '\\' {
        seq!['\\', '\\']
    } else if c == '\u{8}' {
        seq!['\\', 'b']
    } else if c == '\u{9}' {
        seq!['\\', 't']
    } else if c == '\u{a}' {
        seq!['\\', 'n']
    } else if c == '\u{c}' {
        seq!['\\', 'f']
    } else if c == '\u{d}' {
        seq!['\\', 'r']
    } else if (c as u32) < 32 {
        seq!['\\', 'u', '0', '0', hex_char((c as u32 / 16) as nat), hex_char((c as u32 % 16) as nat)]
    } else {
        seq![c]
    }
}

/// A whole string's characters, each escaped.
pub open spec fn escaped(s: Seq<char>) -> Seq<char>
    decreases s.len(),
{
    if s.len() == 0 {
        Seq::empty()
    } else {
        escaped(s.drop_last()) + escape_char(s.last())
    }
}

/// The rendered text of a value whose lines are indented by `pad`.
pub open spec fn pretty(m: JsonModel, pad: Seq<char>) -> Seq<char>
    decreases m, 0int,
{
    match m {
        JsonModel::Null => seq!['n', 'u', 'l', 'l'],
        JsonModel::Bool(b) => if b {
            seq!['t', 'r', 'u', 'e']
        } else {
            seq!['f', 'a', 'l', 's', 'e']
        },
        JsonModel::Number(t) => t,
        JsonModel::Str(t) => seq!['"'] + escaped(t) + seq!['"'],
        JsonModel::Array(items) => if items.len() == 0 {
            seq!['[', ']']
        } else {
            seq!['[', '\n'] + pretty_items(items, pad + seq![' ', ' '], items.len() as int)
                + seq!['\n'] + pad + seq![']']
        },
        JsonModel::Object(entries) => if entries.len() == 0 {
            seq!['{', '}']
        } else {
            seq!['{', '\n'] + pretty_entries(entries, pad + seq![' ', ' '], entries.len() as int)
                + seq!['\n'] + pad + seq!['}']
        },
    }
}

/// The first `k` items of an array body, one per line indented by `ipad`,
/// separated by commas.
pub open spec fn pretty_items(items: Seq<JsonModel>, ipad: Seq<char>, k: int) -> Seq<char>
    decreases items, k,
{
    if k <= 0 || k > items.len() {
        Seq::empty()
    } else if k == 1 {
        ipad + pretty(items[0], ipad)
    } else {
        pretty_items(items, ipad, k - 1) + seq![',', '\n'] + ipad + pretty(items[k - 1], ipad)
    }
}

/// The first `k` entries of an object body: quoted escaped key, `: `, value.
pub open spec fn pretty_entries(
    entries: Seq<(Seq<char>, JsonModel)>,
    ipad: Seq<char>,
    k: int,
) -> Seq<char>
    decreases entries, k,
{
    if k <= 0 || k > entries.len() {
        Seq::empty()
    } else if k == 1 {
        ipad + seq!['"'] + escaped(entries[0].0) + seq!['"', ':', ' '] + pretty(entries[0].1, ipad)
    } else {
        pretty_entries(entries, ipad, k - 1) + seq![',', '\n'] + ipad + seq!['"'] + escaped(
            entries[k - 1].0,
        ) + seq!['"', ':', ' '] + pretty(entries[k - 1].1, ipad)
    }
}

/// Appends one escaped character.
fn push_escape_char(c: char, out: &mut Vec<char>)
    ensures
        final(out)@ == old(out)@ + escape_char(c),
{
    if c == '"' {
        out.push('\\');
        out.push('"');
    } else if c == '\\' {
        out.push('\\');
        out.push('\\');
    } else if c == '\u{8}' {
        out.push('\\');
        out.push('b');
    } else if c == '\u{9}' {
        out.push('\\');
        out.push('t');
    } else if c == '\u{a}' {
        out.push('\\');
        out.push('n');
    } else if c == '\u{c}' {
        out.push('\\');
        out.push('f');
    } else if c == '\u{d}' {
        out.push('\\');
        out.push('r');
    } else if (c as u32) < 32 {
        out.push('\\');
        out.push('u');
        out.push('0');
        out.push('0');
        let hi: u32 = (c as u32) / 16;
        let lo: u32 = (c as u32) % 16;
        let hi_digit: u8 = if hi < 10 {
            48 + hi as u8
        } else {
            87 + hi as u8
        };
        let lo_digit: u8 = if lo < 10 {
            48 + lo as u8
        } else {
            87 + lo as u8
        };
        out.push(hi_digit as char);
        out.push(lo_digit as char);
    } else {
        out.push(c);
    }
    proof {
        assert(out@ =~= old(out)@ + escape_char(c));
    }
}

/// Appends a string's characters, each escaped.
fn push_escaped(s: &str, out: &mut Vec<char>)
    ensures
        final(out)@ == old(out)@ + escaped(s@),
{
    let n = s.unicode_len();
    let ghost base = out@;
    let mut i: usize = 0;
    while i < n
        invariant
            i <= n,
            n == s@.len(),
            out@ == base + escaped(s@.subrange(0, i as int)),
        decreases n - i,
    {
        push_escape_char(s.get_char(i), out);
        proof {
            assert(s@.subrange(0, i + 1).drop_last() =~= s@.subrange(0, i as int));
            assert(s@.subrange(0, i + 1).last() == s@[i as int]);
            assert(out@ =~= base + escaped(s@.subrange(0, i + 1)));
        }
        i = i + 1;
    }
    proof {
        assert(s@.subrange(0, n as int) =~= s@);
    }
}

/// Appends a string's characters verbatim.
fn push_verbatim(s: &str, out: &mut Vec<char>)
    ensures
        final(out)@ == old(out)@ + s@,
{
    let n = s.unicode_len();
    let ghost base = out@;
    let mut i: usize = 0;
    while i < n
        invariant
            i <= n,
            n == s@.len(),
            out@ == base + s@.subrange(0, i as int),
        decreases n - i,
    {
        out.push(s.get_char(i));
        proof {
            assert(out@ =~= base + s@.subrange(0, i + 1));
        }
        i = i + 1;
    }
    proof {
        assert(s@.subrange(0, n as int) =~= s@);
    }
}

/// Appends the rendered text of `v`, its lines indented by `pad`.
fn render_value(v: &JsonValue, pad: &Vec<char>, out: &mut Vec<char>)
    ensures
        final(out)@ == old(out)@ + pretty(v@, pad@),
    decreases *v,
{
    let ghost base = out@;
    match v {
        JsonValue::Null => {
            out.push('n');
            out.push('u');
            out.push('l');
            out.push('l');
            proof {
                assert(out@ =~= base + pretty(v@, pad@));
            }
        },
        JsonValue::Bool(b) => {
            if *b {
                out.push('t');
                out.push('r');
                out.push('u');
                out.push('e');
            } else {
                out.push('f');
                out.push('a');
                out.push('l');
                out.push('s');
                out.push('e');
            }
            proof {
                assert(out@ =~= base + pretty(v@, pad@));
            }
        },
        JsonValue::Number(t) => {
            push_verbatim(t.as_str(), out);
            proof {
                assert(out@ =~= base + pretty(v@, pad@));
            }
        },
        JsonValue::Str(t) => {
            out.push('"');
            push_escaped(t.as_str(), out);
            out.push('"');
            proof {
                assert(out@ =~= base + pretty(v@, pad@));
            }
        },
        JsonValue::Array(items) => {
            proof {
                assert(*v == JsonValue::Array(*items));
            }
            let ghost model_items = v@->Array_0;
            let n = items.len();
            if n == 0 {
                out.push('[');
                out.push(']');
                proof {
                    assert(out@ =~= base + pretty(v@, pad@));
                }
                return ;
            }
            let ipad = child_pad(pad);
            out.push('[');
            out.push('\n');
            let ghost body_base = out@;
            let mut i: usize = 0;
            while i < n
                invariant
                    0 < n,
                    i <= n,
                    n == items@.len(),
                    *v == JsonValue::Array(*items),
                    v@ == JsonModel::Array(model_items),
                    model_items.len() == items@.len(),
                    forall|k: int|
                        0 <= k < items@.len() ==> model_items[k] == json_model(items@[k]),
                    ipad@ == pad@ + seq![' ', ' '],
                    out@ == body_base + pretty_items(model_items, ipad@, i as int),
                decreases n - i,
            {
                if i > 0 {
                    out.push(',');
                    out.push('\n');
                }
                push_pad(&ipad, out);
                let ghost before_item = out@;
                proof {
                    assert(v->Array_0 == *items);
                    assert(decreases_to!(*v => v->Array_0));
                    assert(decreases_to!(*items => items@));
                    assert(decreases_to!(items@ => items@[i as int]));
                }
                render_value(&items[i], &ipad, out);
                proof {
                    assert(out@ == before_item + pretty(model_items[i as int], ipad@));
                    if i == 0 {
                        assert(out@ =~= body_base + pretty_items(model_items, ipad@, 1));
                    } else {
                        assert(out@ =~= body_base + pretty_items(model_items, ipad@, i + 1));
                    }
                }
                i = i + 1;
            }
            out.push('\n');
            push_pad(pad, out);
            out.push(']');
            proof {
                assert(out@ =~= base + pretty(v@, pad@));
            }
        },
        JsonValue::Object(entries) => {
            proof {
                assert(*v == JsonValue::Object(*entries));
            }
            let ghost model_entries = v@->Object_0;
            let n = entries.len();
            if n == 0 {
                out.push('{');
                out.push('}');
                proof {
                    assert(out@ =~= base + pretty(v@, pad@));
                }
                return ;
            }
            let ipad = child_pad(pad);
            out.push('{');
            out.push('\n');
            let ghost body_base = out@;
            let mut i: usize = 0;
            while i < n
                invariant
                    0 < n,
                    i <= n,
                    n == entries@.len(),
                    *v == JsonValue::Object(*entries),
                    v@ == JsonModel::Object(model_entries),
                    model_entries.len() == entries@.len(),
                    forall|k: int|
                        0 <= k < entries@.len() ==> model_entries[k] == (
                            entries@[k].0@,
                            json_model(entries@[k].1),
                        ),
                    ipad@ == pad@ + seq![' ', ' '],
                    out@ == body_base + pretty_entries(model_entries, ipad@, i as int),
                decreases n - i,
            {
                if i > 0 {
                    out.push(',');
                    out.push('\n');
                }
                push_pad(&ipad, out);
                out.push('"');
                push_escaped(entries[i].0.as_str(), out);
                out.push('"');
                out.push(':');
                out.push(' ');
                let ghost before_item = out@;
                proof {
                    assert(v->Object_0 == *entries);
                    assert(decreases_to!(*v => v->Object_0));
                    assert(decreases_to!(*entries => entries@));
                    assert(decreases_to!(entries@ => entries@[i as int]));
                    assert(decreases_to!(entries@[i as int] => entries@[i as int].1));
                }
                render_value(&entries[i].1, &ipad, out);
                proof {
                    assert(out@ == before_item + pretty(model_entries[i as int].1, ipad@));
                    if i == 0 {
                        assert(out@ =~= body_base + pretty_entries(model_entries, ipad@, 1));
                    } else {
                        assert(out@ =~= body_base + pretty_entries(model_entries, ipad@, i + 1));
                    }
                }
                i = i + 1;
            }
            out.push('\n');
            push_pad(pad, out);
            out.push('}');
            proof {
                assert(out@ =~= base + pretty(v@, pad@));
            }
        },
    }
}

/// The indentation one level deeper: `pad` plus two spaces.
fn child_pad(pad: &Vec<char>) -> (r: Vec<char>)
    ensures
        r@ == pad@ + seq![' ', ' '],
{
    let n = pad.len();
    let mut r: Vec<char> = Vec::new();
    let mut i: usize = 0;
    while i < n
        invariant
            i <= n,
            n == pad@.len(),
            r@ == pad@.subrange(0, i as int),
        decreases n - i,
    {
        r.push(pad[i]);
        proof {
            assert(r@ =~= pad@.subrange(0, i + 1));
        }
        i = i + 1;
    }
    proof {
        assert(pad@.subrange(0, n as int) =~= pad@);
    }
    r.push(' ');
    r.push(' ');
    proof {
        assert(r@ =~= pad@ + seq![' ', ' ']);
    }
    r
}

/// Appends the indentation itself.
fn push_pad(pad: &Vec<char>, out: &mut Vec<char>)
    ensures
        final(out)@ == old(out)@ + pad@,
{
    let ghost base = out@;
    let n = pad.len();
    let mut i: usize = 0;
    while i < n
        invariant
            i <= n,
            n == pad@.len(),
            out@ == base + pad@.subrange(0, i as int),
        decreases n - i,
    {
        out.push(pad[i]);
        proof {
            assert(out@ =~= base + pad@.subrange(0, i + 1));
        }
        i = i + 1;
    }
    proof {
        assert(pad@.subrange(0, n as int) =~= pad@);
    }
}

/// The rendered text of a whole document value, starting at zero indentation.
pub fn to_pretty_text(v: &JsonValue) -> (r: String)
    ensures
        r@ == pretty(v@, Seq::empty()),
{
    let mut out: Vec<char> = Vec::new();
    let pad: Vec<char> = Vec::new();
    render_value(v, &pad, &mut out);
    chars_to_string(&out)
}

} // verus!
