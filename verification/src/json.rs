//! JSON values and their compact text form, as the wire's JSON fields carry
//! them: members in the order given, no whitespace, strings escaped the
//! shortest way (quote, backslash, the short control escapes, `\u00xx` for
//! the other control characters).
use vstd::prelude::*;

verus! {

/// A JSON value; numbers keep their text.
#[derive(Debug, PartialEq, Eq)]
pub enum JsonValue {
    Null,
    Bool(bool),
    Num(String),
    Str(String),
    Arr(Vec<JsonValue>),
    Obj(Vec<(String, JsonValue)>),
}

/// View of a JSON value.
pub enum JsonV {
    Null,
    Bool(bool),
    Num(Seq<char>),
    Str(Seq<char>),
    Arr(Seq<JsonV>),
    Obj(Seq<(Seq<char>, JsonV)>),
}

/// The view of a JSON value.
pub open spec fn json_view(j: JsonValue) -> JsonV
    decreases j,
{
    match j {
        JsonValue::Null => JsonV::Null,
        JsonValue::Bool(b) => JsonV::Bool(b),
        JsonValue::Num(t) => JsonV::Num(t@),
        JsonValue::Str(t) => JsonV::Str(t@),
        JsonValue::Arr(v) => JsonV::Arr(
            Seq::new(
                v@.len(),
                |i: int|
                    if 0 <= i < v@.len() {
                        json_view(v@[i])
                    } else {
                        JsonV::Null
                    },
            ),
        ),
        JsonValue::Obj(ms) => JsonV::Obj(
            Seq::new(
                ms@.len(),
                |i: int|
                    if 0 <= i < ms@.len() {
                        (ms@[i].0@, json_view(ms@[i].1))
                    } else {
                        (Seq::empty(), JsonV::Null)
                    },
            ),
        ),
    }
}

impl View for JsonValue {
    type V = JsonV;

    open spec fn view(&self) -> JsonV {
        json_view(*self)
    }
}

/// The lowercase hex digit for `d < 16`.
pub open spec fn hex_digit(d: nat) -> char {
    if d < 10 {
        ((d + 48) as u8) as char
    } else {
        ((d + 87) as u8) as char
    }
}

/// How one character appears inside a JSON string.
pub open spec fn escape_char(c: char) -> Seq<char> {
    if c == '"' {
        seq!['\\', '"']
    } else if c == '\\' {
        seq!['\\', '\\']
    } else if c == '\x08' {
        seq!['\\', 'b']
    } else if c == '\x0c' {
        seq!['\\', 'f']
    } else if c == '\n' {
        seq!['\\', 'n']
    } else if c == '\r' {
        seq!['\\', 'r']
    } else if c == '\t' {
        seq!['\\', 't']
    } else if (c as u32) < 0x20 {
        seq!['\\', 'u', '0', '0', hex_digit((c as u32 / 16) as nat), hex_digit((c as u32 % 16) as nat)]
    } else {
        seq![c]
    }
}

/// A string's characters, escaped.
pub open spec fn escaped(s: Seq<char>) -> Seq<char>
    decreases s.len(),
{
    if s.len() == 0 {
        Seq::empty()
    } else {
        escaped(s.drop_last()) + escape_char(s.last())
    }
}

/// A string in quotes, escaped.
pub open spec fn quoted(s: Seq<char>) -> Seq<char> {
    seq!['"'] + escaped(s) + seq!['"']
}

/// Texts joined with commas.
pub open spec fn join_commas(parts: Seq<Seq<char>>) -> Seq<char>
    decreases parts.len(),
{
    if parts.len() == 0 {
        Seq::empty()
    } else if parts.len() == 1 {
        parts[0]
    } else {
        join_commas(parts.drop_last()) + seq![','] + parts.last()
    }
}

/// The texts of array elements.
pub open spec fn element_texts(v: Seq<JsonV>) -> Seq<Seq<char>>
    decreases v,
{
    Seq::new(
        v.len(),
        |i: int|
            if 0 <= i < v.len() {
                json_text(v[i])
            } else {
                Seq::empty()
            },
    )
}

/// The texts of object members: key, colon, value.
pub open spec fn member_texts(ms: Seq<(Seq<char>, JsonV)>) -> Seq<Seq<char>>
    decreases ms,
{
    Seq::new(
        ms.len(),
        |i: int|
            if 0 <= i < ms.len() {
                quoted(ms[i].0) + seq![':'] + json_text(ms[i].1)
            } else {
                Seq::empty()
            },
    )
}

/// The compact text of a value.
pub open spec fn json_text(j: JsonV) -> Seq<char>
    decreases j,
{
    match j {
        JsonV::Null => seq!['n', 'u', 'l', 'l'],
        JsonV::Bool(b) => if b {
            seq!['t', 'r', 'u', 'e']
        } else {
            seq!['f', 'a', 'l', 's', 'e']
        },
        JsonV::Num(t) => t,
        JsonV::Str(t) => quoted(t),
        JsonV::Arr(v) => seq!['['] + join_commas(element_texts(v)) + seq![']'],
        JsonV::Obj(ms) => seq!['{'] + join_commas(member_texts(ms)) + seq!['}'],
    }
}

/// The lowercase hex digit for `d < 16`.
fn hex_digit_exec(d: u32) -> (r: char)
    requires
        d < 16,
    ensures
        r == hex_digit(d as nat),
{
    if d < 10 {
        ((d + 48) as u8) as char
    } else {
        ((d + 87) as u8) as char
    }
}

/// Appends a character's escaped form.
fn push_escaped_char(out: &mut String, c: char)
    ensures
        final(out)@ == old(out)@ + escape_char(c),
{
    let ghost before = out@;
    if c == '"' {
        out.push('\\');
        out.push('"');
    } else if c == '\\' {
        out.push('\\');
        out.push('\\');
    } else if c == '\x08' {
        out.push('\\');
        out.push('b');
    } else if c == '\x0c' {
        out.push('\\');
        out.push('f');
    } else if c == '\n' {
        out.push('\\');
        out.push('n');
    } else if c == '\r' {
        out.push('\\');
        out.push('r');
    } else if c == '\t' {
        out.push('\\');
        out.push('t');
    } else if (c as u32) < 0x20 {
        let v = c as u32;
        out.push('\\');
        out.push('u');
        out.push('0');
        out.push('0');
        out.push(hex_digit_exec(v / 16));
        out.push(hex_digit_exec(v % 16));
    } else {
        out.push(c);
    }
    assert(out@ =~= before + escape_char(c));
}

/// The characters of a string slice.
pub fn chars_of(s: &str) -> (r: Vec<char>)
    ensures
        r@ == s@,
{
    let n = s.unicode_len();
    let mut v: Vec<char> = Vec::new();
    let mut i: usize = 0;
    while i < n
        invariant
            n == s@.len(),
            i <= n,
            v@ == s@.take(i as int),
        decreases n - i,
    {
        v.push(s.get_char(i));
        assert(v@ =~= s@.take(i + 1));
        i = i + 1;
    }
    assert(s@.take(n as int) =~= s@);
    v
}

/// Appends a string in quotes, escaped.
fn push_quoted(out: &mut String, s: &str)
    ensures
        final(out)@ == old(out)@ + quoted(s@),
{
    let ghost before = out@;
    let cs = chars_of(s);
    out.push('"');
    let mut i: usize = 0;
    while i < cs.len()
        invariant
            i <= cs@.len(),
            cs@ == s@,
            out@ == before + seq!['"'] + escaped(s@.take(i as int)),
        decreases cs@.len() - i,
    {
        let ghost mid = out@;
        push_escaped_char(out, cs[i]);
        assert(s@.take(i + 1).drop_last() =~= s@.take(i as int));
        assert(out@ =~= before + seq!['"'] + escaped(s@.take(i + 1)));
        i = i + 1;
    }
    assert(s@.take(cs@.len() as int) =~= s@);
    out.push('"');
    assert(out@ =~= before + quoted(s@));
}

/// Appends the compact text of a value.
pub fn write_json(out: &mut String, j: &JsonValue)
    ensures
        final(out)@ == old(out)@ + json_text(j@),
    decreases j,
{
    let ghost before = out@;
    match j {
        JsonValue::Null => {
            out.push('n');
            out.push('u');
            out.push('l');
            out.push('l');
            assert(out@ =~= before + seq!['n', 'u', 'l', 'l']);
        },
        JsonValue::Bool(b) => {
            if *b {
                out.push('t');
                out.push('r');
                out.push('u');
                out.push('e');
                assert(out@ =~= before + seq!['t', 'r', 'u', 'e']);
            } else {
                out.push('f');
                out.push('a');
                out.push('l');
                out.push('s');
                out.push('e');
                assert(out@ =~= before + seq!['f', 'a', 'l', 's', 'e']);
            }
        },
        JsonValue::Num(t) => {
            out.append(t.as_str());
            assert(out@ == before + json_text(j@));
        },
        JsonValue::Str(t) => {
            push_quoted(out, t.as_str());
            assert(out@ == before + json_text(j@));
        },
        JsonValue::Arr(v) => {
            let ghost parts = Seq::new(
                v@.len(),
                |i: int|
                    if 0 <= i < v@.len() {
                        json_text(json_view(v@[i]))
                    } else {
                        Seq::empty()
                    },
            );
            out.push('[');
            let mut i: usize = 0;
            while i < v.len()
                invariant
                    i <= v@.len(),
                    parts.len() == v@.len(),
                    forall|k: int| 0 <= k < v@.len() ==> #[trigger] parts[k] == json_text(json_view(v@[k])),
                    out@ == before + seq!['['] + join_commas(parts.take(i as int)),
                    *j == JsonValue::Arr(*v),
                decreases v@.len() - i,
            {
                proof {
                    assert(decreases_to!(*j => (*j)->Arr_0));
                    assert(decreases_to!(*v => v@));
                    assert(decreases_to!(v@ => v@[i as int]));
                }
                let ghost mid = out@;
                if i > 0 {
                    out.push(',');
                }
                write_json(out, &v[i]);
                proof {
                    let t = parts.take(i + 1);
                    assert(t.drop_last() =~= parts.take(i as int));
                    assert(t.last() == json_text(json_view(v@[i as int])));
                    if i == 0 {
                        assert(join_commas(t) == t[0]);
                        assert(out@ =~= before + seq!['['] + join_commas(t));
                    } else {
                        assert(out@ =~= before + seq!['['] + join_commas(t));
                    }
                }
                i = i + 1;
            }
            out.push(']');
            assert(parts.take(v@.len() as int) =~= parts);
            proof {
                let jv = j@;
                let vv = jv->Arr_0;
                assert(vv.len() == v@.len());
                assert(element_texts(vv) =~= parts);
                assert(out@ =~= before + json_text(j@));
            }
        },
        JsonValue::Obj(ms) => {
            let ghost parts = Seq::new(
                ms@.len(),
                |i: int|
                    if 0 <= i < ms@.len() {
                        quoted(ms@[i].0@) + seq![':'] + json_text(json_view(ms@[i].1))
                    } else {
                        Seq::empty()
                    },
            );
            out.push('{');
            let mut i: usize = 0;
            while i < ms.len()
                invariant
                    i <= ms@.len(),
                    parts.len() == ms@.len(),
                    forall|k: int| 0 <= k < ms@.len() ==> #[trigger] parts[k] == quoted(ms@[k].0@) + seq![':'] + json_text(json_view(ms@[k].1)),
                    out@ == before + seq!['{'] + join_commas(parts.take(i as int)),
                    *j == JsonValue::Obj(*ms),
                decreases ms@.len() - i,
            {
                proof {
                    assert(decreases_to!(*j => (*j)->Obj_0));
                    assert(decreases_to!(*ms => ms@));
                    assert(decreases_to!(ms@ => ms@[i as int]));
                    assert(decreases_to!(ms@[i as int] => ms@[i as int].1));
                }
                let ghost mid = out@;
                if i > 0 {
                    out.push(',');
                }
                let ghost mid2 = out@;
                push_quoted(out, ms[i].0.as_str());
                out.push(':');
                write_json(out, &ms[i].1);
                proof {
                    let t = parts.take(i + 1);
                    assert(t.drop_last() =~= parts.take(i as int));
                    assert(t.last() == quoted(ms@[i as int].0@) + seq![':'] + json_text(json_view(ms@[i as int].1)));
                    assert(out@ =~= mid2 + t.last());
                    if i == 0 {
                        assert(join_commas(t) == t[0]);
                        assert(out@ =~= before + seq!['{'] + join_commas(t));
                    } else {
                        assert(out@ =~= before + seq!['{'] + join_commas(t));
                    }
                }
                i = i + 1;
            }
            out.push('}');
            assert(parts.take(ms@.len() as int) =~= parts);
            proof {
                let jv = j@;
                let mv = jv->Obj_0;
                assert(mv.len() == ms@.len());
                assert(member_texts(mv) =~= parts);
                assert(out@ =~= before + json_text(j@));
            }
        },
    }
}

/// JSON whitespace.
pub open spec fn is_ws(c: char) -> bool {
    c == ' ' || c == '\t' || c == '\n' || c == '\r'
}

/// Position of the first non-whitespace character at or after `i`.
pub open spec fn skip_ws(s: Seq<char>, i: int) -> int
    decreases s.len() - i,
{
    if 0 <= i < s.len() && is_ws(s[i]) {
        skip_ws(s, i + 1)
    } else {
        i
    }
}

/// An ASCII digit.
pub open spec fn is_digit(c: char) -> bool {
    '0' <= c && c <= '9'
}

/// Position of the first non-digit at or after `i`.
pub open spec fn digits_end(s: Seq<char>, i: int) -> int
    decreases s.len() - i,
{
    if 0 <= i < s.len() && is_digit(s[i]) {
        digits_end(s, i + 1)
    } else {
        i
    }
}

/// End of the number starting at `i`: an optional minus, `0` or digits not
/// starting with `0`, an optional fraction, an optional exponent.
pub open spec fn number_end(s: Seq<char>, i: int) -> Option<int> {
    let j = if 0 <= i < s.len() && s[i] == '-' {
        i + 1
    } else {
        i
    };
    if !(0 <= j < s.len() && is_digit(s[j])) {
        None
    } else {
        let k = if s[j] == '0' {
            j + 1
        } else {
            digits_end(s, j + 1)
        };
        let k2 = if k < s.len() && s[k] == '.' {
            if k + 1 < s.len() && is_digit(s[k + 1]) {
                Some(digits_end(s, k + 1))
            } else {
                None
            }
        } else {
            Some(k)
        };
        match k2 {
            None => None,
            Some(k2) => if k2 < s.len() && (s[k2] == 'e' || s[k2] == 'E') {
                let m = if k2 + 1 < s.len() && (s[k2 + 1] == '+' || s[k2 + 1] == '-') {
                    k2 + 2
                } else {
                    k2 + 1
                };
                if m < s.len() && is_digit(s[m]) {
                    Some(digits_end(s, m))
                } else {
                    None
                }
            } else {
                Some(k2)
            },
        }
    }
}

/// Value of a hex digit.
pub open spec fn hex_val(c: char) -> Option<nat> {
    if '0' <= c && c <= '9' {
        Some((c as nat - 48) as nat)
    } else if 'a' <= c && c <= 'f' {
        Some((c as nat - 87) as nat)
    } else if 'A' <= c && c <= 'F' {
        Some((c as nat - 55) as nat)
    } else {
        None
    }
}

/// Value of the four hex digits at `i`.
pub open spec fn hex4(s: Seq<char>, i: int) -> Option<nat> {
    if 0 <= i && i + 4 <= s.len() {
        match (hex_val(s[i]), hex_val(s[i + 1]), hex_val(s[i + 2]), hex_val(s[i + 3])) {
            (Some(a), Some(b), Some(c), Some(d)) => Some(a * 4096 + b * 256 + c * 16 + d),
            _ => None,
        }
    } else {
        None
    }
}

/// The character of a short escape (`\x`), if `x` is one.
pub open spec fn short_escape(e: char) -> Option<char> {
    if e == '"' {
        Some('"')
    } else if e == '\\' {
        Some('\\')
    } else if e == '/' {
        Some('/')
    } else if e == 'b' {
        Some('\x08')
    } else if e == 'f' {
        Some('\x0c')
    } else if e == 'n' {
        Some('\n')
    } else if e == 'r' {
        Some('\r')
    } else if e == 't' {
        Some('\t')
    } else {
        None
    }
}

/// The rest of a string from `i` (after the opening quote, `acc` read so
/// far): its characters and the position after the closing quote. Escapes
/// are the short ones and `\uXXXX`, a high surrogate only followed by an
/// escaped low one; raw control characters are refused.
pub open spec fn string_end(s: Seq<char>, i: int, acc: Seq<char>) -> Option<(Seq<char>, int)>
    decreases s.len() - i,
{
    if i < 0 || i >= s.len() {
        None
    } else if s[i] == '"' {
        Some((acc, i + 1))
    } else if s[i] == '\\' {
        if i + 1 >= s.len() {
            None
        } else if short_escape(s[i + 1]) is Some {
            string_end(s, i + 2, acc.push(short_escape(s[i + 1])->0))
        } else if s[i + 1] == 'u' {
            match hex4(s, i + 2) {
                None => None,
                Some(h) => if 0xD800 <= h < 0xDC00 {
                    if i + 7 < s.len() && s[i + 6] == '\\' && s[i + 7] == 'u' {
                        match hex4(s, i + 8) {
                            Some(l) => if 0xDC00 <= l < 0xE000 {
                                string_end(s, i + 12, acc.push((0x10000 + (h - 0xD800) * 1024 + (l - 0xDC00)) as char))
                            } else {
                                None
                            },
                            None => None,
                        }
                    } else {
                        None
                    }
                } else if 0xDC00 <= h < 0xE000 {
                    None
                } else {
                    string_end(s, i + 6, acc.push(h as char))
                },
            }
        } else {
            None
        }
    } else if (s[i] as u32) < 0x20 {
        None
    } else {
        string_end(s, i + 1, acc.push(s[i]))
    }
}

/// `lit` appears at `i`.
pub open spec fn has_lit(s: Seq<char>, i: int, lit: Seq<char>) -> bool {
    0 <= i && i + lit.len() <= s.len() && s.subrange(i, i + lit.len()) == lit
}

/// The value at `i` (after whitespace) and the position after it; `d` is
/// how many more arrays or objects may open.
pub open spec fn parse_value(s: Seq<char>, i: int, d: nat) -> Option<(JsonV, int)>
    decreases d, 0nat, 0int,
{
    let j = skip_ws(s, i);
    if j < 0 || j >= s.len() {
        None
    } else {
        let c = s[j];
        if c == 'n' {
            if has_lit(s, j, seq!['n', 'u', 'l', 'l']) {
                Some((JsonV::Null, j + 4))
            } else {
                None
            }
        } else if c == 't' {
            if has_lit(s, j, seq!['t', 'r', 'u', 'e']) {
                Some((JsonV::Bool(true), j + 4))
            } else {
                None
            }
        } else if c == 'f' {
            if has_lit(s, j, seq!['f', 'a', 'l', 's', 'e']) {
                Some((JsonV::Bool(false), j + 5))
            } else {
                None
            }
        } else if c == '"' {
            match string_end(s, j + 1, Seq::empty()) {
                Some((t, k)) => Some((JsonV::Str(t), k)),
                None => None,
            }
        } else if c == '[' {
            if d == 0 {
                None
            } else {
                array_rest(s, j + 1, (d - 1) as nat)
            }
        } else if c == '{' {
            if d == 0 {
                None
            } else {
                object_rest(s, j + 1, (d - 1) as nat)
            }
        } else if c == '-' || is_digit(c) {
            match number_end(s, j) {
                Some(k) => Some((JsonV::Num(s.subrange(j, k)), k)),
                None => None,
            }
        } else {
            None
        }
    }
}

/// An array after its `[`.
pub open spec fn array_rest(s: Seq<char>, i: int, d: nat) -> Option<(JsonV, int)>
    decreases d, 2nat, 0int,
{
    let j = skip_ws(s, i);
    if 0 <= j < s.len() && s[j] == ']' {
        Some((JsonV::Arr(Seq::empty()), j + 1))
    } else {
        array_items(s, i, d, Seq::empty())
    }
}

/// Array elements from `i`, `acc` read so far.
pub open spec fn array_items(s: Seq<char>, i: int, d: nat, acc: Seq<JsonV>) -> Option<(JsonV, int)>
    decreases d, 1nat, s.len() - i,
{
    match parse_value(s, i, d) {
        None => None,
        Some((v, k)) => {
            let k2 = skip_ws(s, k);
            if 0 <= k2 < s.len() && s[k2] == ',' {
                if i < k2 + 1 <= s.len() {
                    array_items(s, k2 + 1, d, acc.push(v))
                } else {
                    None
                }
            } else if 0 <= k2 < s.len() && s[k2] == ']' {
                Some((JsonV::Arr(acc.push(v)), k2 + 1))
            } else {
                None
            }
        },
    }
}

/// An object after its `{`.
pub open spec fn object_rest(s: Seq<char>, i: int, d: nat) -> Option<(JsonV, int)>
    decreases d, 2nat, 0int,
{
    let j = skip_ws(s, i);
    if 0 <= j < s.len() && s[j] == '}' {
        Some((JsonV::Obj(Seq::empty()), j + 1))
    } else {
        object_members(s, i, d, Seq::empty())
    }
}

/// Object members from `i`, `acc` read so far.
pub open spec fn object_members(s: Seq<char>, i: int, d: nat, acc: Seq<(Seq<char>, JsonV)>) -> Option<(JsonV, int)>
    decreases d, 1nat, s.len() - i,
{
    let j = skip_ws(s, i);
    if !(0 <= j < s.len() && s[j] == '"') {
        None
    } else {
        match string_end(s, j + 1, Seq::empty()) {
            None => None,
            Some((key, k)) => {
                let k1 = skip_ws(s, k);
                if !(0 <= k1 < s.len() && s[k1] == ':') {
                    None
                } else {
                    match parse_value(s, k1 + 1, d) {
                        None => None,
                        Some((v, k2)) => {
                            let k3 = skip_ws(s, k2);
                            if 0 <= k3 < s.len() && s[k3] == ',' {
                                if i < k3 + 1 <= s.len() {
                                    object_members(s, k3 + 1, d, acc.push((key, v)))
                                } else {
                                    None
                                }
                            } else if 0 <= k3 < s.len() && s[k3] == '}' {
                                Some((JsonV::Obj(acc.push((key, v))), k3 + 1))
                            } else {
                                None
                            }
                        },
                    }
                }
            },
        }
    }
}

/// How deeply arrays and objects may nest.
pub const MAX_DEPTH: u64 = 128;

/// The value a whole text holds: one value, with only whitespace around it.
pub open spec fn parse_json(s: Seq<char>) -> Option<JsonV> {
    match parse_value(s, 0, MAX_DEPTH as nat) {
        Some((v, k)) => if skip_ws(s, k) == s.len() {
            Some(v)
        } else {
            None
        },
        None => None,
    }
}

/// The view of an array value is the views of its elements.
pub proof fn lemma_arr_view(v: Vec<JsonValue>)
    ensures
        JsonValue::Arr(v)@ == JsonV::Arr(v@.map_values(|x: JsonValue| x@)),
{
    let a = JsonValue::Arr(v)@;
    assert(a->Arr_0 =~= v@.map_values(|x: JsonValue| x@));
}

/// The view of an object value is its keys' characters with the views of its values.
pub proof fn lemma_obj_view(ms: Vec<(String, JsonValue)>)
    ensures
        JsonValue::Obj(ms)@ == JsonV::Obj(ms@.map_values(|m: (String, JsonValue)| (m.0@, m.1@))),
{
    let a = JsonValue::Obj(ms)@;
    assert(a->Obj_0 =~= ms@.map_values(|m: (String, JsonValue)| (m.0@, m.1@)));
}

fn skip_ws_exec(cs: &Vec<char>, i: usize) -> (r: usize)
    requires
        i <= cs@.len(),
    ensures
        r as int == skip_ws(cs@, i as int),
        i <= r <= cs@.len(),
{
    let mut j = i;
    while j < cs.len() && (cs[j] == ' ' || cs[j] == '\t' || cs[j] == '\n' || cs[j] == '\r')
        invariant
            i <= j <= cs@.len(),
            skip_ws(cs@, i as int) == skip_ws(cs@, j as int),
        decreases cs@.len() - j,
    {
        j = j + 1;
    }
    j
}

fn digits_end_exec(cs: &Vec<char>, i: usize) -> (r: usize)
    requires
        i <= cs@.len(),
    ensures
        r as int == digits_end(cs@, i as int),
        i <= r <= cs@.len(),
{
    let mut j = i;
    while j < cs.len() && '0' <= cs[j] && cs[j] <= '9'
        invariant
            i <= j <= cs@.len(),
            digits_end(cs@, i as int) == digits_end(cs@, j as int),
        decreases cs@.len() - j,
    {
        j = j + 1;
    }
    j
}

fn number_end_exec(cs: &Vec<char>, i: usize) -> (r: Option<usize>)
    requires
        i < cs@.len(),
    ensures
        match r {
            Some(k) => number_end(cs@, i as int) == Some(k as int) && i < k <= cs@.len(),
            None => number_end(cs@, i as int) is None,
        },
{
    let n = cs.len();
    let j = if cs[i] == '-' {
        i + 1
    } else {
        i
    };
    if !(j < n && '0' <= cs[j] && cs[j] <= '9') {
        return None;
    }
    let k = if cs[j] == '0' {
        j + 1
    } else {
        digits_end_exec(cs, j + 1)
    };
    let k2 = if k < n && cs[k] == '.' {
        if k + 1 < n && '0' <= cs[k + 1] && cs[k + 1] <= '9' {
            digits_end_exec(cs, k + 1)
        } else {
            return None;
        }
    } else {
        k
    };
    if k2 < n && (cs[k2] == 'e' || cs[k2] == 'E') {
        let m = if k2 + 1 < n && (cs[k2 + 1] == '+' || cs[k2 + 1] == '-') {
            k2 + 2
        } else {
            k2 + 1
        };
        if m < n && '0' <= cs[m] && cs[m] <= '9' {
            Some(digits_end_exec(cs, m))
        } else {
            None
        }
    } else {
        Some(k2)
    }
}

fn hex_val_exec(c: char) -> (r: Option<u32>)
    ensures
        match r {
            Some(v) => hex_val(c) == Some(v as nat) && v < 16,
            None => hex_val(c) is None,
        },
{
    let v = c as u32;
    if '0' <= c && c <= '9' {
        Some(v - 48)
    } else if 'a' <= c && c <= 'f' {
        Some(v - 87)
    } else if 'A' <= c && c <= 'F' {
        Some(v - 55)
    } else {
        None
    }
}

fn hex4_exec(cs: &Vec<char>, i: usize) -> (r: Option<u32>)
    ensures
        match r {
            Some(v) => hex4(cs@, i as int) == Some(v as nat) && v < 0x10000,
            None => hex4(cs@, i as int) is None,
        },
{
    if i > cs.len() || cs.len() - i < 4 {
        return None;
    }
    match (hex_val_exec(cs[i]), hex_val_exec(cs[i + 1]), hex_val_exec(cs[i + 2]), hex_val_exec(cs[i + 3])) {
        (Some(a), Some(b), Some(c), Some(d)) => Some(a * 4096 + b * 256 + c * 16 + d),
        _ => None,
    }
}

fn string_end_exec(cs: &Vec<char>, start: usize) -> (r: Option<(String, usize)>)
    requires
        start <= cs@.len(),
    ensures
        match r {
            Some((t, k)) => string_end(cs@, start as int, Seq::empty()) == Some((t@, k as int)) && start < k <= cs@.len(),
            None => string_end(cs@, start as int, Seq::empty()) is None,
        },
{
    let n = cs.len();
    let mut acc = String::new();
    let mut i = start;
    loop
        invariant
            n == cs@.len(),
            start <= i <= n,
            string_end(cs@, start as int, Seq::empty()) == string_end(cs@, i as int, acc@),
        decreases n - i,
    {
        if i >= n {
            return None;
        }
        let c = cs[i];
        if c == '"' {
            return Some((acc, i + 1));
        } else if c == '\\' {
            if i + 1 >= n {
                return None;
            }
            let e = cs[i + 1];
            let short: Option<char> = if e == '"' {
                Some('"')
            } else if e == '\\' {
                Some('\\')
            } else if e == '/' {
                Some('/')
            } else if e == 'b' {
                Some('\x08')
            } else if e == 'f' {
                Some('\x0c')
            } else if e == 'n' {
                Some('\n')
            } else if e == 'r' {
                Some('\r')
            } else if e == 't' {
                Some('\t')
            } else {
                None
            };
            assert(short == short_escape(e));
            if let Some(x) = short {
                acc.push(x);
                i = i + 2;
            } else if e == 'u' {
                match hex4_exec(cs, i + 2) {
                    None => {
                        return None;
                    },
                    Some(h) => {
                        if 0xD800 <= h && h < 0xDC00 {
                            if n - i > 7 && cs[i + 6] == '\\' && cs[i + 7] == 'u' {
                                match hex4_exec(cs, i + 8) {
                                    Some(l) => {
                                        if 0xDC00 <= l && l < 0xE000 {
                                            let code = 0x10000 + (h - 0xD800) * 1024 + (l - 0xDC00);
                                            match std::char::from_u32(code) {
                                                Some(ch) => {
                                                    acc.push(ch);
                                                },
                                                None => {
                                                    return None;
                                                },
                                            }
                                            i = i + 12;
                                        } else {
                                            return None;
                                        }
                                    },
                                    None => {
                                        return None;
                                    },
                                }
                            } else {
                                return None;
                            }
                        } else if 0xDC00 <= h && h < 0xE000 {
                            return None;
                        } else {
                            match std::char::from_u32(h) {
                                Some(ch) => {
                                    acc.push(ch);
                                },
                                None => {
                                    return None;
                                },
                            }
                            i = i + 6;
                        }
                    },
                }
            } else {
                return None;
            }
        } else if (c as u32) < 0x20 {
            return None;
        } else {
            acc.push(c);
            i = i + 1;
        }
    }
}

/// Whether `lit` appears at `i`.
fn has_lit_exec(cs: &Vec<char>, i: usize, lit: &[char]) -> (r: bool)
    requires
        i <= cs@.len(),
    ensures
        r == has_lit(cs@, i as int, lit@),
{
    let n = cs.len();
    if n - i < lit.len() {
        return false;
    }
    let mut k: usize = 0;
    while k < lit.len()
        invariant
            n == cs@.len(),
            i + lit@.len() <= cs@.len(),
            k <= lit@.len(),
            forall|m: int| 0 <= m < k ==> cs@[i + m] == lit@[m],
        decreases lit@.len() - k,
    {
        if cs[i + k] != lit[k] {
            assert(cs@.subrange(i as int, i + lit@.len())[k as int] != lit@[k as int]);
            return false;
        }
        k = k + 1;
    }
    assert(cs@.subrange(i as int, i + lit@.len()) =~= lit@);
    true
}

/// The characters `start..end` as a string.
fn substring(cs: &Vec<char>, start: usize, end: usize) -> (r: String)
    requires
        start <= end <= cs@.len(),
    ensures
        r@ == cs@.subrange(start as int, end as int),
{
    let mut t = String::new();
    let mut i = start;
    while i < end
        invariant
            start <= i <= end <= cs@.len(),
            t@ == cs@.subrange(start as int, i as int),
        decreases end - i,
    {
        t.push(cs[i]);
        assert(t@ =~= cs@.subrange(start as int, i + 1));
        i = i + 1;
    }
    t
}

fn parse_value_exec(cs: &Vec<char>, i: usize, d: u64) -> (r: Option<(JsonValue, usize)>)
    requires
        i <= cs@.len(),
    ensures
        match r {
            Some((v, k)) => parse_value(cs@, i as int, d as nat) == Some((v@, k as int)) && i < k <= cs@.len(),
            None => parse_value(cs@, i as int, d as nat) is None,
        },
    decreases d, 0nat, 0int,
{
    let j = skip_ws_exec(cs, i);
    if j >= cs.len() {
        return None;
    }
    let c = cs[j];
    if c == 'n' {
        let lit = ['n', 'u', 'l', 'l'];
        assert(lit@ == seq!['n', 'u', 'l', 'l']);
        if has_lit_exec(cs, j, &lit) {
            Some((JsonValue::Null, j + 4))
        } else {
            None
        }
    } else if c == 't' {
        let lit = ['t', 'r', 'u', 'e'];
        assert(lit@ == seq!['t', 'r', 'u', 'e']);
        if has_lit_exec(cs, j, &lit) {
            Some((JsonValue::Bool(true), j + 4))
        } else {
            None
        }
    } else if c == 'f' {
        let lit = ['f', 'a', 'l', 's', 'e'];
        assert(lit@ == seq!['f', 'a', 'l', 's', 'e']);
        if has_lit_exec(cs, j, &lit) {
            Some((JsonValue::Bool(false), j + 5))
        } else {
            None
        }
    } else if c == '"' {
        match string_end_exec(cs, j + 1) {
            Some((t, k)) => Some((JsonValue::Str(t), k)),
            None => None,
        }
    } else if c == '[' {
        if d == 0 {
            None
        } else {
            array_rest_exec(cs, j + 1, d - 1)
        }
    } else if c == '{' {
        if d == 0 {
            None
        } else {
            object_rest_exec(cs, j + 1, d - 1)
        }
    } else if c == '-' || ('0' <= c && c <= '9') {
        match number_end_exec(cs, j) {
            Some(k) => Some((JsonValue::Num(substring(cs, j, k)), k)),
            None => None,
        }
    } else {
        None
    }
}

fn array_rest_exec(cs: &Vec<char>, start: usize, d: u64) -> (r: Option<(JsonValue, usize)>)
    requires
        start <= cs@.len(),
    ensures
        match r {
            Some((v, k)) => array_rest(cs@, start as int, d as nat) == Some((v@, k as int)) && start < k <= cs@.len(),
            None => array_rest(cs@, start as int, d as nat) is None,
        },
    decreases d, 2nat, 0int,
{
    let j = skip_ws_exec(cs, start);
    if j < cs.len() && cs[j] == ']' {
        let v: Vec<JsonValue> = Vec::new();
        proof {
            lemma_arr_view(v);
            assert(v@.map_values(|x: JsonValue| x@) =~= Seq::<JsonV>::empty());
        }
        return Some((JsonValue::Arr(v), j + 1));
    }
    let mut acc: Vec<JsonValue> = Vec::new();
    let mut i = start;
    assert(acc@.map_values(|x: JsonValue| x@) =~= Seq::<JsonV>::empty());
    loop
        invariant
            start <= i <= cs@.len(),
            array_rest(cs@, start as int, d as nat) == array_items(cs@, i as int, d as nat, acc@.map_values(|x: JsonValue| x@)),
        decreases cs@.len() - i,
    {
        let ghost av = acc@.map_values(|x: JsonValue| x@);
        match parse_value_exec(cs, i, d) {
            None => {
                return None;
            },
            Some((v, k)) => {
                let k2 = skip_ws_exec(cs, k);
                if k2 < cs.len() && cs[k2] == ',' {
                    acc.push(v);
                    assert(acc@.map_values(|x: JsonValue| x@) =~= av.push(v@));
                    i = k2 + 1;
                } else if k2 < cs.len() && cs[k2] == ']' {
                    acc.push(v);
                    assert(acc@.map_values(|x: JsonValue| x@) =~= av.push(v@));
                    proof {
                        lemma_arr_view(acc);
                    }
                    return Some((JsonValue::Arr(acc), k2 + 1));
                } else {
                    return None;
                }
            },
        }
    }
}

fn object_rest_exec(cs: &Vec<char>, start: usize, d: u64) -> (r: Option<(JsonValue, usize)>)
    requires
        start <= cs@.len(),
    ensures
        match r {
            Some((v, k)) => object_rest(cs@, start as int, d as nat) == Some((v@, k as int)) && start < k <= cs@.len(),
            None => object_rest(cs@, start as int, d as nat) is None,
        },
    decreases d, 2nat, 0int,
{
    let j = skip_ws_exec(cs, start);
    if j < cs.len() && cs[j] == '}' {
        let ms: Vec<(String, JsonValue)> = Vec::new();
        proof {
            lemma_obj_view(ms);
            assert(ms@.map_values(|m: (String, JsonValue)| (m.0@, m.1@)) =~= Seq::<(Seq<char>, JsonV)>::empty());
        }
        return Some((JsonValue::Obj(ms), j + 1));
    }
    let mut acc: Vec<(String, JsonValue)> = Vec::new();
    let mut i = start;
    assert(acc@.map_values(|m: (String, JsonValue)| (m.0@, m.1@)) =~= Seq::<(Seq<char>, JsonV)>::empty());
    loop
        invariant
            start <= i <= cs@.len(),
            object_rest(cs@, start as int, d as nat) == object_members(
                cs@,
                i as int,
                d as nat,
                acc@.map_values(|m: (String, JsonValue)| (m.0@, m.1@)),
            ),
        decreases cs@.len() - i,
    {
        let ghost av = acc@.map_values(|m: (String, JsonValue)| (m.0@, m.1@));
        let j = skip_ws_exec(cs, i);
        if !(j < cs.len() && cs[j] == '"') {
            return None;
        }
        let (key, k) = match string_end_exec(cs, j + 1) {
            None => {
                return None;
            },
            Some(p) => p,
        };
        let k1 = skip_ws_exec(cs, k);
        if !(k1 < cs.len() && cs[k1] == ':') {
            return None;
        }
        let (v, k2) = match parse_value_exec(cs, k1 + 1, d) {
            None => {
                return None;
            },
            Some(p) => p,
        };
        let k3 = skip_ws_exec(cs, k2);
        if k3 < cs.len() && cs[k3] == ',' {
            let ghost kv = key@;
            acc.push((key, v));
            assert(acc@.map_values(|m: (String, JsonValue)| (m.0@, m.1@)) =~= av.push((kv, v@)));
            i = k3 + 1;
        } else if k3 < cs.len() && cs[k3] == '}' {
            let ghost kv = key@;
            acc.push((key, v));
            assert(acc@.map_values(|m: (String, JsonValue)| (m.0@, m.1@)) =~= av.push((kv, v@)));
            proof {
                lemma_obj_view(acc);
            }
            return Some((JsonValue::Obj(acc), k3 + 1));
        } else {
            return None;
        }
    }
}

/// Parses a whole JSON text (see `parse_json`).
pub fn parse_json_text(text: &str) -> (r: Option<JsonValue>)
    ensures
        match r {
            Some(v) => parse_json(text@) == Some(v@),
            None => parse_json(text@) is None,
        },
{
    let cs = chars_of(text);
    match parse_value_exec(&cs, 0, MAX_DEPTH) {
        Some((v, k)) => {
            let e = skip_ws_exec(&cs, k);
            if e == cs.len() {
                Some(v)
            } else {
                None
            }
        },
        None => None,
    }
}

/// Value of a string of decimal digits.
pub open spec fn digits_value(t: Seq<char>) -> nat
    decreases t.len(),
{
    if t.len() == 0 {
        0
    } else {
        digits_value(t.drop_last()) * 10 + ((t.last() as nat) - 48) as nat
    }
}

/// All characters are decimal digits.
pub open spec fn all_digits(t: Seq<char>) -> bool {
    forall|i: int| 0 <= i < t.len() ==> is_digit(#[trigger] t[i])
}

/// The integer a number's text denotes, when it has no fraction or exponent.
pub open spec fn int_of_text(t: Seq<char>) -> Option<int> {
    if t.len() > 0 && t[0] == '-' {
        if t.len() > 1 && all_digits(t.drop_first()) {
            Some(-(digits_value(t.drop_first()) as int))
        } else {
            None
        }
    } else if t.len() > 0 && all_digits(t) {
        Some(digits_value(t) as int)
    } else {
        None
    }
}

/// The integer a value holds, when it is an integral number.
pub open spec fn json_int(j: JsonV) -> Option<int> {
    match j {
        JsonV::Num(t) => int_of_text(t),
        _ => None,
    }
}

/// The integer of `j` when it lies in `lo..=hi`.
pub open spec fn int_in(j: JsonV, lo: int, hi: int) -> Option<int> {
    match json_int(j) {
        Some(v) => if lo <= v <= hi {
            Some(v)
        } else {
            None
        },
        None => None,
    }
}

/// The value of a digit string, or `None` once it passes `limit`.
fn digits_value_capped(cs: &Vec<char>, start: usize, limit: u128) -> (r: Option<u128>)
    requires
        start <= cs@.len(),
        all_digits(cs@.skip(start as int)),
        limit < 0x1_0000_0000_0000_0000_0000,
    ensures
        match r {
            Some(v) => v == digits_value(cs@.skip(start as int)) && v <= limit,
            None => digits_value(cs@.skip(start as int)) > limit,
        },
{
    let mut v: u128 = 0;
    let mut i = start;
    let ghost t = cs@.skip(start as int);
    assert(t.take(0) =~= Seq::<char>::empty());
    while i < cs.len()
        invariant
            start <= i <= cs@.len(),
            t == cs@.skip(start as int),
            all_digits(t),
            v == digits_value(t.take(i - start)),
            v <= limit,
            limit < 0x1_0000_0000_0000_0000_0000,
        decreases cs@.len() - i,
    {
        let c = cs[i];
        assert(c == t[i - start]);
        assert(is_digit(t[i - start]));
        let d = (c as u32 - 48) as u128;
        assert(t.take(i - start + 1).drop_last() =~= t.take(i - start));
        if d > limit || v > (limit - d) / 10 {
            proof {
                lemma_digits_prefix_le(t, i - start + 1);
                if d <= limit {
                    assert(v * 10 + d > limit) by (nonlinear_arith)
                        requires
                            v > (limit - d) / 10,
                            d <= limit,
                    ;
                }
            }
            return None;
        }
        proof {
            assert(v * 10 + d <= limit) by (nonlinear_arith)
                requires
                    v <= (limit - d) / 10,
                    d <= limit,
            ;
        }
        v = v * 10 + d;
        i = i + 1;
    }
    assert(t.take(i - start) =~= t);
    Some(v)
}

/// A prefix's digit value never exceeds the whole's.
proof fn lemma_digits_prefix_le(t: Seq<char>, k: int)
    requires
        0 <= k <= t.len(),
        all_digits(t),
    ensures
        digits_value(t.take(k)) <= digits_value(t),
    decreases t.len() - k,
{
    if k < t.len() {
        lemma_digits_prefix_le(t, k + 1);
        assert(t.take(k + 1).drop_last() =~= t.take(k));
        assert(is_digit(t.take(k + 1).last()));
    } else {
        assert(t.take(k) =~= t);
    }
}

/// The integer a value holds, when it is integral and in `lo..=hi`.
pub fn json_int_in(j: &JsonValue, lo: i128, hi: i128) -> (r: Option<i128>)
    requires
        -0x1_0000_0000_0000_0000 < lo <= 0 <= hi < 0x1_0000_0000_0000_0000,
    ensures
        match r {
            Some(v) => int_in(j@, lo as int, hi as int) == Some(v as int),
            None => int_in(j@, lo as int, hi as int) is None,
        },
{
    match j {
        JsonValue::Num(t) => {
            let cs = chars_of(t.as_str());
            let n = cs.len();
            let neg = n > 0 && cs[0] == '-';
            let start: usize = if neg {
                1
            } else {
                0
            };
            if n <= start {
                return None;
            }
            let mut i = start;
            while i < n && '0' <= cs[i] && cs[i] <= '9'
                invariant
                    n == cs@.len(),
                    start <= i <= n,
                    forall|k: int| start <= k < i ==> is_digit(#[trigger] cs@[k]),
                decreases n - i,
            {
                i = i + 1;
            }
            if i < n {
                proof {
                    assert(!is_digit(cs@[i as int]));
                    if neg {
                        assert(!is_digit(cs@.drop_first()[i - 1]));
                    } else {
                        assert(!is_digit(cs@[i as int]));
                    }
                }
                return None;
            }
            assert(all_digits(cs@.skip(start as int)));
            if neg {
                assert(cs@.skip(1) =~= cs@.drop_first());
                let limit = (-lo) as u128;
                match digits_value_capped(&cs, 1, limit) {
                    Some(v) => Some(-(v as i128)),
                    None => None,
                }
            } else {
                assert(cs@.skip(0) =~= cs@);
                proof {
                    if cs@[0] == '-' {
                        assert(false);
                    }
                }
                match digits_value_capped(&cs, 0, hi as u128) {
                    Some(v) => Some(v as i128),
                    None => None,
                }
            }
        },
        _ => None,
    }
}

/// What an object holds under a key: nothing, one value, or the key twice.
pub enum FieldV {
    Absent,
    Present(JsonV),
    Duplicate,
}

/// How many members have key `k`.
pub open spec fn key_count(ms: Seq<(Seq<char>, JsonV)>, k: Seq<char>) -> nat
    decreases ms.len(),
{
    if ms.len() == 0 {
        0
    } else {
        key_count(ms.drop_last(), k) + (if ms.last().0 == k {
            1nat
        } else {
            0nat
        })
    }
}

/// The value of the last member with key `k` among the first ones.
pub open spec fn last_value(ms: Seq<(Seq<char>, JsonV)>, k: Seq<char>) -> JsonV
    decreases ms.len(),
{
    if ms.len() == 0 {
        JsonV::Null
    } else if ms.last().0 == k {
        ms.last().1
    } else {
        last_value(ms.drop_last(), k)
    }
}

/// What the members hold under `k`.
pub open spec fn field_of(ms: Seq<(Seq<char>, JsonV)>, k: Seq<char>) -> FieldV {
    if key_count(ms, k) == 0 {
        FieldV::Absent
    } else if key_count(ms, k) == 1 {
        FieldV::Present(last_value(ms, k))
    } else {
        FieldV::Duplicate
    }
}

/// The members of an object value, as views.
pub open spec fn members_view(ms: Seq<(String, JsonValue)>) -> Seq<(Seq<char>, JsonV)> {
    ms.map_values(|m: (String, JsonValue)| (m.0@, m.1@))
}

/// Looks a key up among members: `Err` when it occurs twice or more.
pub fn get_field<'a>(ms: &'a Vec<(String, JsonValue)>, key: &str) -> (r: Result<Option<&'a JsonValue>, ()>)
    ensures
        match r {
            Ok(Some(v)) => field_of(members_view(ms@), key@) == FieldV::Present(v@),
            Ok(None) => field_of(members_view(ms@), key@) == FieldV::Absent,
            Err(_) => field_of(members_view(ms@), key@) == FieldV::Duplicate,
        },
{
    let ghost mv = members_view(ms@);
    let mut found: Option<&JsonValue> = None;
    let mut count: usize = 0;
    let mut i: usize = 0;
    assert(mv.take(0) =~= Seq::<(Seq<char>, JsonV)>::empty());
    while i < ms.len()
        invariant
            i <= ms@.len(),
            mv == members_view(ms@),
            count == key_count(mv.take(i as int), key@),
            count <= 1,
            count == 1 ==> (found matches Some(v) && v@ == last_value(mv.take(i as int), key@)),
            count == 0 ==> found is None,
        decreases ms@.len() - i,
    {
        assert(mv.take(i + 1).drop_last() =~= mv.take(i as int));
        assert(mv.take(i + 1).last() == (ms@[i as int].0@, ms@[i as int].1@));
        if str_equal_chars(ms[i].0.as_str(), key) {
            if count == 1 {
                proof {
                    lemma_key_count_prefix(mv, key@, i + 1);
                }
                return Err(());
            }
            found = Some(&ms[i].1);
            count = 1;
        }
        i = i + 1;
    }
    assert(mv.take(i as int) =~= mv);
    Ok(found)
}

/// Counts only grow along prefixes.
proof fn lemma_key_count_prefix(ms: Seq<(Seq<char>, JsonV)>, k: Seq<char>, n: int)
    requires
        0 <= n <= ms.len(),
    ensures
        key_count(ms.take(n), k) <= key_count(ms, k),
    decreases ms.len() - n,
{
    if n < ms.len() {
        lemma_key_count_prefix(ms, k, n + 1);
        assert(ms.take(n + 1).drop_last() =~= ms.take(n));
    } else {
        assert(ms.take(n) =~= ms);
    }
}

/// Character-wise equality.
fn str_equal_chars(a: &str, b: &str) -> (r: bool)
    ensures
        r == (a@ == b@),
{
    crate::text::str_equal(a, b)
}

// ----- reading back what was written -----

/// Escaping distributes over concatenation.
pub proof fn lemma_escaped_concat(a: Seq<char>, b: Seq<char>)
    ensures
        escaped(a + b) == escaped(a) + escaped(b),
    decreases b.len(),
{
    if b.len() == 0 {
        assert(a + b =~= a);
        assert(escaped(a) + escaped(b) =~= escaped(a));
    } else {
        assert((a + b).drop_last() =~= a + b.drop_last());
        assert((a + b).last() == b.last());
        lemma_escaped_concat(a, b.drop_last());
        assert(escaped(a + b) =~= escaped(a) + escaped(b));
    }
}

/// A hex digit reads back as its value.
pub proof fn lemma_hex_digit(d: nat)
    requires
        d < 16,
    ensures
        hex_val(hex_digit(d)) == Some(d),
{
}

/// A non-empty string's escaped form, from the front.
pub proof fn lemma_escaped_first(t: Seq<char>)
    requires
        t.len() > 0,
    ensures
        escaped(t) == escape_char(t[0]) + escaped(t.drop_first()),
{
    let c = t[0];
    let rest = t.drop_first();
    assert(t =~= seq![c] + rest);
    lemma_escaped_concat(seq![c], rest);
    assert(seq![c].drop_last() =~= Seq::<char>::empty());
    assert(escaped(Seq::<char>::empty()) =~= Seq::<char>::empty());
    assert(escaped(seq![c]) =~= escape_char(c));
}

/// One escaped character read at `i`.
pub proof fn lemma_string_step(s: Seq<char>, i: int, acc: Seq<char>, c: char)
    requires
        0 <= i,
        i + escape_char(c).len() < s.len(),
        forall|j: int| 0 <= j < escape_char(c).len() ==> s[i + j] == #[trigger] escape_char(c)[j],
    ensures
        string_end(s, i, acc) == string_end(s, i + escape_char(c).len(), acc.push(c)),
{
    let e = escape_char(c);
    assert(s[i] == e[0]);
    if c == '"' || c == '\\' || c == '\x08' || c == '\x0c' || c == '\n' || c == '\r' || c == '\t' {
        assert(s[i + 1] == e[1]);
        assert(s[i] == '\\');
        assert(short_escape(s[i + 1]) == Some(c));
    } else if (c as u32) < 0x20 {
        let hi = (c as u32 / 16) as nat;
        let lo = (c as u32 % 16) as nat;
        lemma_hex_digit(hi);
        lemma_hex_digit(lo);
        assert(s[i + 1] == e[1]);
        assert(s[i + 2] == e[2]);
        assert(s[i + 3] == e[3]);
        assert(s[i + 4] == e[4]);
        assert(s[i + 5] == e[5]);
        assert(s[i] == '\\');
        assert(s[i + 1] == 'u');
        assert(short_escape('u') is None);
        assert(hex_val(s[i + 2]) == Some(0nat));
        assert(hex_val(s[i + 3]) == Some(0nat));
        assert(hex_val(s[i + 4]) == Some(hi));
        assert(hex_val(s[i + 5]) == Some(lo));
        assert(hex4(s, i + 2) == Some(hi * 16 + lo));
        assert(hi * 16 + lo == c as u32);
        assert(((hi * 16 + lo) as char) == c);
    } else {
        assert(s[i] == c);
    }
}

/// A string's escaped form, then a quote, reads back as the string.
pub proof fn lemma_string_end(s: Seq<char>, i: int, acc: Seq<char>, t: Seq<char>)
    requires
        0 <= i,
        i + escaped(t).len() < s.len(),
        s.subrange(i, i + escaped(t).len()) == escaped(t),
        s[i + escaped(t).len()] == '"',
    ensures
        string_end(s, i, acc) == Some((acc + t, i + escaped(t).len() + 1)),
    decreases t.len(),
{
    if t.len() == 0 {
        assert(acc + t =~= acc);
    } else {
        let c = t[0];
        let rest = t.drop_first();
        lemma_escaped_first(t);
        let e = escape_char(c);
        let n = e.len();
        let et = escaped(t);
        let er = escaped(rest);
        assert forall|j: int| 0 <= j < n implies s[i + j] == #[trigger] e[j] by {
            assert(s.subrange(i, i + et.len())[j] == et[j]);
        }
        lemma_string_step(s, i, acc, c);
        assert forall|j: int| 0 <= j < er.len() implies s.subrange(i + n, i + n + er.len())[j] == er[j] by {
            assert(s.subrange(i, i + et.len())[n + j] == et[n + j]);
        }
        assert(s.subrange(i + n, i + n + er.len()) =~= er);
        lemma_string_end(s, i + n, acc.push(c), rest);
        assert(acc.push(c) + rest =~= acc + t);
    }
}

/// Joined texts, read from the front: the first, a comma, the rest joined.
pub proof fn lemma_join_front(parts: Seq<Seq<char>>)
    requires
        parts.len() >= 2,
    ensures
        join_commas(parts) == parts[0] + seq![','] + join_commas(parts.drop_first()),
    decreases parts.len(),
{
    if parts.len() == 2 {
        let dl = parts.drop_last();
        let df = parts.drop_first();
        assert(dl.len() == 1 && dl[0] == parts[0]);
        assert(df.len() == 1 && df[0] == parts[1]);
        assert(join_commas(dl) == parts[0]);
        assert(join_commas(df) == parts[1]);
        assert(join_commas(parts) == join_commas(dl) + seq![','] + parts.last());
    } else {
        let dl = parts.drop_last();
        let df = parts.drop_first();
        lemma_join_front(dl);
        assert(df.drop_last() =~= dl.drop_first());
        assert(df.last() == parts.last());
        assert(join_commas(df) == join_commas(df.drop_last()) + seq![','] + df.last());
        assert(join_commas(parts) == join_commas(dl) + seq![','] + parts.last());
        assert(join_commas(parts) =~= parts[0] + seq![','] + join_commas(df));
    }
}

/// Joining one text gives it back.
pub proof fn lemma_join_one(parts: Seq<Seq<char>>)
    requires
        parts.len() == 1,
    ensures
        join_commas(parts) == parts[0],
{
}

/// A run of digits from `j` to `e`, then a non-digit or the end.
pub proof fn lemma_digits_end_run(s: Seq<char>, j: int, e: int)
    requires
        0 <= j <= e <= s.len(),
        forall|q: int| j <= q < e ==> is_digit(#[trigger] s[q]),
        e == s.len() || !is_digit(s[e]),
    ensures
        digits_end(s, j) == e,
    decreases e - j,
{
    if j < e {
        lemma_digits_end_run(s, j + 1, e);
    }
}

/// The text of an integer: an optional minus, then digits without a
/// leading zero (unless the digits are just `0`).
pub open spec fn is_int_text(t: Seq<char>) -> bool {
    let ds = if t.len() > 0 && t[0] == '-' {
        t.drop_first()
    } else {
        t
    };
    &&& ds.len() > 0
    &&& all_digits(ds)
    &&& (ds[0] == '0' ==> ds.len() == 1)
}

/// Where a written value may end: the end of the text or a delimiter.
pub open spec fn ends_value(s: Seq<char>, e: int) -> bool {
    e == s.len() || (0 <= e < s.len() && (s[e] == ',' || s[e] == ']' || s[e] == '}'))
}

/// An integer's text, then a delimiter, reads back as one number.
pub proof fn lemma_number_at(s: Seq<char>, i: int, t: Seq<char>)
    requires
        is_int_text(t),
        0 <= i,
        i + t.len() <= s.len(),
        s.subrange(i, i + t.len()) == t,
        ends_value(s, i + t.len()),
    ensures
        number_end(s, i) == Some(i + t.len()),
{
    let e = i + t.len();
    assert forall|q: int| 0 <= q < t.len() implies s[i + q] == t[q] by {
        assert(s.subrange(i, e)[q] == t[q]);
    }
    let neg = t[0] == '-';
    let j = if neg {
        i + 1
    } else {
        i
    };
    let ds = if neg {
        t.drop_first()
    } else {
        t
    };
    assert forall|q: int| j <= q < e implies is_digit(#[trigger] s[q]) by {
        assert(s[q] == t[q - i]);
        if neg {
            assert(t[q - i] == ds[q - i - 1]);
        }
        assert(is_digit(ds[q - j]));
    }
    assert(is_digit(s[j]));
    assert(e == s.len() || !is_digit(s[e]));
    if s[j] == '0' {
        assert(ds[0] == '0');
        assert(j + 1 == e);
    } else {
        lemma_digits_end_run(s, j + 1, e);
    }
}

/// Splits a text found at `a` into its two parts.
pub proof fn lemma_sub_split(s: Seq<char>, a: int, t1: Seq<char>, t2: Seq<char>)
    requires
        0 <= a,
        a + t1.len() + t2.len() <= s.len(),
        s.subrange(a, a + t1.len() + t2.len()) == t1 + t2,
    ensures
        s.subrange(a, a + t1.len()) == t1,
        s.subrange(a + t1.len(), a + t1.len() + t2.len()) == t2,
{
    let n = t1.len();
    assert forall|j: int| 0 <= j < n implies s.subrange(a, a + n)[j] == t1[j] by {
        assert(s.subrange(a, a + n + t2.len())[j] == (t1 + t2)[j]);
    }
    assert forall|j: int| 0 <= j < t2.len() implies s.subrange(a + n, a + n + t2.len())[j] == t2[j] by {
        assert(s.subrange(a, a + n + t2.len())[n + j] == (t1 + t2)[n + j]);
    }
    assert(s.subrange(a, a + n) =~= t1);
    assert(s.subrange(a + n, a + n + t2.len()) =~= t2);
}

/// The character of a one-character text found at `a`.
pub proof fn lemma_sub_char(s: Seq<char>, a: int, c: char)
    requires
        0 <= a < s.len(),
        s.subrange(a, a + 1) == seq![c],
    ensures
        s[a] == c,
{
    assert(s.subrange(a, a + 1)[0] == s[a]);
}

/// A written value fits a nesting budget `d`: its numbers are integers and
/// arrays and objects nest at most `d` deep.
pub open spec fn fits(v: JsonV, d: nat) -> bool
    decreases v, 1int, 0int,
{
    match v {
        JsonV::Num(t) => is_int_text(t),
        JsonV::Arr(vs) => d > 0 && elems_fit(vs, (d - 1) as nat, 0),
        JsonV::Obj(ms) => d > 0 && members_fit(ms, (d - 1) as nat, 0),
        _ => true,
    }
}

/// The elements from `i` on fit `d`.
pub open spec fn elems_fit(vs: Seq<JsonV>, d: nat, i: int) -> bool
    decreases vs, 0int, vs.len() - i,
{
    if 0 <= i < vs.len() {
        fits(vs[i], d) && elems_fit(vs, d, i + 1)
    } else {
        true
    }
}

/// The member values from `i` on fit `d`.
pub open spec fn members_fit(ms: Seq<(Seq<char>, JsonV)>, d: nat, i: int) -> bool
    decreases ms, 0int, ms.len() - i,
{
    if 0 <= i < ms.len() {
        proof {
            assert(decreases_to!(ms => ms[i]));
        }
        fits(ms[i].1, d) && members_fit(ms, d, i + 1)
    } else {
        true
    }
}

/// Each element of fitting elements fits.
pub proof fn lemma_elems_fit(vs: Seq<JsonV>, d: nat, i: int, j: int)
    requires
        elems_fit(vs, d, i),
        0 <= i <= j < vs.len(),
    ensures
        fits(vs[j], d),
    decreases j - i,
{
    if i < j {
        lemma_elems_fit(vs, d, i + 1, j);
    }
}

/// Each member value of fitting members fits.
pub proof fn lemma_members_fit(ms: Seq<(Seq<char>, JsonV)>, d: nat, i: int, j: int)
    requires
        members_fit(ms, d, i),
        0 <= i <= j < ms.len(),
    ensures
        fits(ms[j].1, d),
    decreases j - i,
{
    if i < j {
        lemma_members_fit(ms, d, i + 1, j);
    }
}

/// A character that can open a value.
pub open spec fn starts_value(c: char) -> bool {
    c == 'n' || c == 't' || c == 'f' || c == '"' || c == '[' || c == '{' || c == '-' || is_digit(c)
}

/// A fitting value's text is not empty and opens as a value.
pub proof fn lemma_text_start(v: JsonV, d: nat)
    requires
        fits(v, d),
    ensures
        json_text(v).len() > 0,
        starts_value(json_text(v)[0]),
{
    match v {
        JsonV::Num(t) => {
            if t[0] != '-' {
                assert(is_digit(t[0]));
            }
        },
        JsonV::Str(t) => {
            assert(json_text(v)[0] == '"');
        },
        JsonV::Arr(vs) => {
            assert(json_text(v)[0] == '[');
        },
        JsonV::Obj(ms) => {
            assert(json_text(v)[0] == '{');
        },
        _ => {},
    }
}

/// Joined texts open as their first text does.
pub proof fn lemma_join_start(parts: Seq<Seq<char>>)
    requires
        parts.len() >= 1,
        parts[0].len() > 0,
    ensures
        join_commas(parts).len() > 0,
        join_commas(parts)[0] == parts[0][0],
{
    if parts.len() >= 2 {
        lemma_join_front(parts);
    }
}

/// A fitting value written at `i`, followed by a delimiter or the end,
/// reads back as itself.
pub proof fn lemma_value_at(s: Seq<char>, i: int, v: JsonV, d: nat)
    requires
        fits(v, d),
        0 <= i,
        i + json_text(v).len() <= s.len(),
        s.subrange(i, i + json_text(v).len()) == json_text(v),
        ends_value(s, i + json_text(v).len()),
    ensures
        parse_value(s, i, d) == Some((v, i + json_text(v).len())),
    decreases v, 1int, 0int,
{
    let t = json_text(v);
    lemma_text_start(v, d);
    assert(s.subrange(i, i + t.len())[0] == s[i]);
    assert(skip_ws(s, i) == i);
    match v {
        JsonV::Null => {
            assert(has_lit(s, i, seq!['n', 'u', 'l', 'l']));
        },
        JsonV::Bool(b) => {
            if b {
                assert(has_lit(s, i, seq!['t', 'r', 'u', 'e']));
            } else {
                assert(has_lit(s, i, seq!['f', 'a', 'l', 's', 'e']));
            }
        },
        JsonV::Num(x) => {
            lemma_number_at(s, i, x);
        },
        JsonV::Str(x) => {
            let e = escaped(x);
            assert(t =~= seq!['"'] + (e + seq!['"']));
            lemma_sub_split(s, i, seq!['"'], e + seq!['"']);
            lemma_sub_split(s, i + 1, e, seq!['"']);
            lemma_sub_char(s, i + 1 + e.len(), '"');
            lemma_string_end(s, i + 1, Seq::empty(), x);
            assert(Seq::<char>::empty() + x =~= x);
        },
        JsonV::Arr(vs) => {
            let parts = element_texts(vs);
            let j = join_commas(parts);
            assert(t =~= seq!['['] + (j + seq![']']));
            lemma_sub_split(s, i, seq!['['], j + seq![']']);
            lemma_sub_split(s, i + 1, j, seq![']']);
            lemma_sub_char(s, i + 1 + j.len(), ']');
            if vs.len() == 0 {
                assert(parts.len() == 0);
                assert(j.len() == 0);
                assert(skip_ws(s, i + 1) == i + 1);
                assert(vs =~= Seq::<JsonV>::empty());
            } else {
                lemma_elems_fit(vs, (d - 1) as nat, 0, 0);
                lemma_text_start(vs[0], (d - 1) as nat);
                assert(parts[0] == json_text(vs[0]));
                lemma_join_start(parts);
                assert(s.subrange(i + 1, i + 1 + j.len())[0] == s[i + 1]);
                assert(skip_ws(s, i + 1) == i + 1);
                assert(parts.skip(0) =~= parts);
                assert(vs.take(0) =~= Seq::<JsonV>::empty());
                lemma_items_at(s, i + 1, vs, 0, (d - 1) as nat);
            }
        },
        JsonV::Obj(ms) => {
            let parts = member_texts(ms);
            let j = join_commas(parts);
            assert(t =~= seq!['{'] + (j + seq!['}']));
            lemma_sub_split(s, i, seq!['{'], j + seq!['}']);
            lemma_sub_split(s, i + 1, j, seq!['}']);
            lemma_sub_char(s, i + 1 + j.len(), '}');
            if ms.len() == 0 {
                assert(parts.len() == 0);
                assert(j.len() == 0);
                assert(skip_ws(s, i + 1) == i + 1);
                assert(ms =~= Seq::<(Seq<char>, JsonV)>::empty());
            } else {
                assert(parts[0] == quoted(ms[0].0) + seq![':'] + json_text(ms[0].1));
                assert(parts[0][0] == '"');
                lemma_join_start(parts);
                assert(s.subrange(i + 1, i + 1 + j.len())[0] == s[i + 1]);
                assert(skip_ws(s, i + 1) == i + 1);
                assert(parts.skip(0) =~= parts);
                assert(ms.take(0) =~= Seq::<(Seq<char>, JsonV)>::empty());
                lemma_members_at(s, i + 1, ms, 0, (d - 1) as nat);
            }
        },
    }
}

/// Array elements written from position `pos` (from element `k` on),
/// followed by `]`, read back as the array.
pub proof fn lemma_items_at(s: Seq<char>, pos: int, vs: Seq<JsonV>, k: int, d: nat)
    requires
        0 <= k < vs.len(),
        elems_fit(vs, d, 0),
        0 <= pos,
        pos + join_commas(element_texts(vs).skip(k)).len() < s.len(),
        s.subrange(pos, pos + join_commas(element_texts(vs).skip(k)).len()) == join_commas(element_texts(vs).skip(k)),
        s[pos + join_commas(element_texts(vs).skip(k)).len()] == ']',
    ensures
        array_items(s, pos, d, vs.take(k)) == Some((JsonV::Arr(vs), pos + join_commas(element_texts(vs).skip(k)).len() + 1)),
    decreases vs, 0int, vs.len() - k,
{
    let parts = element_texts(vs).skip(k);
    let jn = join_commas(parts);
    let t0 = json_text(vs[k]);
    assert(parts[0] == t0);
    lemma_elems_fit(vs, d, 0, k);
    if k == vs.len() - 1 {
        assert(parts.len() == 1);
        lemma_join_one(parts);
        lemma_value_at(s, pos, vs[k], d);
        assert(skip_ws(s, pos + t0.len()) == pos + t0.len());
        assert(vs.take(k).push(vs[k]) =~= vs);
    } else {
        lemma_join_front(parts);
        let rest = join_commas(parts.drop_first());
        assert(parts.drop_first() =~= element_texts(vs).skip(k + 1));
        assert(jn =~= t0 + (seq![','] + rest));
        lemma_sub_split(s, pos, t0, seq![','] + rest);
        lemma_sub_split(s, pos + t0.len(), seq![','], rest);
        lemma_sub_char(s, pos + t0.len(), ',');
        lemma_value_at(s, pos, vs[k], d);
        assert(skip_ws(s, pos + t0.len()) == pos + t0.len());
        assert(vs.take(k).push(vs[k]) =~= vs.take(k + 1));
        lemma_items_at(s, pos + t0.len() + 1, vs, k + 1, d);
    }
}

/// The key and colon of a member written at `pos`: the key reads back and
/// its value starts after the colon.
pub proof fn lemma_member_head(s: Seq<char>, pos: int, key: Seq<char>, tv: Seq<char>)
    requires
        0 <= pos,
        pos + quoted(key).len() + 1 + tv.len() <= s.len(),
        s.subrange(pos, pos + quoted(key).len() + 1 + tv.len()) == quoted(key) + seq![':'] + tv,
    ensures
        skip_ws(s, pos) == pos,
        s[pos] == '"',
        string_end(s, pos + 1, Seq::empty()) == Some((key, pos + escaped(key).len() + 2)),
        skip_ws(s, pos + escaped(key).len() + 2) == pos + escaped(key).len() + 2,
        s[pos + escaped(key).len() + 2] == ':',
        s.subrange(pos + escaped(key).len() + 3, pos + escaped(key).len() + 3 + tv.len()) == tv,
{
    let e = escaped(key);
    let m = quoted(key) + seq![':'] + tv;
    assert(m =~= seq!['"'] + (e + (seq!['"'] + (seq![':'] + tv))));
    lemma_sub_split(s, pos, seq!['"'], e + (seq!['"'] + (seq![':'] + tv)));
    lemma_sub_split(s, pos + 1, e, seq!['"'] + (seq![':'] + tv));
    lemma_sub_split(s, pos + 1 + e.len(), seq!['"'], seq![':'] + tv);
    lemma_sub_split(s, pos + 2 + e.len(), seq![':'], tv);
    lemma_sub_char(s, pos, '"');
    lemma_sub_char(s, pos + 1 + e.len(), '"');
    lemma_sub_char(s, pos + 2 + e.len(), ':');
    lemma_string_end(s, pos + 1, Seq::empty(), key);
    assert(Seq::<char>::empty() + key =~= key);
}

/// Object members written from position `pos` (from member `k` on),
/// followed by `}`, read back as the object.
#[verifier::rlimit(30)]
pub proof fn lemma_members_at(s: Seq<char>, pos: int, ms: Seq<(Seq<char>, JsonV)>, k: int, d: nat)
    requires
        0 <= k < ms.len(),
        members_fit(ms, d, 0),
        0 <= pos,
        pos + join_commas(member_texts(ms).skip(k)).len() < s.len(),
        s.subrange(pos, pos + join_commas(member_texts(ms).skip(k)).len()) == join_commas(member_texts(ms).skip(k)),
        s[pos + join_commas(member_texts(ms).skip(k)).len()] == '}',
    ensures
        object_members(s, pos, d, ms.take(k)) == Some(
            (JsonV::Obj(ms), pos + join_commas(member_texts(ms).skip(k)).len() + 1),
        ),
    decreases ms, 0int, ms.len() - k,
{
    let parts = member_texts(ms).skip(k);
    let jn = join_commas(parts);
    let key = ms[k].0;
    let val = ms[k].1;
    let e = escaped(key);
    let tv = json_text(val);
    let m = quoted(key) + seq![':'] + tv;
    assert(parts[0] == m);
    lemma_members_fit(ms, d, 0, k);
    assert(decreases_to!(ms => ms[k]));
    assert(decreases_to!(ms[k] => ms[k].1));
    let q = pos + e.len() + 2;
    let rest = if k == ms.len() - 1 {
        Seq::<char>::empty()
    } else {
        join_commas(parts.drop_first())
    };
    if k == ms.len() - 1 {
        lemma_join_one(parts);
        assert(jn =~= m + rest);
    } else {
        lemma_join_front(parts);
        assert(jn =~= m + (seq![','] + rest));
    }
    assert(m + jn.skip(m.len() as int) =~= jn);
    lemma_sub_split(s, pos, m, jn.skip(m.len() as int));
    lemma_member_head(s, pos, key, tv);
    if k != ms.len() - 1 {
        assert(jn.skip(m.len() as int) =~= seq![','] + rest);
        lemma_sub_split(s, pos + m.len(), seq![','], rest);
        lemma_sub_char(s, pos + m.len(), ',');
    }
    lemma_value_at(s, q + 1, val, d);
    assert(skip_ws(s, pos + m.len()) == pos + m.len());
    assert(ms.take(k).push((key, val)) =~= ms.take(k + 1));
    if k == ms.len() - 1 {
        assert(ms.take(k + 1) =~= ms);
    } else {
        assert(parts.drop_first() =~= member_texts(ms).skip(k + 1));
        lemma_members_at(s, pos + m.len() + 1, ms, k + 1, d);
    }
}

/// The text of a fitting value reads back as the value.
pub proof fn lemma_parse_json_text(v: JsonV)
    requires
        fits(v, MAX_DEPTH as nat),
    ensures
        parse_json(json_text(v)) == Some(v),
{
    let t = json_text(v);
    assert(t.subrange(0, t.len() as int) =~= t);
    lemma_value_at(t, 0, v, MAX_DEPTH as nat);
}

} // verus!
