//! A JSON reader for the decompressed credential text: values are objects,
//! arrays, strings (with the standard escapes), numbers (kept as their
//! literal text, so that only integer fields are ever interpreted), booleans
//! and null. The specification-level parser defines the grammar; the
//! executable parser is proved to return exactly what it does.

use vstd::prelude::*;
use crate::numeric::is_digit;
use crate::util::char_from_u32;
use crate::util::push_char;

verus! {

broadcast use vstd::std_specs::vec::axiom_vec_index_decreases, vstd::std_specs::vec::axiom_vec_decreases_to_view, vstd::seq::axiom_seq_index_decreases;

/// A parsed JSON value, at the specification level.
pub ghost enum JsonV {
    Null,
    Bool(bool),
    /// The literal text of a number, uninterpreted.
    Num(Seq<char>),
    Str(Seq<char>),
    Arr(Seq<JsonV>),
    Obj(Seq<JsonFieldV>),
}

/// One object member, at the specification level.
pub ghost struct JsonFieldV {
    pub key: Seq<char>,
    pub value: JsonV,
}

/// A parsed JSON value.
pub enum Json {
    Null,
    Bool(bool),
    /// The literal text of a number, uninterpreted.
    Num(String),
    Str(String),
    Arr(Vec<Json>),
    Obj(Vec<JsonField>),
}

/// One object member.
pub struct JsonField {
    pub key: String,
    pub value: Json,
}

/// The specification-level reading of a parsed value.
pub open spec fn jview(j: Json) -> JsonV
    decreases j,
{
    match j {
        Json::Null => JsonV::Null,
        Json::Bool(b) => JsonV::Bool(b),
        Json::Num(s) => JsonV::Num(s@),
        Json::Str(s) => JsonV::Str(s@),
        Json::Arr(v) => JsonV::Arr(elems_view(v)),
        Json::Obj(v) => JsonV::Obj(fields_view(v)),
    }
}

/// The element-wise reading of a parsed array.
pub open spec fn elems_view(v: Vec<Json>) -> Seq<JsonV>
    decreases v,
{
    Seq::new(
        v@.len(),
        |i: int|
            if 0 <= i < v@.len() {
                jview(v[i])
            } else {
                JsonV::Null
            },
    )
}

/// The member-wise reading of a parsed object.
pub open spec fn fields_view(v: Vec<JsonField>) -> Seq<JsonFieldV>
    decreases v,
{
    Seq::new(
        v@.len(),
        |i: int|
            if 0 <= i < v@.len() {
                JsonFieldV { key: v[i].key@, value: jview(v[i].value) }
            } else {
                JsonFieldV { key: Seq::empty(), value: JsonV::Null }
            },
    )
}

/// JSON insignificant whitespace.
pub open spec fn is_ws(c: char) -> bool {
    c == ' ' || c == '\t' || c == '\n' || c == '\r'
}

/// The first index `>= i` that does not hold whitespace.
pub open spec fn skip_ws(s: Seq<char>, i: int) -> int
    decreases s.len() - i,
{
    if 0 <= i < s.len() && is_ws(s[i]) {
        skip_ws(s, i + 1)
    } else {
        i
    }
}

/// The value of a hexadecimal digit, or `-1`.
pub open spec fn hex_val(c: char) -> int {
    if 48 <= c as int <= 57 {
        c as int - 48
    } else if 97 <= c as int <= 102 {
        c as int - 87
    } else if 65 <= c as int <= 70 {
        c as int - 55
    } else {
        -1
    }
}

/// `w` occurs in `s` starting at index `i`.
pub open spec fn matches_at(s: Seq<char>, i: int, w: Seq<char>) -> bool {
    i >= 0 && i + w.len() <= s.len() && forall|k: int|
        0 <= k < w.len() ==> s[i + k] == #[trigger] w[k]
}

/// The body of a string literal from index `i` (just past the opening quote),
/// with `acc` the characters read so far: the decoded text and the index just
/// past the closing quote. Escaped surrogate code points are rejected.
pub open spec fn parse_string_rest(s: Seq<char>, i: int, acc: Seq<char>) -> Option<(Seq<char>, int)>
    decreases s.len() - i,
{
    if i < 0 || i >= s.len() {
        None
    } else if s[i] == '"' {
        Some((acc, i + 1))
    } else if s[i] == '\\' {
        if i + 1 < s.len() {
            let c = s[i + 1];
            if c == '"' || c == '\\' || c == '/' {
                parse_string_rest(s, i + 2, acc.push(c))
            } else if c == 'b' {
                parse_string_rest(s, i + 2, acc.push(8 as char))
            } else if c == 'f' {
                parse_string_rest(s, i + 2, acc.push(12 as char))
            } else if c == 'n' {
                parse_string_rest(s, i + 2, acc.push('\n'))
            } else if c == 'r' {
                parse_string_rest(s, i + 2, acc.push('\r'))
            } else if c == 't' {
                parse_string_rest(s, i + 2, acc.push('\t'))
            } else if c == 'u' {
                if i + 6 <= s.len() && hex_val(s[i + 2]) >= 0 && hex_val(s[i + 3]) >= 0 && hex_val(
                    s[i + 4],
                ) >= 0 && hex_val(s[i + 5]) >= 0 {
                    let v = hex_val(s[i + 2]) * 4096 + hex_val(s[i + 3]) * 256 + hex_val(s[i + 4])
                        * 16 + hex_val(s[i + 5]);
                    if 0xD800 <= v < 0xE000 {
                        None
                    } else {
                        parse_string_rest(s, i + 6, acc.push(((v as u32) as char)))
                    }
                } else {
                    None
                }
            } else {
                None
            }
        } else {
            None
        }
    } else if (s[i] as u32) < 32 {
        None
    } else {
        parse_string_rest(s, i + 1, acc.push(s[i]))
    }
}

/// A string literal at index `i`: its decoded text and the index just past
/// the closing quote.
pub open spec fn parse_string(s: Seq<char>, i: int) -> Option<(Seq<char>, int)> {
    if 0 <= i < s.len() && s[i] == '"' {
        parse_string_rest(s, i + 1, Seq::empty())
    } else {
        None
    }
}

/// The first index `>= i` that does not hold an ASCII digit.
pub open spec fn digits_end(s: Seq<char>, i: int) -> int
    decreases s.len() - i,
{
    if 0 <= i < s.len() && is_digit(s[i]) {
        digits_end(s, i + 1)
    } else {
        i
    }
}

/// A number literal at index `i`, following the JSON grammar: its literal
/// text and the index just past it.
pub open spec fn parse_number(s: Seq<char>, i: int) -> Option<(Seq<char>, int)> {
    let j0 = if 0 <= i < s.len() && s[i] == '-' {
        i + 1
    } else {
        i
    };
    if !(0 <= i && j0 < s.len() && is_digit(s[j0])) {
        None
    } else {
        let j1 = digits_end(s, j0);
        if s[j0] == '0' && j1 != j0 + 1 {
            None
        } else {
            let j2 = if j1 < s.len() && s[j1] == '.' {
                if j1 + 1 < s.len() && is_digit(s[j1 + 1]) {
                    digits_end(s, j1 + 1)
                } else {
                    -1
                }
            } else {
                j1
            };
            if j2 < 0 {
                None
            } else {
                let j3 = if j2 < s.len() && (s[j2] == 'e' || s[j2] == 'E') {
                    let j2e = if j2 + 1 < s.len() && (s[j2 + 1] == '+' || s[j2 + 1] == '-') {
                        j2 + 2
                    } else {
                        j2 + 1
                    };
                    if j2e < s.len() && is_digit(s[j2e]) {
                        digits_end(s, j2e)
                    } else {
                        -1
                    }
                } else {
                    j2
                };
                if j3 < 0 {
                    None
                } else {
                    Some((s.subrange(i, j3), j3))
                }
            }
        }
    }
}

/// A JSON value at index `i` (whitespace already skipped): the value and the
/// index just past it.
pub open spec fn parse_value(s: Seq<char>, i: int) -> Option<(JsonV, int)>
    decreases s.len() - i, 0int,
{
    if !(0 <= i < s.len()) {
        None
    } else if s[i] == 'n' {
        if matches_at(s, i, "null"@) {
            Some((JsonV::Null, i + 4))
        } else {
            None
        }
    } else if s[i] == 't' {
        if matches_at(s, i, "true"@) {
            Some((JsonV::Bool(true), i + 4))
        } else {
            None
        }
    } else if s[i] == 'f' {
        if matches_at(s, i, "false"@) {
            Some((JsonV::Bool(false), i + 5))
        } else {
            None
        }
    } else if s[i] == '"' {
        match parse_string(s, i) {
            None => None,
            Some((t, j)) => Some((JsonV::Str(t), j)),
        }
    } else if s[i] == '-' || is_digit(s[i]) {
        match parse_number(s, i) {
            None => None,
            Some((t, j)) => Some((JsonV::Num(t), j)),
        }
    } else if s[i] == '[' {
        let j = skip_ws(s, i + 1);
        if !(i < j <= s.len()) {
            None
        } else if j < s.len() && s[j] == ']' {
            Some((JsonV::Arr(Seq::empty()), j + 1))
        } else {
            match parse_elems(s, j, Seq::empty()) {
                None => None,
                Some((es, k)) => Some((JsonV::Arr(es), k)),
            }
        }
    } else if s[i] == '{' {
        let j = skip_ws(s, i + 1);
        if !(i < j <= s.len()) {
            None
        } else if j < s.len() && s[j] == '}' {
            Some((JsonV::Obj(Seq::empty()), j + 1))
        } else {
            match parse_members(s, j, Seq::empty()) {
                None => None,
                Some((fs, k)) => Some((JsonV::Obj(fs), k)),
            }
        }
    } else {
        None
    }
}

/// The elements of an array from index `i` (at the start of an element, with
/// `acc` the elements read so far): all elements and the index just past the
/// closing bracket.
pub open spec fn parse_elems(s: Seq<char>, i: int, acc: Seq<JsonV>) -> Option<(Seq<JsonV>, int)>
    decreases s.len() - i, 1int,
{
    match parse_value(s, i) {
        None => None,
        Some((v, j1)) => {
            let acc2 = acc.push(v);
            let j2 = skip_ws(s, j1);
            if j2 < s.len() && s[j2] == ',' {
                let j3 = skip_ws(s, j2 + 1);
                if !(i < j3 <= s.len()) {
                    None
                } else {
                    parse_elems(s, j3, acc2)
                }
            } else if j2 < s.len() && s[j2] == ']' {
                Some((acc2, j2 + 1))
            } else {
                None
            }
        },
    }
}

/// The members of an object from index `i` (at the start of a key, with
/// `acc` the members read so far): all members and the index just past the
/// closing brace.
pub open spec fn parse_members(s: Seq<char>, i: int, acc: Seq<JsonFieldV>) -> Option<
    (Seq<JsonFieldV>, int),
>
    decreases s.len() - i, 1int,
{
    match parse_string(s, i) {
        None => None,
        Some((k, j1)) => {
            let j2 = skip_ws(s, j1);
            if !(j2 < s.len() && s[j2] == ':') {
                None
            } else {
                let j3 = skip_ws(s, j2 + 1);
                if !(i <= j3 <= s.len()) {
                    None
                } else {
                    match parse_value(s, j3) {
                        None => None,
                        Some((v, j4)) => {
                            let acc2 = acc.push(JsonFieldV { key: k, value: v });
                            let j5 = skip_ws(s, j4);
                            if j5 < s.len() && s[j5] == ',' {
                                let j6 = skip_ws(s, j5 + 1);
                                if !(i < j6 <= s.len()) {
                                    None
                                } else {
                                    parse_members(s, j6, acc2)
                                }
                            } else if j5 < s.len() && s[j5] == '}' {
                                Some((acc2, j5 + 1))
                            } else {
                                None
                            }
                        },
                    }
                }
            }
        },
    }
}

pub proof fn lemma_digits_end_bounds(s: Seq<char>, i: int)
    requires
        0 <= i <= s.len(),
    ensures
        i <= digits_end(s, i) <= s.len(),
    decreases s.len() - i,
{
    if i < s.len() && is_digit(s[i]) {
        lemma_digits_end_bounds(s, i + 1);
    }
}

/// A whole JSON document: one value, surrounded only by whitespace.
pub open spec fn parse_json(s: Seq<char>) -> Option<JsonV> {
    let i = skip_ws(s, 0);
    match parse_value(s, i) {
        None => None,
        Some((j, i2)) => {
            if skip_ws(s, i2) == s.len() {
                Some(j)
            } else {
                None
            }
        },
    }
}

fn is_ws_char(c: char) -> (b: bool)
    ensures
        b == is_ws(c),
{
    c == ' ' || c == '\t' || c == '\n' || c == '\r'
}

fn is_digit_char(c: char) -> (b: bool)
    ensures
        b == is_digit(c),
{
    let v = c as u32;
    48 <= v && v <= 57
}

fn skip_ws_exec(s: &Vec<char>, i: usize) -> (r: usize)
    requires
        i <= s@.len(),
    ensures
        r == skip_ws(s@, i as int),
        i <= r <= s@.len(),
{
    let n = s.len();
    let mut j = i;
    while j < n
        invariant
            i <= j <= n,
            n == s@.len(),
            skip_ws(s@, i as int) == skip_ws(s@, j as int),
        decreases n - j,
    {
        if !is_ws_char(s[j]) {
            return j;
        }
        j = j + 1;
    }
    j
}

fn digits_end_exec(s: &Vec<char>, i: usize) -> (r: usize)
    requires
        i <= s@.len(),
    ensures
        r == digits_end(s@, i as int),
        i <= r <= s@.len(),
{
    let n = s.len();
    let mut j = i;
    while j < n
        invariant
            i <= j <= n,
            n == s@.len(),
            digits_end(s@, i as int) == digits_end(s@, j as int),
        decreases n - j,
    {
        if !is_digit_char(s[j]) {
            return j;
        }
        j = j + 1;
    }
    j
}

fn matches_at_exec(s: &Vec<char>, i: usize, w: &str) -> (b: bool)
    requires
        i <= s@.len(),
    ensures
        b == matches_at(s@, i as int, w@),
{
    let m = w.unicode_len();
    let n = s.len();
    if m > n - i {
        return false;
    }
    let mut k: usize = 0;
    while k < m
        invariant
            0 <= k <= m,
            m == w@.len(),
            n == s@.len(),
            i + m <= n,
            forall|t: int| 0 <= t < k ==> s@[i + t] == #[trigger] w@[t],
        decreases m - k,
    {
        if s[i + k] != w.get_char(k) {
            return false;
        }
        k = k + 1;
    }
    true
}

fn hex_val_exec(c: char) -> (h: i32)
    ensures
        h as int == hex_val(c),
{
    let v = c as u32;
    if 48 <= v && v <= 57 {
        (v - 48) as i32
    } else if 97 <= v && v <= 102 {
        (v - 87) as i32
    } else if 65 <= v && v <= 70 {
        (v - 55) as i32
    } else {
        -1
    }
}

fn parse_string_exec(s: &Vec<char>, i: usize) -> (r: Option<(String, usize)>)
    requires
        i <= s@.len(),
    ensures
        r is None <==> parse_string(s@, i as int) is None,
        r is Some ==> {
            &&& parse_string(s@, i as int) is Some
            &&& (r->0).0@ == (parse_string(s@, i as int)->0).0
            &&& (r->0).1 == (parse_string(s@, i as int)->0).1
            &&& i < (r->0).1 <= s@.len()
        },
{
    broadcast use vstd::utf8::char_u32_cast;

    let n = s.len();
    if i >= n || s[i] != '"' {
        return None;
    }
    let mut out = String::new();
    let mut j = i + 1;
    while j <= n
        invariant
            i + 1 <= j,
            j <= n,
            n == s@.len(),
            i < n,
            s@[i as int] == '"',
            parse_string_rest(s@, i as int + 1, Seq::empty()) == parse_string_rest(
                s@,
                j as int,
                out@,
            ),
        decreases n - j,
    {
        if j >= n {
            return None;
        }
        let c = s[j];
        if c == '"' {
            return Some((out, j + 1));
        } else if c == '\\' {
            if j + 1 >= n {
                return None;
            }
            let c2 = s[j + 1];
            if c2 == '"' || c2 == '\\' || c2 == '/' {
                push_char(&mut out, c2);
                j = j + 2;
            } else if c2 == 'b' {
                push_char(&mut out, 8u8 as char);
                j = j + 2;
            } else if c2 == 'f' {
                push_char(&mut out, 12u8 as char);
                j = j + 2;
            } else if c2 == 'n' {
                push_char(&mut out, '\n');
                j = j + 2;
            } else if c2 == 'r' {
                push_char(&mut out, '\r');
                j = j + 2;
            } else if c2 == 't' {
                push_char(&mut out, '\t');
                j = j + 2;
            } else if c2 == 'u' {
                if n - j < 6 {
                    return None;
                }
                let h1 = hex_val_exec(s[j + 2]);
                let h2 = hex_val_exec(s[j + 3]);
                let h3 = hex_val_exec(s[j + 4]);
                let h4 = hex_val_exec(s[j + 5]);
                if h1 < 0 || h2 < 0 || h3 < 0 || h4 < 0 {
                    return None;
                }
                let v: u32 = (h1 as u32) * 4096 + (h2 as u32) * 256 + (h3 as u32) * 16 + (
                h4 as u32);
                if 0xD800 <= v && v < 0xE000 {
                    return None;
                }
                let c3 = match char_from_u32(v) {
                    Some(c3) => c3,
                    None => {
                        proof {
                            assert(vstd::utf8::is_scalar(v));
                        }
                        return None;
                    },
                };
                proof {
                    let vs = hex_val(s@[j as int + 2]) * 4096 + hex_val(s@[j as int + 3]) * 256
                        + hex_val(s@[j as int + 4]) * 16 + hex_val(s@[j as int + 5]);
                    assert(v == vs as u32);
                    vstd::utf8::char_u32_cast(c3, v);
                    assert(((vs as u32) as char) == c3);
                }
                push_char(&mut out, c3);
                j = j + 6;
            } else {
                return None;
            }
        } else if (c as u32) < 32 {
            return None;
        } else {
            push_char(&mut out, c);
            j = j + 1;
        }
    }
    proof {
        assert(false);
    }
    None
}

fn parse_number_exec(s: &Vec<char>, i: usize) -> (r: Option<(String, usize)>)
    requires
        i <= s@.len(),
    ensures
        r is None <==> parse_number(s@, i as int) is None,
        r is Some ==> {
            &&& parse_number(s@, i as int) is Some
            &&& (r->0).0@ == (parse_number(s@, i as int)->0).0
            &&& (r->0).1 == (parse_number(s@, i as int)->0).1
            &&& i < (r->0).1 <= s@.len()
        },
{
    let n = s.len();
    let j0 = if i < n && s[i] == '-' {
        i + 1
    } else {
        i
    };
    if !(j0 < n) {
        return None;
    }
    if !is_digit_char(s[j0]) {
        return None;
    }
    let j1 = digits_end_exec(s, j0);
    proof {
        assert(digits_end(s@, j0 as int) == digits_end(s@, j0 as int + 1));
        lemma_digits_end_bounds(s@, j0 as int + 1);
    }
    if s[j0] == '0' && j1 != j0 + 1 {
        return None;
    }
    let j2 = if j1 < n && s[j1] == '.' {
        if j1 + 1 < n && is_digit_char(s[j1 + 1]) {
            digits_end_exec(s, j1 + 1)
        } else {
            return None;
        }
    } else {
        j1
    };
    let j3 = if j2 < n && (s[j2] == 'e' || s[j2] == 'E') {
        let j2e = if j2 + 1 < n && (s[j2 + 1] == '+' || s[j2 + 1] == '-') {
            j2 + 2
        } else {
            j2 + 1
        };
        if j2e < n && is_digit_char(s[j2e]) {
            digits_end_exec(s, j2e)
        } else {
            return None;
        }
    } else {
        j2
    };
    let mut lit = String::new();
    let mut k = i;
    while k < j3
        invariant
            i <= k <= j3,
            j3 <= n,
            n == s@.len(),
            lit@ =~= s@.subrange(i as int, k as int),
        decreases j3 - k,
    {
        push_char(&mut lit, s[k]);
        k = k + 1;
    }
    proof {
        assert(lit@ =~= s@.subrange(i as int, j3 as int));
    }
    Some((lit, j3))
}

proof fn lemma_elems_view_push(v2: Vec<Json>, v1: Vec<Json>, x: Json)
    requires
        v2@ == v1@.push(x),
    ensures
        elems_view(v2) =~= elems_view(v1).push(jview(x)),
{
    assert forall|i: int| 0 <= i < v2@.len() implies elems_view(v2)[i] == elems_view(v1).push(
        jview(x),
    )[i] by {
        if i < v1@.len() {
            assert(v2[i] == v1[i]);
        } else {
            assert(v2[i] == x);
        }
    }
}

proof fn lemma_fields_view_push(v2: Vec<JsonField>, v1: Vec<JsonField>, x: JsonField)
    requires
        v2@ == v1@.push(x),
    ensures
        fields_view(v2) =~= fields_view(v1).push(
            JsonFieldV { key: x.key@, value: jview(x.value) },
        ),
{
    assert forall|i: int| 0 <= i < v2@.len() implies fields_view(v2)[i] == fields_view(v1).push(
        JsonFieldV { key: x.key@, value: jview(x.value) },
    )[i] by {
        if i < v1@.len() {
            assert(v2[i] == v1[i]);
        } else {
            assert(v2[i] == x);
        }
    }
}

fn parse_value_exec(s: &Vec<char>, i: usize) -> (r: Option<(Json, usize)>)
    requires
        i <= s@.len(),
    ensures
        r is None <==> parse_value(s@, i as int) is None,
        r is Some ==> {
            &&& parse_value(s@, i as int) is Some
            &&& jview((r->0).0) == (parse_value(s@, i as int)->0).0
            &&& (r->0).1 == (parse_value(s@, i as int)->0).1
            &&& i < (r->0).1 <= s@.len()
        },
    decreases s@.len() - i, 0int,
{
    let n = s.len();
    if i >= n {
        return None;
    }
    let c = s[i];
    if c == 'n' {
        proof {
            reveal_strlit("null");
        }
        if matches_at_exec(s, i, "null") {
            Some((Json::Null, i + 4))
        } else {
            None
        }
    } else if c == 't' {
        proof {
            reveal_strlit("true");
        }
        if matches_at_exec(s, i, "true") {
            Some((Json::Bool(true), i + 4))
        } else {
            None
        }
    } else if c == 'f' {
        proof {
            reveal_strlit("false");
        }
        if matches_at_exec(s, i, "false") {
            Some((Json::Bool(false), i + 5))
        } else {
            None
        }
    } else if c == '"' {
        match parse_string_exec(s, i) {
            None => None,
            Some((t, j)) => Some((Json::Str(t), j)),
        }
    } else if c == '-' || is_digit_char(c) {
        match parse_number_exec(s, i) {
            None => None,
            Some((t, j)) => Some((Json::Num(t), j)),
        }
    } else if c == '[' {
        let j = skip_ws_exec(s, i + 1);
        if j < n && s[j] == ']' {
            let es: Vec<Json> = Vec::new();
            proof {
                assert(elems_view(es) =~= Seq::<JsonV>::empty());
            }
            Some((Json::Arr(es), j + 1))
        } else {
            let acc: Vec<Json> = Vec::new();
            proof {
                assert(elems_view(acc) =~= Seq::<JsonV>::empty());
            }
            match parse_elems_exec(s, j, acc) {
                None => None,
                Some((es, k)) => Some((Json::Arr(es), k)),
            }
        }
    } else if c == '{' {
        let j = skip_ws_exec(s, i + 1);
        if j < n && s[j] == '}' {
            let fs: Vec<JsonField> = Vec::new();
            proof {
                assert(fields_view(fs) =~= Seq::<JsonFieldV>::empty());
            }
            Some((Json::Obj(fs), j + 1))
        } else {
            let acc: Vec<JsonField> = Vec::new();
            proof {
                assert(fields_view(acc) =~= Seq::<JsonFieldV>::empty());
            }
            match parse_members_exec(s, j, acc) {
                None => None,
                Some((fs, k)) => Some((Json::Obj(fs), k)),
            }
        }
    } else {
        None
    }
}

fn parse_elems_exec(s: &Vec<char>, i: usize, acc: Vec<Json>) -> (r: Option<(Vec<Json>, usize)>)
    requires
        i <= s@.len(),
    ensures
        r is None <==> parse_elems(s@, i as int, elems_view(acc)) is None,
        r is Some ==> {
            &&& parse_elems(s@, i as int, elems_view(acc)) is Some
            &&& elems_view((r->0).0) == (parse_elems(s@, i as int, elems_view(acc))->0).0
            &&& (r->0).1 == (parse_elems(s@, i as int, elems_view(acc))->0).1
            &&& i < (r->0).1 <= s@.len()
        },
    decreases s@.len() - i, 1int,
{
    let n = s.len();
    match parse_value_exec(s, i) {
        None => None,
        Some((v, j1)) => {
            let mut acc2 = acc;
            acc2.push(v);
            proof {
                lemma_elems_view_push(acc2, acc, v);
            }
            let j2 = skip_ws_exec(s, j1);
            if j2 < n && s[j2] == ',' {
                let j3 = skip_ws_exec(s, j2 + 1);
                parse_elems_exec(s, j3, acc2)
            } else if j2 < n && s[j2] == ']' {
                Some((acc2, j2 + 1))
            } else {
                None
            }
        },
    }
}

fn parse_members_exec(s: &Vec<char>, i: usize, acc: Vec<JsonField>) -> (r: Option<
    (Vec<JsonField>, usize),
>)
    requires
        i <= s@.len(),
    ensures
        r is None <==> parse_members(s@, i as int, fields_view(acc)) is None,
        r is Some ==> {
            &&& parse_members(s@, i as int, fields_view(acc)) is Some
            &&& fields_view((r->0).0) == (parse_members(s@, i as int, fields_view(acc))->0).0
            &&& (r->0).1 == (parse_members(s@, i as int, fields_view(acc))->0).1
            &&& i < (r->0).1 <= s@.len()
        },
    decreases s@.len() - i, 1int,
{
    let n = s.len();
    match parse_string_exec(s, i) {
        None => None,
        Some((k, j1)) => {
            let j2 = skip_ws_exec(s, j1);
            if !(j2 < n && s[j2] == ':') {
                return None;
            }
            let j3 = skip_ws_exec(s, j2 + 1);
            match parse_value_exec(s, j3) {
                None => None,
                Some((v, j4)) => {
                    let f = JsonField { key: k, value: v };
                    let mut acc2 = acc;
                    acc2.push(f);
                    proof {
                        lemma_fields_view_push(acc2, acc, f);
                    }
                    let j5 = skip_ws_exec(s, j4);
                    if j5 < n && s[j5] == ',' {
                        let j6 = skip_ws_exec(s, j5 + 1);
                        parse_members_exec(s, j6, acc2)
                    } else if j5 < n && s[j5] == '}' {
                        Some((acc2, j5 + 1))
                    } else {
                        None
                    }
                },
            }
        },
    }
}

/// Parses a whole JSON document: one value surrounded only by whitespace.
pub fn parse_json_text(s: &Vec<char>) -> (r: Option<Json>)
    ensures
        r is None <==> parse_json(s@) is None,
        r is Some ==> parse_json(s@) is Some && jview(r->0) == parse_json(s@)->0,
{
    let i = skip_ws_exec(s, 0);
    match parse_value_exec(s, i) {
        None => None,
        Some((j, i2)) => {
            let k = skip_ws_exec(s, i2);
            if k == s.len() {
                Some(j)
            } else {
                None
            }
        },
    }
}

/// The characters of a string, in order, as a vector.
pub fn str_to_chars(s: &str) -> (v: Vec<char>)
    ensures
        v@ == s@,
{
    let n = s.unicode_len();
    let mut v: Vec<char> = Vec::new();
    let mut i: usize = 0;
    while i < n
        invariant
            i <= n,
            n == s@.len(),
            v@ =~= s@.subrange(0, i as int),
        decreases n - i,
    {
        v.push(s.get_char(i));
        i = i + 1;
    }
    proof {
        assert(v@ =~= s@);
    }
    v
}

} // verus!
