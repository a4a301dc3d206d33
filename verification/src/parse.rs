//! The JSON reader.
//!
//! `p_value` is the specification: a total function from text and position
//! to the parsed value and the position after it, or nothing when the text
//! is not JSON there. `parse_value` and `parse_json` compute exactly that
//! function. Strings know the short escapes (`\"` `\\` `\/` `\b` `\f` `\n`
//! `\r` `\t`); numbers follow the JSON grammar, with the whole literal kept
//! as text; whitespace is allowed between tokens.
//!
//! Recursive calls pass positions that grew, and each definition checks
//! that they did before it recurses, so every function is total.

use vstd::prelude::*;

use crate::json::{is_digit, jv_view_members, jv_view_seq, Json, JsonValue};
use crate::text::chars_string;

verus! {

pub open spec fn is_ws(c: char) -> bool {
    c == ' ' || c == '\t' || c == '\n' || c == '\r'
}

/// The position of the first non-whitespace character at or after `i`.
pub open spec fn skip_ws(s: Seq<char>, i: int) -> int
    decreases s.len() - i,
{
    if 0 <= i < s.len() && is_ws(s[i]) {
        skip_ws(s, i + 1)
    } else {
        i
    }
}

pub proof fn lemma_skip_ws(s: Seq<char>, i: int)
    requires
        0 <= i <= s.len(),
    ensures
        i <= skip_ws(s, i) <= s.len(),
        skip_ws(s, i) < s.len() ==> !is_ws(s[skip_ws(s, i)]),
        !(i < s.len() && is_ws(s[i])) ==> skip_ws(s, i) == i,
    decreases s.len() - i,
{
    if i < s.len() && is_ws(s[i]) {
        lemma_skip_ws(s, i + 1);
    }
}

/// The end of the run of digits starting at `i`.
pub open spec fn scan_digits(s: Seq<char>, i: int) -> int
    decreases s.len() - i,
{
    if 0 <= i < s.len() && is_digit(s[i]) {
        scan_digits(s, i + 1)
    } else {
        i
    }
}

/// What an escape character stands for, if it is a known one.
pub open spec fn unescape(c: char) -> Option<char> {
    if c == '"' {
        Some('"')
    } else if c == '\\' {
        Some('\\')
    } else if c == '/' {
        Some('/')
    } else if c == 'b' {
        Some('\u{0008}')
    } else if c == 'f' {
        Some('\u{000C}')
    } else if c == 'n' {
        Some('\n')
    } else if c == 'r' {
        Some('\r')
    } else if c == 't' {
        Some('\t')
    } else {
        None
    }
}

/// The body of a string literal from `i` (just past the opening quote) to
/// its closing quote: the decoded characters and the position after the
/// quote.
pub open spec fn p_string(s: Seq<char>, i: int) -> Option<(Seq<char>, int)>
    decreases s.len() - i,
{
    if !(0 <= i < s.len()) {
        None
    } else if s[i] == '"' {
        Some((Seq::empty(), i + 1))
    } else if s[i] == '\\' {
        if i + 1 < s.len() {
            match unescape(s[i + 1]) {
                Some(c) => match p_string(s, i + 2) {
                    Some((t, e)) => Some((seq![c] + t, e)),
                    None => None,
                },
                None => None,
            }
        } else {
            None
        }
    } else if (s[i] as u32) < 0x20 {
        None
    } else {
        match p_string(s, i + 1) {
            Some((t, e)) => Some((seq![s[i]] + t, e)),
            None => None,
        }
    }
}

/// A number literal at `i`: the literal text and the position after it.
pub open spec fn p_number(s: Seq<char>, i: int) -> Option<(Seq<char>, int)> {
    if !(0 <= i <= s.len()) {
        None
    } else {
        let j0 = if i < s.len() && s[i] == '-' {
            i + 1
        } else {
            i
        };
        if !(j0 < s.len()) {
            None
        } else {
            let j1 = if s[j0] == '0' {
                j0 + 1
            } else if is_digit(s[j0]) {
                scan_digits(s, j0)
            } else {
                j0
            };
            if !(j0 < j1 <= s.len()) {
                None
            } else {
                let j2 = if j1 < s.len() && s[j1] == '.' {
                    scan_digits(s, j1 + 1)
                } else {
                    j1
                };
                if !(j1 == j2 || (j1 + 1 < j2 && j2 <= s.len())) {
                    None
                } else {
                    let j3 = if j2 < s.len() && (s[j2] == 'e' || s[j2] == 'E') {
                        let j2s = if j2 + 1 < s.len() && (s[j2 + 1] == '+' || s[j2 + 1]
                            == '-') {
                            j2 + 2
                        } else {
                            j2 + 1
                        };
                        scan_digits(s, j2s)
                    } else {
                        j2
                    };
                    if j3 == j2 {
                        Some((s.subrange(i, j2), j2))
                    } else if j2 + 1 < j3 <= s.len() && (j2 + 2 < j3 || !(s[j2 + 1] == '+'
                        || s[j2 + 1] == '-')) {
                        Some((s.subrange(i, j3), j3))
                    } else {
                        None
                    }
                }
            }
        }
    }
}

/// A JSON value at `i`, leading whitespace allowed: the value and the
/// position after its last character.
pub open spec fn p_value(s: Seq<char>, i: int) -> Option<(Json, int)>
    decreases s.len() - i, 2int,
{
    if !(0 <= i <= s.len()) {
        None
    } else {
        let j = skip_ws(s, i);
        if !(i <= j < s.len()) {
            None
        } else if s[j] == 'n' {
            if j + 4 <= s.len() && s[j + 1] == 'u' && s[j + 2] == 'l' && s[j + 3] == 'l' {
                Some((Json::Null, j + 4))
            } else {
                None
            }
        } else if s[j] == 't' {
            if j + 4 <= s.len() && s[j + 1] == 'r' && s[j + 2] == 'u' && s[j + 3] == 'e' {
                Some((Json::Bool(true), j + 4))
            } else {
                None
            }
        } else if s[j] == 'f' {
            if j + 5 <= s.len() && s[j + 1] == 'a' && s[j + 2] == 'l' && s[j + 3] == 's' && s[j
                + 4] == 'e' {
                Some((Json::Bool(false), j + 5))
            } else {
                None
            }
        } else if s[j] == '"' {
            match p_string(s, j + 1) {
                Some((t, e)) => Some((Json::Str(t), e)),
                None => None,
            }
        } else if s[j] == '-' || is_digit(s[j]) {
            match p_number(s, j) {
                Some((t, e)) => Some((Json::Num(t), e)),
                None => None,
            }
        } else if s[j] == '[' {
            let k = skip_ws(s, j + 1);
            if !(j + 1 <= k < s.len()) {
                None
            } else if s[k] == ']' {
                Some((Json::Arr(Seq::empty()), k + 1))
            } else {
                match p_value(s, k) {
                    Some((v, e)) => if !(k < e && e <= s.len()) {
                        None
                    } else {
                        match p_arr_tail(s, e) {
                            Some((vs, e2)) => Some((Json::Arr(seq![v] + vs), e2)),
                            None => None,
                        }
                    },
                    None => None,
                }
            }
        } else if s[j] == '{' {
            let k = skip_ws(s, j + 1);
            if !(j + 1 <= k < s.len()) {
                None
            } else if s[k] == '}' {
                Some((Json::Obj(Seq::empty()), k + 1))
            } else {
                match p_member(s, k) {
                    Some((kv, e)) => if !(k < e && e <= s.len()) {
                        None
                    } else {
                        match p_obj_tail(s, e) {
                            Some((ms, e2)) => Some((Json::Obj(seq![kv] + ms), e2)),
                            None => None,
                        }
                    },
                    None => None,
                }
            }
        } else {
            None
        }
    }
}

/// The elements after the first in an array: `,` value pairs up to `]`.
pub open spec fn p_arr_tail(s: Seq<char>, i: int) -> Option<(Seq<Json>, int)>
    decreases s.len() - i, 3int,
{
    if !(0 <= i <= s.len()) {
        None
    } else {
        let j = skip_ws(s, i);
        if !(i <= j < s.len()) {
            None
        } else if s[j] == ']' {
            Some((Seq::empty(), j + 1))
        } else if s[j] == ',' {
            match p_value(s, j + 1) {
                Some((v, e)) => if !(j + 1 < e && e <= s.len()) {
                    None
                } else {
                    match p_arr_tail(s, e) {
                        Some((vs, e2)) => Some((seq![v] + vs, e2)),
                        None => None,
                    }
                },
                None => None,
            }
        } else {
            None
        }
    }
}

/// One `"key": value` member, leading whitespace allowed.
pub open spec fn p_member(s: Seq<char>, i: int) -> Option<((Seq<char>, Json), int)>
    decreases s.len() - i, 3int,
{
    if !(0 <= i <= s.len()) {
        None
    } else {
        let j = skip_ws(s, i);
        if !(i <= j < s.len() && s[j] == '"') {
            None
        } else {
            match p_string(s, j + 1) {
                Some((k, e)) => {
                    if !(j + 1 < e && e <= s.len()) {
                        None
                    } else {
                        let c = skip_ws(s, e);
                        if !(e <= c < s.len() && s[c] == ':') {
                            None
                        } else {
                            match p_value(s, c + 1) {
                                Some((v, e2)) => Some(((k, v), e2)),
                                None => None,
                            }
                        }
                    }
                },
                None => None,
            }
        }
    }
}

/// The members after the first in an object: `,` member pairs up to `}`.
pub open spec fn p_obj_tail(s: Seq<char>, i: int) -> Option<(Seq<(Seq<char>, Json)>, int)>
    decreases s.len() - i, 4int,
{
    if !(0 <= i <= s.len()) {
        None
    } else {
        let j = skip_ws(s, i);
        if !(i <= j < s.len()) {
            None
        } else if s[j] == '}' {
            Some((Seq::empty(), j + 1))
        } else if s[j] == ',' {
            match p_member(s, j + 1) {
                Some((kv, e)) => if !(j + 1 < e && e <= s.len()) {
                    None
                } else {
                    match p_obj_tail(s, e) {
                        Some((ms, e2)) => Some((seq![kv] + ms, e2)),
                        None => None,
                    }
                },
                None => None,
            }
        } else {
            None
        }
    }
}

/// A whole text: one value, with nothing but whitespace after it.
pub open spec fn p_text(s: Seq<char>) -> Option<Json> {
    match p_value(s, 0) {
        Some((v, e)) => if 0 <= e <= s.len() && skip_ws(s, e) == s.len() {
            Some(v)
        } else {
            None
        },
        None => None,
    }
}

// ----------------------------------------------------------------------------
// The executable reader: computes exactly the functions above
// ----------------------------------------------------------------------------

/// `o` with `pre` prepended to the parsed characters.
pub open spec fn str_prepend(pre: Seq<char>, o: Option<(Seq<char>, int)>) -> Option<
    (Seq<char>, int),
> {
    match o {
        Some((t, e)) => Some((pre + t, e)),
        None => None,
    }
}

fn skip_ws_exec(s: &Vec<char>, i: usize) -> (r: usize)
    requires
        i <= s@.len(),
    ensures
        r as int == skip_ws(s@, i as int),
        i <= r <= s@.len(),
{
    let mut cur = i;
    loop
        invariant
            i <= cur <= s@.len(),
            skip_ws(s@, i as int) == skip_ws(s@, cur as int),
        ensures
            skip_ws(s@, cur as int) == cur as int,
        decreases s@.len() - cur,
    {
        if cur >= s.len() {
            assert(skip_ws(s@, cur as int) == cur as int);
            break;
        }
        let c = s[cur];
        if !(c == ' ' || c == '\t' || c == '\n' || c == '\r') {
            assert(!is_ws(s@[cur as int]));
            assert(skip_ws(s@, cur as int) == cur as int);
            break;
        }
        cur = cur + 1;
    }
    assert(skip_ws(s@, cur as int) == cur as int);
    cur
}

fn scan_digits_exec(s: &Vec<char>, i: usize) -> (r: usize)
    requires
        i <= s@.len(),
    ensures
        r as int == scan_digits(s@, i as int),
        i <= r <= s@.len(),
{
    let mut cur = i;
    loop
        invariant
            i <= cur <= s@.len(),
            scan_digits(s@, i as int) == scan_digits(s@, cur as int),
        ensures
            scan_digits(s@, cur as int) == cur as int,
        decreases s@.len() - cur,
    {
        if cur >= s.len() {
            assert(scan_digits(s@, cur as int) == cur as int);
            break;
        }
        let c = s[cur];
        if c < '0' || c > '9' {
            assert(!is_digit(s@[cur as int]));
            assert(scan_digits(s@, cur as int) == cur as int);
            break;
        }
        cur = cur + 1;
    }
    assert(scan_digits(s@, cur as int) == cur as int);
    cur
}

/// Copy `s[a..b]` out as a fresh vector.
fn copy_range(s: &Vec<char>, a: usize, b: usize) -> (r: Vec<char>)
    requires
        a <= b <= s@.len(),
    ensures
        r@ == s@.subrange(a as int, b as int),
{
    let mut out: Vec<char> = Vec::new();
    let mut cur = a;
    while cur < b
        invariant
            a <= cur <= b <= s@.len(),
            out@ == s@.subrange(a as int, cur as int),
        decreases b - cur,
    {
        out.push(s[cur]);
        assert(out@ =~= s@.subrange(a as int, cur + 1 as int));
        cur = cur + 1;
    }
    assert(out@ =~= s@.subrange(a as int, b as int));
    out
}

/// Read a string body: exactly `p_string`.
fn parse_string(s: &Vec<char>, i0: usize) -> (r: Option<(Vec<char>, usize)>)
    ensures
        match r {
            Some((t, e)) => p_string(s@, i0 as int) == Some((t@, e as int)) && e <= s@.len(),
            None => p_string(s@, i0 as int) is None,
        },
{
    let mut acc: Vec<char> = Vec::new();
    let mut i = i0;
    proof {
        let o = p_string(s@, i0 as int);
        if o is Some {
            assert(Seq::<char>::empty() + (o->0).0 =~= (o->0).0);
        }
    }
    loop
        invariant
            i0 <= i <= s@.len() || i == i0,
            p_string(s@, i0 as int) == str_prepend(acc@, p_string(s@, i as int)),
        decreases s@.len() - i,
    {
        if i >= s.len() {
            return None;
        }
        let c = s[i];
        if c == '"' {
            proof {
                assert(acc@ + Seq::<char>::empty() =~= acc@);
            }
            return Some((acc, i + 1));
        } else if c == '\\' {
            if i + 1 >= s.len() {
                return None;
            }
            let e = s[i + 1];
            let d: char = if e == '"' {
                '"'
            } else if e == '\\' {
                '\\'
            } else if e == '/' {
                '/'
            } else if e == 'b' {
                '\u{0008}'
            } else if e == 'f' {
                '\u{000C}'
            } else if e == 'n' {
                '\n'
            } else if e == 'r' {
                '\r'
            } else if e == 't' {
                '\t'
            } else {
                return None;
            };
            proof {
                assert(unescape(s@[i + 1]) == Some(d));
                let o2 = p_string(s@, i + 2 as int);
                if o2 is Some {
                    assert(acc@ + (seq![d] + (o2->0).0) =~= acc@.push(d) + (o2->0).0);
                }
            }
            acc.push(d);
            i = i + 2;
        } else if (c as u32) < 0x20 {
            return None;
        } else {
            proof {
                let o2 = p_string(s@, i + 1 as int);
                if o2 is Some {
                    assert(acc@ + (seq![c] + (o2->0).0) =~= acc@.push(c) + (o2->0).0);
                }
            }
            acc.push(c);
            i = i + 1;
        }
    }
}

/// Read a number literal: exactly `p_number`.
fn parse_number(s: &Vec<char>, i: usize) -> (r: Option<(Vec<char>, usize)>)
    requires
        i <= s@.len(),
    ensures
        match r {
            Some((t, e)) => p_number(s@, i as int) == Some((t@, e as int)) && e <= s@.len(),
            None => p_number(s@, i as int) is None,
        },
{
    let j0 = if i < s.len() && s[i] == '-' {
        i + 1
    } else {
        i
    };
    if !(j0 < s.len()) {
        return None;
    }
    let j1 = if s[j0] == '0' {
        j0 + 1
    } else if s[j0] >= '1' && s[j0] <= '9' {
        scan_digits_exec(s, j0)
    } else {
        j0
    };
    if !(j0 < j1) {
        return None;
    }
    let j2 = if j1 < s.len() && s[j1] == '.' {
        scan_digits_exec(s, j1 + 1)
    } else {
        j1
    };
    if !(j1 == j2 || j1 + 1 < j2) {
        return None;
    }
    if j2 < s.len() && (s[j2] == 'e' || s[j2] == 'E') {
        let j2s = if j2 + 1 < s.len() && (s[j2 + 1] == '+' || s[j2 + 1] == '-') {
            j2 + 2
        } else {
            j2 + 1
        };
        let j3 = scan_digits_exec(s, j2s);
        if j3 == j2s {
            return None;
        }
        Some((copy_range(s, i, j3), j3))
    } else {
        Some((copy_range(s, i, j2), j2))
    }
}

/// Read a value: exactly `p_value`.
pub fn parse_value(s: &Vec<char>, i: usize) -> (r: Option<(JsonValue, usize)>)
    requires
        i <= s@.len(),
    ensures
        match r {
            Some((v, e)) => p_value(s@, i as int) == Some((v@, e as int)) && e <= s@.len(),
            None => p_value(s@, i as int) is None,
        },
    decreases s@.len() - i, 2int,
{
    let j = skip_ws_exec(s, i);
    if !(j < s.len()) {
        return None;
    }
    let c = s[j];
    if c == 'n' {
        if s.len() - j >= 4 && s[j + 1] == 'u' && s[j + 2] == 'l' && s[j + 3] == 'l' {
            Some((JsonValue::Null, j + 4))
        } else {
            None
        }
    } else if c == 't' {
        if s.len() - j >= 4 && s[j + 1] == 'r' && s[j + 2] == 'u' && s[j + 3] == 'e' {
            Some((JsonValue::Bool(true), j + 4))
        } else {
            None
        }
    } else if c == 'f' {
        if s.len() - j >= 5 && s[j + 1] == 'a' && s[j + 2] == 'l' && s[j + 3] == 's' && s[j + 4]
            == 'e' {
            Some((JsonValue::Bool(false), j + 5))
        } else {
            None
        }
    } else if c == '"' {
        match parse_string(s, j + 1) {
            Some((t, e)) => Some((JsonValue::Str(chars_string(&t)), e)),
            None => None,
        }
    } else if c == '-' || (c >= '0' && c <= '9') {
        match parse_number(s, j) {
            Some((t, e)) => Some((JsonValue::Num(chars_string(&t)), e)),
            None => None,
        }
    } else if c == '[' {
        let k = skip_ws_exec(s, j + 1);
        if !(k < s.len()) {
            return None;
        }
        if s[k] == ']' {
            proof {
                assert(jv_view_seq(Seq::<JsonValue>::empty()) =~= Seq::<Json>::empty());
            }
            return Some((JsonValue::Arr(Vec::new()), k + 1));
        }
        match parse_value(s, k) {
            Some((v, e)) => {
                if !(k < e) {
                    return None;
                }
                match parse_arr_tail(s, e) {
                    Some((mut vs, e2)) => {
                        proof {
                            let rest = vs@;
                            assert(rest.insert(0, v) =~= seq![v] + rest);
                            assert((seq![v] + rest).drop_first() =~= rest);
                            assert(jv_view_seq(seq![v] + rest) =~= seq![v@] + jv_view_seq(
                                rest,
                            ));
                        }
                        vs.insert(0, v);
                        Some((JsonValue::Arr(vs), e2))
                    },
                    None => None,
                }
            },
            None => None,
        }
    } else if c == '{' {
        let k = skip_ws_exec(s, j + 1);
        if !(k < s.len()) {
            return None;
        }
        if s[k] == '}' {
            proof {
                assert(jv_view_members(Seq::<(String, JsonValue)>::empty()) =~= Seq::<
                    (Seq<char>, Json),
                >::empty());
            }
            return Some((JsonValue::Obj(Vec::new()), k + 1));
        }
        match parse_member(s, k) {
            Some((kv, e)) => {
                if !(k < e) {
                    return None;
                }
                match parse_obj_tail(s, e) {
                    Some((mut ms, e2)) => {
                        proof {
                            let rest = ms@;
                            assert(rest.insert(0, kv) =~= seq![kv] + rest);
                            assert((seq![kv] + rest).drop_first() =~= rest);
                            assert(jv_view_members(seq![kv] + rest) =~= seq![
                                (kv.0@, kv.1@),
                            ] + jv_view_members(rest));
                        }
                        ms.insert(0, kv);
                        Some((JsonValue::Obj(ms), e2))
                    },
                    None => None,
                }
            },
            None => None,
        }
    } else {
        None
    }
}

/// Read the elements after the first in an array: exactly `p_arr_tail`.
fn parse_arr_tail(s: &Vec<char>, i: usize) -> (r: Option<(Vec<JsonValue>, usize)>)
    requires
        i <= s@.len(),
    ensures
        match r {
            Some((vs, e)) => p_arr_tail(s@, i as int) == Some((jv_view_seq(vs@), e as int))
                && e <= s@.len(),
            None => p_arr_tail(s@, i as int) is None,
        },
    decreases s@.len() - i, 3int,
{
    let j = skip_ws_exec(s, i);
    if !(j < s.len()) {
        return None;
    }
    if s[j] == ']' {
        proof {
            assert(jv_view_seq(Seq::<JsonValue>::empty()) =~= Seq::<Json>::empty());
        }
        return Some((Vec::new(), j + 1));
    }
    if s[j] != ',' {
        return None;
    }
    match parse_value(s, j + 1) {
        Some((v, e)) => {
            if !(j + 1 < e) {
                return None;
            }
            match parse_arr_tail(s, e) {
                Some((mut vs, e2)) => {
                    proof {
                        let rest = vs@;
                        assert(rest.insert(0, v) =~= seq![v] + rest);
                        assert((seq![v] + rest).drop_first() =~= rest);
                        assert(jv_view_seq(seq![v] + rest) =~= seq![v@] + jv_view_seq(rest));
                    }
                    vs.insert(0, v);
                    Some((vs, e2))
                },
                None => None,
            }
        },
        None => None,
    }
}

/// Read one member: exactly `p_member`.
fn parse_member(s: &Vec<char>, i: usize) -> (r: Option<((String, JsonValue), usize)>)
    requires
        i <= s@.len(),
    ensures
        match r {
            Some((kv, e)) => p_member(s@, i as int) == Some(((kv.0@, kv.1@), e as int)) && e
                <= s@.len(),
            None => p_member(s@, i as int) is None,
        },
    decreases s@.len() - i, 3int,
{
    let j = skip_ws_exec(s, i);
    if !(j < s.len() && s[j] == '"') {
        return None;
    }
    match parse_string(s, j + 1) {
        Some((k, e)) => {
            if !(j + 1 < e) {
                return None;
            }
            let c = skip_ws_exec(s, e);
            if !(c < s.len()) {
                return None;
            }
            if s[c] != ':' {
                return None;
            }
            match parse_value(s, c + 1) {
                Some((v, e2)) => Some(((chars_string(&k), v), e2)),
                None => None,
            }
        },
        None => None,
    }
}

/// Read the members after the first in an object: exactly `p_obj_tail`.
fn parse_obj_tail(s: &Vec<char>, i: usize) -> (r: Option<(Vec<(String, JsonValue)>, usize)>)
    requires
        i <= s@.len(),
    ensures
        match r {
            Some((ms, e)) => p_obj_tail(s@, i as int) == Some(
                (jv_view_members(ms@), e as int),
            ) && e <= s@.len(),
            None => p_obj_tail(s@, i as int) is None,
        },
    decreases s@.len() - i, 4int,
{
    let j = skip_ws_exec(s, i);
    if !(j < s.len()) {
        return None;
    }
    if s[j] == '}' {
        proof {
            assert(jv_view_members(Seq::<(String, JsonValue)>::empty()) =~= Seq::<
                (Seq<char>, Json),
            >::empty());
        }
        return Some((Vec::new(), j + 1));
    }
    if s[j] != ',' {
        return None;
    }
    match parse_member(s, j + 1) {
        Some((kv, e)) => {
            if !(j + 1 < e) {
                return None;
            }
            match parse_obj_tail(s, e) {
                Some((mut ms, e2)) => {
                    proof {
                        let rest = ms@;
                        assert(rest.insert(0, kv) =~= seq![kv] + rest);
                        assert((seq![kv] + rest).drop_first() =~= rest);
                        assert(jv_view_members(seq![kv] + rest) =~= seq![(kv.0@, kv.1@)]
                            + jv_view_members(rest));
                    }
                    ms.insert(0, kv);
                    Some((ms, e2))
                },
                None => None,
            }
        },
        None => None,
    }
}

/// Read a whole text: exactly `p_text`.
pub fn parse_json(s: &Vec<char>) -> (r: Option<JsonValue>)
    ensures
        match r {
            Some(v) => p_text(s@) == Some(v@),
            None => p_text(s@) is None,
        },
{
    match parse_value(s, 0) {
        Some((v, e)) => {
            let j = skip_ws_exec(s, e);
            if j == s.len() {
                Some(v)
            } else {
                None
            }
        },
        None => None,
    }
}


} // verus!
