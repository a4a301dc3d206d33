//! The JSON value model and the JSON writer.
//!
//! Requests and responses travel as JSON text. `JsonValue` is the executable
//! representation of a JSON value; `Json` is its mathematical counterpart,
//! used by the contracts. Numbers are kept as their literal text, so that no
//! precision is lost and no floating point arithmetic is needed.
//!
//! `ser` is the specification of the canonical text of a value: no extra
//! whitespace, strings escaped character by character. `write_json` produces
//! exactly that text.

use vstd::prelude::*;

use crate::text::str_chars;

verus! {

/// Mathematical model of a JSON value. Object members keep their order.
pub enum Json {
    Null,
    Bool(bool),
    /// A number, kept as its literal text.
    Num(Seq<char>),
    Str(Seq<char>),
    Arr(Seq<Json>),
    Obj(Seq<(Seq<char>, Json)>),
}

/// Executable JSON value. Its view is a `Json`.
#[derive(Debug, PartialEq, Eq)]
pub enum JsonValue {
    Null,
    Bool(bool),
    /// A number, kept as its literal text.
    Num(String),
    Str(String),
    Arr(Vec<JsonValue>),
    Obj(Vec<(String, JsonValue)>),
}

pub open spec fn jv_view(v: JsonValue) -> Json
    decreases v,
{
    match v {
        JsonValue::Null => Json::Null,
        JsonValue::Bool(b) => Json::Bool(b),
        JsonValue::Num(s) => Json::Num(s@),
        JsonValue::Str(s) => Json::Str(s@),
        JsonValue::Arr(a) => Json::Arr(jv_view_seq(a@)),
        JsonValue::Obj(m) => Json::Obj(jv_view_members(m@)),
    }
}

pub open spec fn jv_view_seq(s: Seq<JsonValue>) -> Seq<Json>
    decreases s,
{
    if s.len() == 0 {
        Seq::empty()
    } else {
        seq![jv_view(s[0])] + jv_view_seq(s.drop_first())
    }
}

pub open spec fn jv_view_members(s: Seq<(String, JsonValue)>) -> Seq<(Seq<char>, Json)>
    decreases s,
{
    if s.len() == 0 {
        Seq::empty()
    } else {
        seq![(s[0].0@, jv_view(s[0].1))] + jv_view_members(s.drop_first())
    }
}

impl View for JsonValue {
    type V = Json;

    open spec fn view(&self) -> Json {
        jv_view(*self)
    }
}

pub proof fn lemma_jv_view_seq_len(s: Seq<JsonValue>)
    ensures
        jv_view_seq(s).len() == s.len(),
        forall|i: int| 0 <= i < s.len() ==> jv_view_seq(s)[i] == jv_view(s[i]),
    decreases s,
{
    if s.len() > 0 {
        lemma_jv_view_seq_len(s.drop_first());
    }
}

pub proof fn lemma_jv_view_members_len(s: Seq<(String, JsonValue)>)
    ensures
        jv_view_members(s).len() == s.len(),
        forall|i: int| 0 <= i < s.len() ==> jv_view_members(s)[i] == (s[i].0@, jv_view(
            s[i].1,
        )),
    decreases s,
{
    if s.len() > 0 {
        lemma_jv_view_members_len(s.drop_first());
    }
}

pub proof fn lemma_jv_view_seq_snoc(s: Seq<JsonValue>, x: JsonValue)
    ensures
        jv_view_seq(s.push(x)) == jv_view_seq(s).push(jv_view(x)),
    decreases s,
{
    if s.len() == 0 {
        assert(s.push(x).drop_first() =~= Seq::<JsonValue>::empty());
        assert(s.push(x)[0] == x);
        assert(jv_view_seq(s.push(x)) == seq![jv_view(x)] + jv_view_seq(s.push(x).drop_first()));
        assert(jv_view_seq(s.push(x)) =~= jv_view_seq(s).push(jv_view(x)));
    } else {
        assert(s.push(x).drop_first() =~= s.drop_first().push(x));
        lemma_jv_view_seq_snoc(s.drop_first(), x);
        assert(jv_view_seq(s.push(x)) =~= jv_view_seq(s).push(jv_view(x)));
    }
}

pub proof fn lemma_jv_view_members_snoc(s: Seq<(String, JsonValue)>, x: (String, JsonValue))
    ensures
        jv_view_members(s.push(x)) == jv_view_members(s).push((x.0@, jv_view(x.1))),
    decreases s,
{
    if s.len() == 0 {
        assert(s.push(x).drop_first() =~= Seq::<(String, JsonValue)>::empty());
        assert(s.push(x)[0] == x);
        assert(jv_view_members(s.push(x)) == seq![(x.0@, jv_view(x.1))] + jv_view_members(
            s.push(x).drop_first(),
        ));
        assert(jv_view_members(s.push(x)) =~= jv_view_members(s).push((x.0@, jv_view(x.1))));
    } else {
        assert(s.push(x).drop_first() =~= s.drop_first().push(x));
        lemma_jv_view_members_snoc(s.drop_first(), x);
        assert(jv_view_members(s.push(x)) =~= jv_view_members(s).push((x.0@, jv_view(x.1))));
    }
}

// ----------------------------------------------------------------------------
// Character classes and escaping
// ----------------------------------------------------------------------------

pub open spec fn is_digit(c: char) -> bool {
    '0' <= c && c <= '9'
}

/// Characters allowed in a string that the writer serializes: everything
/// except the control characters, other than the three with short escapes.
pub open spec fn wf_str_char(c: char) -> bool {
    c == '\n' || c == '\r' || c == '\t' || c as u32 >= 0x20
}

pub open spec fn wf_str(s: Seq<char>) -> bool {
    forall|i: int| 0 <= i < s.len() ==> wf_str_char(#[trigger] s[i])
}

/// The canonical text of one string character: a short escape for the
/// characters that need one, the character itself otherwise.
pub open spec fn esc_char(c: char) -> Seq<char> {
    if c == '"' {
        seq!['\\', '"']
    } else if c == '\\' {
        seq!['\\', '\\']
    } else if c == '\n' {
        seq!['\\', 'n']
    } else if c == '\r' {
        seq!['\\', 'r']
    } else if c == '\t' {
        seq!['\\', 't']
    } else {
        seq![c]
    }
}

pub open spec fn esc(s: Seq<char>) -> Seq<char>
    decreases s,
{
    if s.len() == 0 {
        Seq::empty()
    } else {
        esc_char(s[0]) + esc(s.drop_first())
    }
}

pub proof fn lemma_esc_snoc(s: Seq<char>, c: char)
    ensures
        esc(s.push(c)) == esc(s) + esc_char(c),
    decreases s,
{
    if s.len() == 0 {
        assert(s.push(c).drop_first() =~= Seq::<char>::empty());
        assert(s.push(c)[0] == c);
        assert(esc(s.push(c)) == esc_char(c) + esc(s.push(c).drop_first()));
        assert(esc_char(c) + Seq::<char>::empty() =~= esc_char(c));
        assert(esc(s) + esc_char(c) =~= esc_char(c));
    } else {
        assert(s.push(c).drop_first() =~= s.drop_first().push(c));
        lemma_esc_snoc(s.drop_first(), c);
        assert(esc(s.push(c)) =~= esc(s) + esc_char(c));
    }
}

// ----------------------------------------------------------------------------
// Well-formed values: what the writer accepts
// ----------------------------------------------------------------------------

/// A non-empty run of digits without a superfluous leading zero.
pub open spec fn canonical_digits(s: Seq<char>) -> bool {
    &&& s.len() > 0
    &&& forall|i: int| 0 <= i < s.len() ==> is_digit(#[trigger] s[i])
    &&& (s.len() > 1 ==> s[0] != '0')
}

/// Number text the writer accepts: an integer, possibly negative.
pub open spec fn wf_num(s: Seq<char>) -> bool {
    canonical_digits(s) || (s.len() > 1 && s[0] == '-' && canonical_digits(s.drop_first()))
}

pub open spec fn wf_json(j: Json) -> bool
    decreases j,
{
    match j {
        Json::Null => true,
        Json::Bool(_) => true,
        Json::Num(s) => wf_num(s),
        Json::Str(s) => wf_str(s),
        Json::Arr(a) => wf_json_seq(a),
        Json::Obj(m) => wf_json_members(m),
    }
}

pub open spec fn wf_json_seq(a: Seq<Json>) -> bool
    decreases a,
{
    if a.len() == 0 {
        true
    } else {
        wf_json(a[0]) && wf_json_seq(a.drop_first())
    }
}

pub open spec fn wf_json_members(m: Seq<(Seq<char>, Json)>) -> bool
    decreases m,
{
    if m.len() == 0 {
        true
    } else {
        wf_str(m[0].0) && wf_json(m[0].1) && wf_json_members(m.drop_first())
    }
}

// ----------------------------------------------------------------------------
// The canonical text of a value
// ----------------------------------------------------------------------------

pub open spec fn ser(j: Json) -> Seq<char>
    decreases j,
{
    match j {
        Json::Null => seq!['n', 'u', 'l', 'l'],
        Json::Bool(b) => if b {
            seq!['t', 'r', 'u', 'e']
        } else {
            seq!['f', 'a', 'l', 's', 'e']
        },
        Json::Num(s) => s,
        Json::Str(s) => seq!['"'] + esc(s) + seq!['"'],
        Json::Arr(a) => seq!['['] + ser_items(a) + seq![']'],
        Json::Obj(m) => seq!['{'] + ser_members(m) + seq!['}'],
    }
}

pub open spec fn ser_items(a: Seq<Json>) -> Seq<char>
    decreases a,
{
    if a.len() == 0 {
        Seq::empty()
    } else if a.len() == 1 {
        ser(a[0])
    } else {
        ser(a[0]) + seq![','] + ser_items(a.drop_first())
    }
}

pub open spec fn ser_member(kv: (Seq<char>, Json)) -> Seq<char>
    decreases kv,
{
    seq!['"'] + esc(kv.0) + seq!['"', ':'] + ser(kv.1)
}

pub open spec fn ser_members(m: Seq<(Seq<char>, Json)>) -> Seq<char>
    decreases m,
{
    if m.len() == 0 {
        Seq::empty()
    } else if m.len() == 1 {
        ser_member(m[0])
    } else {
        ser_member(m[0]) + seq![','] + ser_members(m.drop_first())
    }
}

pub proof fn lemma_ser_items_snoc(a: Seq<Json>, x: Json)
    ensures
        a.len() == 0 ==> ser_items(a.push(x)) == ser(x),
        a.len() > 0 ==> ser_items(a.push(x)) == ser_items(a) + seq![','] + ser(x),
    decreases a,
{
    if a.len() == 0 {
        assert(a.push(x)[0] == x);
        assert(ser_items(a.push(x)) =~= ser(x));
    } else {
        assert(a.push(x).drop_first() =~= a.drop_first().push(x));
        lemma_ser_items_snoc(a.drop_first(), x);
        if a.len() == 1 {
            assert(ser_items(a.push(x)) =~= ser_items(a) + seq![','] + ser(x));
        } else {
            assert(ser_items(a.push(x)) =~= ser_items(a) + seq![','] + ser(x));
        }
    }
}

pub proof fn lemma_ser_members_snoc(m: Seq<(Seq<char>, Json)>, x: (Seq<char>, Json))
    ensures
        m.len() == 0 ==> ser_members(m.push(x)) == ser_member(x),
        m.len() > 0 ==> ser_members(m.push(x)) == ser_members(m) + seq![','] + ser_member(x),
    decreases m,
{
    if m.len() == 0 {
        assert(m.push(x)[0] == x);
        assert(ser_members(m.push(x)) =~= ser_member(x));
    } else {
        assert(m.push(x).drop_first() =~= m.drop_first().push(x));
        lemma_ser_members_snoc(m.drop_first(), x);
        if m.len() == 1 {
            assert(ser_members(m.push(x)) =~= ser_members(m) + seq![','] + ser_member(x));
        } else {
            assert(ser_members(m.push(x)) =~= ser_members(m) + seq![','] + ser_member(x));
        }
    }
}

// ----------------------------------------------------------------------------
// The writer
// ----------------------------------------------------------------------------

/// Append the escaped form of one character.
fn write_escaped_char(out: &mut Vec<char>, c: char)
    ensures
        final(out)@ == old(out)@ + esc_char(c),
{
    if c == '"' {
        out.push('\\');
        out.push('"');
    } else if c == '\\' {
        out.push('\\');
        out.push('\\');
    } else if c == '\n' {
        out.push('\\');
        out.push('n');
    } else if c == '\r' {
        out.push('\\');
        out.push('r');
    } else if c == '\t' {
        out.push('\\');
        out.push('t');
    } else {
        out.push(c);
    }
    assert(out@ =~= old(out)@ + esc_char(c));
}

/// Append a quoted, escaped string.
fn write_quoted(out: &mut Vec<char>, s: &String)
    ensures
        final(out)@ == old(out)@ + seq!['"'] + esc(s@) + seq!['"'],
{
    out.push('"');
    let cs = str_chars(s.as_str());
    let ghost base = out@;
    assert(esc(s@.subrange(0, 0)) =~= Seq::<char>::empty());
    assert(out@ =~= base + esc(s@.subrange(0, 0)));
    for i in 0..cs.len()
        invariant
            cs@ == s@,
            out@ == base + esc(s@.subrange(0, i as int)),
    {
        let ghost pre = s@.subrange(0, i as int);
        write_escaped_char(out, cs[i]);
        proof {
            lemma_esc_snoc(pre, s@[i as int]);
            assert(s@.subrange(0, i + 1 as int) =~= pre.push(s@[i as int]));
            assert(out@ =~= base + esc(s@.subrange(0, i + 1 as int)));
        }
    }
    proof {
        assert(s@.subrange(0, s@.len() as int) =~= s@);
    }
    out.push('"');
    assert(out@ =~= old(out)@ + seq!['"'] + esc(s@) + seq!['"']);
}

/// Append the characters of a string unchanged.
fn write_raw(out: &mut Vec<char>, s: &String)
    ensures
        final(out)@ == old(out)@ + s@,
{
    let cs = str_chars(s.as_str());
    let ghost base = out@;
    for i in 0..cs.len()
        invariant
            cs@ == s@,
            out@ == base + s@.subrange(0, i as int),
    {
        out.push(cs[i]);
        assert(out@ =~= base + s@.subrange(0, i + 1 as int));
    }
    assert(out@ =~= old(out)@ + s@);
}

/// Append the canonical text of a value: `ser` of its view.
pub fn write_json(out: &mut Vec<char>, v: &JsonValue)
    ensures
        final(out)@ == old(out)@ + ser(v@),
    decreases *v,
{
    match v {
        JsonValue::Null => {
            out.push('n');
            out.push('u');
            out.push('l');
            out.push('l');
            assert(out@ =~= old(out)@ + ser(v@));
        },
        JsonValue::Bool(b) => {
            if *b {
                out.push('t');
                out.push('r');
                out.push('u');
                out.push('e');
            } else {
                out.push('f');
                out.push('a');
                out.push('l');
                out.push('s');
                out.push('e');
            }
            assert(out@ =~= old(out)@ + ser(v@));
        },
        JsonValue::Num(s) => {
            write_raw(out, s);
            assert(out@ =~= old(out)@ + ser(v@));
        },
        JsonValue::Str(s) => {
            write_quoted(out, s);
            assert(out@ =~= old(out)@ + ser(v@));
        },
        JsonValue::Arr(a) => {
            out.push('[');
            let ghost base = out@;
            for i in 0..a.len()
                invariant
                    *v == JsonValue::Arr(*a),
                    out@ == base + ser_items(jv_view_seq(a@.subrange(0, i as int))),
                decreases a.len() - i,
        {
                if i > 0 {
                    out.push(',');
                }
                proof {
                    let vv = *v;
                    assert(decreases_to!(vv => vv->Arr_0));
                    assert(decreases_to!(vv->Arr_0 => vv->Arr_0@));
                    assert(vv->Arr_0@ == a@);
                    assert(decreases_to!(a@ => a@[i as int]));
                }
                write_json(out, &a[i]);
                proof {
                    let pre = a@.subrange(0, i as int);
                    lemma_jv_view_seq_len(pre);
                    lemma_jv_view_seq_snoc(pre, a@[i as int]);
                    lemma_ser_items_snoc(jv_view_seq(pre), jv_view(a@[i as int]));
                    assert(a@.subrange(0, i + 1 as int) =~= pre.push(a@[i as int]));
                    assert(out@ =~= base + ser_items(jv_view_seq(a@.subrange(0, i + 1 as int))));
                }
            }
            proof {
                assert(a@.subrange(0, a@.len() as int) =~= a@);
            }
            out.push(']');
            assert(out@ =~= old(out)@ + ser(v@));
        },
        JsonValue::Obj(m) => {
            out.push('{');
            let ghost base = out@;
            for i in 0..m.len()
                invariant
                    *v == JsonValue::Obj(*m),
                    out@ == base + ser_members(jv_view_members(m@.subrange(0, i as int))),
                decreases m.len() - i,
        {
                if i > 0 {
                    out.push(',');
                }
                write_quoted(out, &m[i].0);
                out.push(':');
                proof {
                    let vv = *v;
                    assert(decreases_to!(vv => vv->Obj_0));
                    assert(decreases_to!(vv->Obj_0 => vv->Obj_0@));
                    assert(vv->Obj_0@ == m@);
                    assert(decreases_to!(m@ => m@[i as int]));
                    assert(decreases_to!(m@[i as int] => m@[i as int].1));
                }
                write_json(out, &m[i].1);
                proof {
                    let pre = m@.subrange(0, i as int);
                    lemma_jv_view_members_len(pre);
                    lemma_jv_view_members_snoc(pre, m@[i as int]);
                    lemma_ser_members_snoc(jv_view_members(pre), (m@[i as int].0@, jv_view(m@[i as int].1)));
                    assert(m@.subrange(0, i + 1 as int) =~= pre.push(m@[i as int]));
                    assert(out@ =~= base + ser_members(jv_view_members(m@.subrange(0, i + 1 as int))));
                }
            }
            proof {
                assert(m@.subrange(0, m@.len() as int) =~= m@);
            }
            out.push('}');
            assert(out@ =~= old(out)@ + ser(v@));
        },
    }
}

} // verus!

