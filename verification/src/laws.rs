//! The round-trip law: the reader inverts the writer.
//!
//! For every well-formed value, reading the canonical text the writer
//! produces gives back exactly that value; wrapped as an envelope
//! `{"result": X}`, decoding yields `X`, and a null or missing result is
//! judged `NoResult`.

use vstd::prelude::*;

use crate::codec::{envelope_of, obj_lookup, EnvErr};
use crate::json::{
    canonical_digits, esc, esc_char, is_digit, ser, ser_items, ser_member, ser_members,
    wf_json, wf_json_members, wf_json_seq, wf_num, wf_str, wf_str_char, Json,
};
use crate::num::{dec_digits, lemma_dec_digits_canonical, lemma_dec_digits_val};
use crate::parse::{
    is_ws, lemma_skip_ws, p_arr_tail, p_member, p_number, p_obj_tail,
    p_string, p_text, p_value, scan_digits, skip_ws, unescape,
};
use crate::records::ju64;

verus! {

/// A character that could extend a number literal to its right.
pub open spec fn is_num_cont(c: char) -> bool {
    is_digit(c) || c == '.' || c == 'e' || c == 'E'
}

/// Splitting a known subrange at a seam.
proof fn lemma_split(s: Seq<char>, i: int, x: Seq<char>, y: Seq<char>)
    requires
        0 <= i,
        i + x.len() + y.len() <= s.len(),
        s.subrange(i, i + x.len() + y.len()) == x + y,
    ensures
        s.subrange(i, i + x.len()) == x,
        s.subrange(i + x.len(), i + x.len() + y.len()) == y,
{
    let whole = s.subrange(i, i + x.len() + y.len());
    assert forall|k: int| 0 <= k < x.len() implies s[i + k] == x[k] by {
        assert(whole[k] == s[i + k]);
        assert((x + y)[k] == x[k]);
    }
    assert(s.subrange(i, i + x.len()) =~= x);
    assert forall|k: int| 0 <= k < y.len() implies s[i + x.len() + k] == y[k] by {
        assert(whole[x.len() + k] == s[i + x.len() + k]);
        assert((x + y)[x.len() + k] == y[k]);
    }
    assert(s.subrange(i + x.len(), i + x.len() + y.len()) =~= y);
}

/// The character a known subrange puts at each position.
proof fn lemma_char_at(s: Seq<char>, i: int, t: Seq<char>, k: int)
    requires
        0 <= i,
        i + t.len() <= s.len(),
        s.subrange(i, i + t.len()) == t,
        0 <= k < t.len(),
    ensures
        s[i + k] == t[k],
{
    assert(s.subrange(i, i + t.len())[k] == s[i + k]);
}

/// The first character of canonical text: never whitespace, never a
/// closing token.
proof fn lemma_ser_first(v: Json)
    requires
        wf_json(v),
    ensures
        ser(v).len() > 0,
        !is_ws(ser(v)[0]),
        ser(v)[0] != ']',
        ser(v)[0] != '}',
        ser(v)[0] != ',',
        ser(v)[0] != ':',
        ser(v)[0] != '"' || v is Str,
{
    match v {
        Json::Num(t) => {
            assert(wf_num(t));
            assert(t.len() > 0);
            if canonical_digits(t) {
                assert(is_digit(t[0]));
            } else {
                assert(t[0] == '-');
            }
        },
        _ => {},
    }
}

/// A run of digits within context scans to exactly its end.
proof fn lemma_digits_scan(s: Seq<char>, i: int, d: Seq<char>)
    requires
        0 <= i,
        i + d.len() <= s.len(),
        s.subrange(i, i + d.len()) == d,
        forall|k: int| 0 <= k < d.len() ==> is_digit(#[trigger] d[k]),
        i + d.len() == s.len() || !is_digit(s[i + d.len()]),
    ensures
        scan_digits(s, i) == i + d.len(),
    decreases d.len(),
{
    if d.len() == 0 {
        if i < s.len() {
            assert(!is_digit(s[i]));
        }
    } else {
        lemma_char_at(s, i, d, 0);
        assert(is_digit(s[i]));
        assert(i < s.len());
        let d2 = d.drop_first();
        assert forall|k: int| 0 <= k < d2.len() implies s.subrange(i + 1, i + 1 + d2.len())[k]
            == d2[k] by {
            lemma_char_at(s, i, d, k + 1);
        }
        assert(s.subrange(i + 1, i + 1 + d2.len()) =~= d2);
        lemma_digits_scan(s, i + 1, d2);
    }
}

/// A well-formed number literal within context reads as itself.
proof fn lemma_p_number_ser(s: Seq<char>, i: int, t: Seq<char>)
    requires
        0 <= i,
        i + t.len() <= s.len(),
        s.subrange(i, i + t.len()) == t,
        wf_num(t),
        i + t.len() == s.len() || !is_num_cont(s[i + t.len()]),
    ensures
        p_number(s, i) == Some((t, i + t.len())),
{
    let d = if t[0] == '-' {
        t.drop_first()
    } else {
        t
    };
    let j0 = if t[0] == '-' {
        i + 1
    } else {
        i
    };
    lemma_char_at(s, i, t, 0);
    assert(canonical_digits(d));
    assert forall|k: int| 0 <= k < d.len() implies s.subrange(j0, j0 + d.len())[k] == d[k] by {
        if t[0] == '-' {
            lemma_char_at(s, i, t, k + 1);
        } else {
            lemma_char_at(s, i, t, k);
        }
    }
    assert(s.subrange(j0, j0 + d.len()) =~= d);
    if t[0] == '-' {
        lemma_char_at(s, i, t, 1);
    }
    assert(s[j0] == d[0]);
    let j1 = i + t.len();
    if d[0] == '0' {
        assert(d.len() == 1);
        assert(j0 + 1 == j1);
    } else {
        lemma_digits_scan(s, j0, d);
        assert(scan_digits(s, j0) == j1);
    }
    if j1 < s.len() {
        assert(s[j1] != '.' && s[j1] != 'e' && s[j1] != 'E');
    }
    assert(s.subrange(i, j1) == t);
}

/// An escaped string body within context reads back as the original.
proof fn lemma_p_string_esc(s: Seq<char>, i: int, t: Seq<char>)
    requires
        0 <= i,
        i + esc(t).len() + 1 <= s.len(),
        s.subrange(i, i + esc(t).len()) == esc(t),
        s[i + esc(t).len()] == '"',
        wf_str(t),
    ensures
        p_string(s, i) == Some((t, i + esc(t).len() + 1)),
    decreases t.len(),
{
    if t.len() == 0 {
        assert(esc(t).len() == 0);
        assert(s[i] == '"');
    } else {
        let c = t[0];
        let t2 = t.drop_first();
        let e1 = esc_char(c);
        let e2 = esc(t2);
        assert(esc(t) == e1 + e2);
        lemma_split(s, i, e1, e2);
        assert(wf_str_char(c));
        assert forall|k: int| 0 <= k < t2.len() implies wf_str_char(#[trigger] t2[k]) by {
            assert(t2[k] == t[k + 1]);
        }
        let i2 = i + e1.len();
        assert(s.subrange(i2, i2 + e2.len()) == e2);
        assert(s[i2 + e2.len()] == '"');
        lemma_p_string_esc(s, i2, t2);
        if c == '"' || c == '\\' || c == '\n' || c == '\r' || c == '\t' {
            assert(e1.len() == 2);
            lemma_char_at(s, i, e1, 0);
            lemma_char_at(s, i, e1, 1);
            assert(s[i] == '\\');
            assert(unescape(s[i + 1]) == Some(c));
            assert(p_string(s, i) == Some((seq![c] + t2, i2 + e2.len() + 1)));
        } else {
            assert(e1.len() == 1);
            lemma_char_at(s, i, e1, 0);
            assert(s[i] == c);
            assert(c != '"' && c != '\\');
            assert(s[i] as u32 >= 0x20);
            assert(p_string(s, i) == Some((seq![c] + t2, i2 + e2.len() + 1)));
        }
        assert(seq![c] + t2 =~= t);
    }
}

// ----------------------------------------------------------------------------
// The mutual induction: a value's canonical text reads back as the value
// ----------------------------------------------------------------------------

/// The text that closes an array after its first element: `,` element
/// pairs, then `]`.
pub open spec fn arr_tail_text(a: Seq<Json>) -> Seq<char>
    decreases a,
{
    if a.len() == 0 {
        seq![']']
    } else {
        seq![','] + ser(a[0]) + arr_tail_text(a.drop_first())
    }
}

/// The text that closes an object after its first member.
pub open spec fn obj_tail_text(m: Seq<(Seq<char>, Json)>) -> Seq<char>
    decreases m,
{
    if m.len() == 0 {
        seq!['}']
    } else {
        seq![','] + ser_member(m[0]) + obj_tail_text(m.drop_first())
    }
}

proof fn lemma_items_split(a: Seq<Json>)
    requires
        a.len() > 0,
    ensures
        ser_items(a) + seq![']'] == ser(a[0]) + arr_tail_text(a.drop_first()),
    decreases a,
{
    if a.len() == 1 {
        assert(arr_tail_text(a.drop_first()) == seq![']']);
        assert(ser_items(a) + seq![']'] =~= ser(a[0]) + arr_tail_text(a.drop_first()));
    } else {
        let a2 = a.drop_first();
        lemma_items_split(a2);
        assert(ser_items(a) == ser(a[0]) + seq![','] + ser_items(a2));
        assert(arr_tail_text(a2) == seq![','] + ser(a2[0]) + arr_tail_text(a2.drop_first()));
        assert(ser_items(a) + seq![']'] =~= ser(a[0]) + (seq![','] + (ser_items(a2)
            + seq![']'])));
        assert(ser(a[0]) + (seq![','] + (ser(a2[0]) + arr_tail_text(a2.drop_first()))) =~= ser(
            a[0],
        ) + arr_tail_text(a2));
    }
}

proof fn lemma_members_split(m: Seq<(Seq<char>, Json)>)
    requires
        m.len() > 0,
    ensures
        ser_members(m) + seq!['}'] == ser_member(m[0]) + obj_tail_text(m.drop_first()),
    decreases m,
{
    if m.len() == 1 {
        assert(obj_tail_text(m.drop_first()) == seq!['}']);
        assert(ser_members(m) + seq!['}'] =~= ser_member(m[0]) + obj_tail_text(m.drop_first()));
    } else {
        let m2 = m.drop_first();
        lemma_members_split(m2);
        assert(ser_members(m) == ser_member(m[0]) + seq![','] + ser_members(m2));
        assert(obj_tail_text(m2) == seq![','] + ser_member(m2[0]) + obj_tail_text(
            m2.drop_first(),
        ));
        assert(ser_members(m) + seq!['}'] =~= ser_member(m[0]) + (seq![','] + (ser_members(m2)
            + seq!['}'])));
        assert(ser_member(m[0]) + (seq![','] + (ser_member(m2[0]) + obj_tail_text(
            m2.drop_first(),
        ))) =~= ser_member(m[0]) + obj_tail_text(m2));
    }
}

/// The first character of an array or object tail: `,` or the closer.
proof fn lemma_tail_first(a: Seq<Json>, m: Seq<(Seq<char>, Json)>)
    ensures
        arr_tail_text(a).len() > 0,
        arr_tail_text(a)[0] == ',' || arr_tail_text(a)[0] == ']',
        obj_tail_text(m).len() > 0,
        obj_tail_text(m)[0] == ',' || obj_tail_text(m)[0] == '}',
{
}

/// The canonical text of a value, in context, reads back as the value.
#[verifier::rlimit(100)]
proof fn lemma_p_value_ser(s: Seq<char>, i: int, v: Json)
    requires
        wf_json(v),
        0 <= i,
        i + ser(v).len() <= s.len(),
        s.subrange(i, i + ser(v).len()) == ser(v),
        i + ser(v).len() == s.len() || !is_num_cont(s[i + ser(v).len()]),
    ensures
        p_value(s, i) == Some((v, i + ser(v).len())),
    decreases v, 1int,
{
    let t = ser(v);
    lemma_ser_first(v);
    lemma_char_at(s, i, t, 0);
    assert(s[i] == t[0]);
    lemma_skip_ws(s, i);
    assert(skip_ws(s, i) == i);
    match v {
        Json::Null => {
            lemma_char_at(s, i, t, 1);
            lemma_char_at(s, i, t, 2);
            lemma_char_at(s, i, t, 3);
            assert(p_value(s, i) == Some((v, i + ser(v).len())));
        },
        Json::Bool(b) => {
            lemma_char_at(s, i, t, 1);
            lemma_char_at(s, i, t, 2);
            lemma_char_at(s, i, t, 3);
            if !b {
                lemma_char_at(s, i, t, 4);
            }
            assert(p_value(s, i) == Some((v, i + ser(v).len())));
        },
        Json::Num(nt) => {
            assert(t == nt);
            lemma_p_number_ser(s, i, nt);
            assert(s[i] == '-' || is_digit(s[i]));
            assert(s[i] != 'n' && s[i] != 't' && s[i] != 'f' && s[i] != '"');
            assert(p_value(s, i) == Some((v, i + ser(v).len())));
        },
        Json::Str(st) => {
            assert(t == seq!['"'] + esc(st) + seq!['"']);
            assert(t =~= seq!['"'] + (esc(st) + seq!['"']));
            lemma_split(s, i, seq!['"'], esc(st) + seq!['"']);
            lemma_split(s, i + 1, esc(st), seq!['"']);
            lemma_char_at(s, i + 1 + esc(st).len(), seq!['"'], 0);
            lemma_p_string_esc(s, i + 1, st);
            assert(p_value(s, i) == Some((v, i + ser(v).len())));
        },
        Json::Arr(a) => {
            if a.len() == 0 {
                assert(a =~= Seq::<Json>::empty());
                assert(ser_items(a) == Seq::<char>::empty());
                assert(t =~= seq!['[', ']']);
                lemma_char_at(s, i, t, 1);
                assert(s[i + 1] == ']');
                lemma_skip_ws(s, i + 1);
                assert(skip_ws(s, i + 1) == i + 1);
                assert(p_value(s, i) == Some((Json::Arr(Seq::empty()), i + 2)));
            } else {
                let a2 = a.drop_first();
                lemma_items_split(a);
                let att = arr_tail_text(a2);
                assert(t =~= seq!['['] + (ser(a[0]) + att));
                lemma_split(s, i, seq!['['], ser(a[0]) + att);
                lemma_split(s, i + 1, ser(a[0]), att);
                assert(wf_json(a[0]) && wf_json_seq(a2));
                lemma_ser_first(a[0]);
                lemma_char_at(s, i + 1, ser(a[0]), 0);
                lemma_skip_ws(s, i + 1);
                assert(skip_ws(s, i + 1) == i + 1);
                let e = i + 1 + ser(a[0]).len();
                lemma_tail_first(a2, Seq::empty());
                lemma_char_at(s, e, att, 0);
                assert(!is_num_cont(s[e]));
                lemma_p_value_ser(s, i + 1, a[0]);
                assert(p_value(s, i + 1) == Some((a[0], e)));
                lemma_p_arr_tail_ser(s, e, a2);
                assert(p_arr_tail(s, e) == Some((a2, e + att.len())));
                assert(seq![a[0]] + a2 =~= a);
                assert(s[i + 1] != ']');
                assert(p_value(s, i) == Some((Json::Arr(a), e + att.len())));
                assert(e + att.len() == i + t.len());
            }
            assert(p_value(s, i) == Some((v, i + ser(v).len())));
        },
        Json::Obj(m) => {
            if m.len() == 0 {
                assert(m =~= Seq::<(Seq<char>, Json)>::empty());
                assert(ser_members(m) == Seq::<char>::empty());
                assert(t =~= seq!['{', '}']);
                lemma_char_at(s, i, t, 1);
                assert(s[i + 1] == '}');
                lemma_skip_ws(s, i + 1);
                assert(skip_ws(s, i + 1) == i + 1);
                assert(p_value(s, i) == Some((Json::Obj(Seq::empty()), i + 2)));
            } else {
                let m2 = m.drop_first();
                lemma_members_split(m);
                let ott = obj_tail_text(m2);
                assert(t =~= seq!['{'] + (ser_member(m[0]) + ott));
                lemma_split(s, i, seq!['{'], ser_member(m[0]) + ott);
                lemma_split(s, i + 1, ser_member(m[0]), ott);
                assert(wf_str(m[0].0) && wf_json(m[0].1) && wf_json_members(m2));
                lemma_char_at(s, i + 1, ser_member(m[0]), 0);
                assert(s[i + 1] == '"');
                lemma_skip_ws(s, i + 1);
                assert(skip_ws(s, i + 1) == i + 1);
                let e = i + 1 + ser_member(m[0]).len();
                lemma_tail_first(Seq::empty(), m2);
                lemma_char_at(s, e, ott, 0);
                assert(!is_num_cont(s[e]));
                lemma_p_member_ser(s, i + 1, m[0]);
                assert(p_member(s, i + 1) == Some((m[0], e)));
                lemma_p_obj_tail_ser(s, e, m2);
                assert(p_obj_tail(s, e) == Some((m2, e + ott.len())));
                assert(seq![m[0]] + m2 =~= m);
                assert(s[i + 1] != '}');
                assert(p_value(s, i) == Some((Json::Obj(m), e + ott.len())));
                assert(e + ott.len() == i + t.len());
            }
            assert(p_value(s, i) == Some((v, i + ser(v).len())));
        },
    }
}

/// The tail of an array, in context, reads back as the later elements.
proof fn lemma_p_arr_tail_ser(s: Seq<char>, i: int, a: Seq<Json>)
    requires
        wf_json_seq(a),
        0 <= i,
        i + arr_tail_text(a).len() <= s.len(),
        s.subrange(i, i + arr_tail_text(a).len()) == arr_tail_text(a),
    ensures
        p_arr_tail(s, i) == Some((a, i + arr_tail_text(a).len())),
    decreases a, 2int,
{
    let t = arr_tail_text(a);
    lemma_char_at(s, i, t, 0);
    lemma_skip_ws(s, i);
    if a.len() == 0 {
        assert(s[i] == ']');
        assert(skip_ws(s, i) == i);
        assert(p_arr_tail(s, i) == Some((Seq::<Json>::empty(), i + 1)));
    } else {
        let a2 = a.drop_first();
        assert(t == seq![','] + ser(a[0]) + arr_tail_text(a2));
        assert(t =~= seq![','] + (ser(a[0]) + arr_tail_text(a2)));
        lemma_split(s, i, seq![','], ser(a[0]) + arr_tail_text(a2));
        lemma_split(s, i + 1, ser(a[0]), arr_tail_text(a2));
        assert(s[i] == ',');
        assert(skip_ws(s, i) == i);
        assert(wf_json(a[0]) && wf_json_seq(a2));
        lemma_ser_first(a[0]);
        let e = i + 1 + ser(a[0]).len();
        lemma_tail_first(a2, Seq::empty());
        lemma_char_at(s, e, arr_tail_text(a2), 0);
        assert(!is_num_cont(s[e]));
        lemma_p_value_ser(s, i + 1, a[0]);
        assert(p_value(s, i + 1) == Some((a[0], e)));
        lemma_p_arr_tail_ser(s, e, a2);
        assert(seq![a[0]] + a2 =~= a);
        assert(p_arr_tail(s, i) == Some((a, e + arr_tail_text(a2).len())));
    }
}

/// One member's canonical text, in context, reads back as the member.
proof fn lemma_p_member_ser(s: Seq<char>, i: int, kv: (Seq<char>, Json))
    requires
        wf_str(kv.0),
        wf_json(kv.1),
        0 <= i,
        i + ser_member(kv).len() <= s.len(),
        s.subrange(i, i + ser_member(kv).len()) == ser_member(kv),
        i + ser_member(kv).len() == s.len() || !is_num_cont(s[i + ser_member(kv).len()]),
    ensures
        p_member(s, i) == Some((kv, i + ser_member(kv).len())),
    decreases kv, 1int,
{
    let t = ser_member(kv);
    let ek = esc(kv.0);
    assert(t == seq!['"'] + ek + seq!['"', ':'] + ser(kv.1));
    assert(t =~= seq!['"'] + (ek + (seq!['"', ':'] + ser(kv.1))));
    lemma_split(s, i, seq!['"'], ek + (seq!['"', ':'] + ser(kv.1)));
    lemma_split(s, i + 1, ek, seq!['"', ':'] + ser(kv.1));
    lemma_split(s, i + 1 + ek.len(), seq!['"', ':'], ser(kv.1));
    lemma_char_at(s, i, t, 0);
    assert(s[i] == '"');
    lemma_skip_ws(s, i);
    assert(skip_ws(s, i) == i);
    lemma_char_at(s, i + 1 + ek.len(), seq!['"', ':'], 0);
    lemma_char_at(s, i + 1 + ek.len(), seq!['"', ':'], 1);
    assert(s[i + 1 + ek.len()] == '"');
    assert(s[i + 2 + ek.len()] == ':');
    lemma_p_string_esc(s, i + 1, kv.0);
    let e = i + 1 + ek.len() + 1;
    assert(p_string(s, i + 1) == Some((kv.0, e)));
    lemma_skip_ws(s, e);
    assert(skip_ws(s, e) == e);
    lemma_p_value_ser(s, e + 1, kv.1);
    assert(p_value(s, e + 1) == Some((kv.1, e + 1 + ser(kv.1).len())));
    assert(kv == (kv.0, kv.1));
    assert(p_member(s, i) == Some((kv, i + t.len())));
}

/// The tail of an object, in context, reads back as the later members.
proof fn lemma_p_obj_tail_ser(s: Seq<char>, i: int, m: Seq<(Seq<char>, Json)>)
    requires
        wf_json_members(m),
        0 <= i,
        i + obj_tail_text(m).len() <= s.len(),
        s.subrange(i, i + obj_tail_text(m).len()) == obj_tail_text(m),
    ensures
        p_obj_tail(s, i) == Some((m, i + obj_tail_text(m).len())),
    decreases m, 2int,
{
    let t = obj_tail_text(m);
    lemma_char_at(s, i, t, 0);
    lemma_skip_ws(s, i);
    if m.len() == 0 {
        assert(s[i] == '}');
        assert(skip_ws(s, i) == i);
        assert(p_obj_tail(s, i) == Some((Seq::<(Seq<char>, Json)>::empty(), i + 1)));
    } else {
        let m2 = m.drop_first();
        assert(t == seq![','] + ser_member(m[0]) + obj_tail_text(m2));
        assert(t =~= seq![','] + (ser_member(m[0]) + obj_tail_text(m2)));
        lemma_split(s, i, seq![','], ser_member(m[0]) + obj_tail_text(m2));
        lemma_split(s, i + 1, ser_member(m[0]), obj_tail_text(m2));
        assert(s[i] == ',');
        assert(skip_ws(s, i) == i);
        assert(wf_str(m[0].0) && wf_json(m[0].1) && wf_json_members(m2));
        let e = i + 1 + ser_member(m[0]).len();
        lemma_tail_first(Seq::empty(), m2);
        lemma_char_at(s, e, obj_tail_text(m2), 0);
        assert(!is_num_cont(s[e]));
        lemma_p_member_ser(s, i + 1, m[0]);
        assert(p_member(s, i + 1) == Some((m[0], e)));
        lemma_p_obj_tail_ser(s, e, m2);
        assert(seq![m[0]] + m2 =~= m);
        assert(p_obj_tail(s, i) == Some((m, e + obj_tail_text(m2).len())));
    }
}

// ----------------------------------------------------------------------------
// The laws
// ----------------------------------------------------------------------------

/// Reading the canonical text of a well-formed value gives the value back.
pub proof fn lemma_read_inverts_write(v: Json)
    requires
        wf_json(v),
    ensures
        p_text(ser(v)) == Some(v),
{
    let s = ser(v);
    assert(s.subrange(0, s.len() as int) =~= s);
    lemma_ser_first(v);
    lemma_p_value_ser(s, 0, v);
    lemma_skip_ws(s, s.len() as int);
}

/// The envelope that wraps a payload.
pub open spec fn envelope_json(v: Json) -> Json {
    Json::Obj(seq![("result"@, v)])
}

proof fn lemma_result_key_wf()
    ensures
        wf_str("result"@),
{
    reveal_strlit("result");
    assert forall|k: int| 0 <= k < "result"@.len() implies wf_str_char(
        #[trigger] "result"@[k],
    ) by {
        assert("result"@.len() == 6);
    }
}

/// Round trip: decoding the canonical envelope of a well-formed, non-null
/// payload yields exactly that payload.
pub proof fn lemma_envelope_round_trip(v: Json)
    requires
        wf_json(v),
        !(v is Null),
    ensures
        envelope_of(ser(envelope_json(v))) == Ok::<Json, EnvErr>(v),
{
    lemma_result_key_wf();
    let ms = seq![("result"@, v)];
    assert(ms[0] == ("result"@, v));
    assert(ms.drop_first() =~= Seq::<(Seq<char>, Json)>::empty());
    assert(wf_json_members(Seq::<(Seq<char>, Json)>::empty()));
    assert(wf_json_members(ms));
    assert(wf_json(envelope_json(v)));
    lemma_read_inverts_write(envelope_json(v));
    assert(obj_lookup(ms, "result"@) == Some(v));
}

/// A null payload, and an envelope without a `result` member, both yield
/// the no-result judgement.
pub proof fn lemma_null_or_missing_result()
    ensures
        envelope_of(ser(envelope_json(Json::Null))) == Err::<Json, EnvErr>(EnvErr::NoResult),
        envelope_of(ser(Json::Obj(Seq::empty()))) == Err::<Json, EnvErr>(EnvErr::NoResult),
{
    lemma_result_key_wf();
    let ms = seq![("result"@, Json::Null)];
    assert(ms[0] == ("result"@, Json::Null));
    assert(wf_json(Json::Null));
    assert(ms.drop_first() =~= Seq::<(Seq<char>, Json)>::empty());
    assert(wf_json_members(Seq::<(Seq<char>, Json)>::empty()));
    assert(wf_json_members(ms));
    assert(wf_json(envelope_json(Json::Null)));
    lemma_read_inverts_write(envelope_json(Json::Null));
    assert(obj_lookup(ms, "result"@) == Some(Json::Null));
    assert(wf_json(Json::Obj(Seq::empty())));
    lemma_read_inverts_write(Json::Obj(Seq::empty()));
    assert(obj_lookup(Seq::<(Seq<char>, Json)>::empty(), "result"@) is None);
}

/// Round trip for a string payload: the envelope of a well-formed string
/// decodes back to exactly that string.
pub proof fn lemma_string_round_trip(t: Seq<char>)
    requires
        wf_str(t),
    ensures
        envelope_of(ser(envelope_json(Json::Str(t)))) == Ok::<Json, EnvErr>(Json::Str(t)),
        crate::records::jstr(Json::Str(t)) == Some(t),
{
    lemma_envelope_round_trip(Json::Str(t));
}

/// Round trip for an unsigned integer: the envelope of its decimal text
/// decodes to a number that reads back as the integer.
pub proof fn lemma_u64_round_trip(n: u64)
    ensures
        envelope_of(ser(envelope_json(Json::Num(dec_digits(n as nat))))) == Ok::<
            Json,
            EnvErr,
        >(Json::Num(dec_digits(n as nat))),
        ju64(Json::Num(dec_digits(n as nat))) == Some(n),
{
    lemma_dec_digits_canonical(n as nat);
    lemma_envelope_round_trip(Json::Num(dec_digits(n as nat)));
    lemma_dec_digits_val(n as nat);
    assert(crate::num::all_digits(dec_digits(n as nat)));
}

} // verus!
