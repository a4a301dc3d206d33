//! Decimal number text: writing a `u64` as digits and reading digits back.
//!
//! JSON numbers are carried as their literal text. The integer-valued ones —
//! heights, counts, indexes — are bridged to `u64` here. `dec_digits` is the
//! canonical decimal text of a number; `digits_val` is the value of a digit
//! string. The two are proved inverse.

use vstd::prelude::*;

use vstd::arithmetic::div_mod::lemma_fundamental_div_mod;

use crate::json::{canonical_digits, is_digit};

verus! {

pub open spec fn digit_char(d: int) -> char {
    if d == 0 {
        '0'
    } else if d == 1 {
        '1'
    } else if d == 2 {
        '2'
    } else if d == 3 {
        '3'
    } else if d == 4 {
        '4'
    } else if d == 5 {
        '5'
    } else if d == 6 {
        '6'
    } else if d == 7 {
        '7'
    } else if d == 8 {
        '8'
    } else {
        '9'
    }
}

/// The value of one digit character; zero for anything else.
pub open spec fn digit_val(c: char) -> nat {
    if is_digit(c) {
        (c as u32 - '0' as u32) as nat
    } else {
        0
    }
}

/// The canonical decimal text of a number.
pub open spec fn dec_digits(n: nat) -> Seq<char>
    decreases n,
{
    if n < 10 {
        seq![digit_char(n as int)]
    } else {
        dec_digits(n / 10).push(digit_char((n % 10) as int))
    }
}

/// The value of a digit string, read left to right.
pub open spec fn digits_val(s: Seq<char>) -> nat
    decreases s,
{
    if s.len() == 0 {
        0
    } else {
        digits_val(s.drop_last()) * 10 + digit_val(s.last())
    }
}

pub open spec fn all_digits(s: Seq<char>) -> bool {
    forall|i: int| 0 <= i < s.len() ==> is_digit(#[trigger] s[i])
}

/// The `u64` a digit string stands for, if it is one and fits.
pub open spec fn lex_u64(s: Seq<char>) -> Option<u64> {
    if s.len() > 0 && all_digits(s) && digits_val(s) <= u64::MAX {
        Some(digits_val(s) as u64)
    } else {
        None
    }
}

proof fn lemma_digit_roundtrip(d: int)
    requires
        0 <= d < 10,
    ensures
        is_digit(digit_char(d)),
        digit_val(digit_char(d)) == d,
        d >= 1 ==> digit_char(d) != '0',
{
}

/// Writing a number and reading the digits back gives the number.
pub proof fn lemma_dec_digits_val(n: nat)
    ensures
        digits_val(dec_digits(n)) == n,
    decreases n,
{
    if n < 10 {
        lemma_digit_roundtrip(n as int);
        let w = dec_digits(n);
        assert(w.drop_last() =~= Seq::<char>::empty());
        assert(w.last() == digit_char(n as int));
        assert(digits_val(w) == digits_val(Seq::<char>::empty()) * 10 + digit_val(
            digit_char(n as int),
        ));
    } else {
        lemma_dec_digits_val(n / 10);
        lemma_digit_roundtrip((n % 10) as int);
        let d = dec_digits(n / 10);
        let w = dec_digits(n);
        assert(w == d.push(digit_char((n % 10) as int)));
        assert(w.drop_last() =~= d);
        assert(w.last() == digit_char((n % 10) as int));
        assert(digits_val(w) == digits_val(d) * 10 + digit_val(w.last()));
        assert(digits_val(d) == n / 10);
        assert(digit_val(w.last()) == n % 10);
        lemma_fundamental_div_mod(n as int, 10);
        assert(n / 10 * 10 + n % 10 == n);
    }
}

/// The decimal text of a number is canonical digit text.
pub proof fn lemma_dec_digits_canonical(n: nat)
    ensures
        canonical_digits(dec_digits(n)),
        n >= 1 ==> dec_digits(n)[0] != '0',
    decreases n,
{
    if n < 10 {
        lemma_digit_roundtrip(n as int);
    } else {
        lemma_dec_digits_canonical(n / 10);
        lemma_digit_roundtrip((n % 10) as int);
        let d = dec_digits(n / 10);
        let w = dec_digits(n);
        assert(w == d.push(digit_char((n % 10) as int)));
        assert(forall|i: int| 0 <= i < w.len() - 1 ==> w[i] == d[i]);
        assert(n / 10 >= 1);
        assert(w[0] == d[0]);
        assert forall|i: int| 0 <= i < w.len() implies is_digit(#[trigger] w[i]) by {
            if i < w.len() - 1 {
                assert(w[i] == d[i]);
            }
        }
    }
}

/// Appending digits never lowers the value.
pub proof fn lemma_digits_val_prefix_le(s: Seq<char>, i: int, j: int)
    requires
        0 <= i <= j <= s.len(),
    ensures
        digits_val(s.subrange(0, i)) <= digits_val(s.subrange(0, j)),
    decreases j - i,
{
    if i < j {
        lemma_digits_val_prefix_le(s, i, j - 1);
        let p = s.subrange(0, j - 1);
        let q = s.subrange(0, j);
        assert(q.drop_last() =~= p);
        assert(digits_val(q) == digits_val(p) * 10 + digit_val(q.last()));
    }
}

/// Write the decimal digits of `n` onto `out`.
pub fn push_dec_digits(out: &mut Vec<char>, n: u64)
    ensures
        final(out)@ == old(out)@ + dec_digits(n as nat),
    decreases n,
{
    if n < 10 {
        let c: char = match n {
            0 => '0',
            1 => '1',
            2 => '2',
            3 => '3',
            4 => '4',
            5 => '5',
            6 => '6',
            7 => '7',
            8 => '8',
            _ => '9',
        };
        out.push(c);
        assert(out@ =~= old(out)@ + dec_digits(n as nat));
    } else {
        let q = n / 10;
        let r = n % 10;
        assert(q < n);
        push_dec_digits(out, q);
        let c: char = match r {
            0 => '0',
            1 => '1',
            2 => '2',
            3 => '3',
            4 => '4',
            5 => '5',
            6 => '6',
            7 => '7',
            8 => '8',
            _ => '9',
        };
        out.push(c);
        assert(out@ =~= old(out)@ + dec_digits(n as nat));
    }
}

/// The decimal text of `n`, as characters.
pub fn dec_chars(n: u64) -> (r: Vec<char>)
    ensures
        r@ == dec_digits(n as nat),
{
    let mut out: Vec<char> = Vec::new();
    push_dec_digits(&mut out, n);
    assert(out@ =~= dec_digits(n as nat));
    out
}

/// Read a digit string as a `u64`: exactly `lex_u64` of it.
pub fn parse_u64_digits(s: &Vec<char>) -> (r: Option<u64>)
    ensures
        r == lex_u64(s@),
{
    if s.len() == 0 {
        return None;
    }
    let mut acc: u64 = 0;
    let mut i: usize = 0;
    while i < s.len()
        invariant
            0 <= i <= s@.len(),
            acc == digits_val(s@.subrange(0, i as int)),
            all_digits(s@.subrange(0, i as int)),
        decreases s@.len() - i,
    {
        let c = s[i];
        if c < '0' || c > '9' {
            assert(!is_digit(s@[i as int]));
            assert(!all_digits(s@));
            return None;
        }
        let d: u64 = (c as u32 - '0' as u32) as u64;
        let ghost pre = s@.subrange(0, i as int);
        let ghost cur = s@.subrange(0, i + 1 as int);
        assert(cur.drop_last() =~= pre);
        assert(cur.last() == s@[i as int]);
        assert(digits_val(cur) == digits_val(pre) * 10 + digit_val(s@[i as int]));
        assert(is_digit(s@[i as int]) && digit_val(s@[i as int]) == d);
        proof {
            lemma_fundamental_div_mod(u64::MAX as int - d as int, 10);
        }
        let ghost m: int = u64::MAX as int - d as int;
        assert(m == 10 * (m / 10) + m % 10 && 0 <= m % 10 < 10);
        assert(digits_val(cur) == digits_val(pre) * 10 + d);
        if acc > (u64::MAX - d) / 10 {
            assert(acc as int >= m / 10 + 1);
            assert(10 * (acc as int) >= 10 * (m / 10) + 10);
            assert(10 * (acc as int) + d as int > u64::MAX as int);
            assert(digits_val(cur) > u64::MAX);
            proof {
                lemma_digits_val_prefix_le(s@, i + 1 as int, s@.len() as int);
                assert(s@.subrange(0, s@.len() as int) =~= s@);
            }
            assert(digits_val(s@) > u64::MAX);
            return None;
        }
        assert(acc as int <= m / 10);
        assert(10 * (acc as int) <= 10 * (m / 10));
        assert(acc * 10 + d <= u64::MAX);
        acc = acc * 10 + d;
        assert forall|k: int| 0 <= k < cur.len() implies is_digit(#[trigger] cur[k]) by {
            if k < i {
                assert(cur[k] == pre[k]);
            }
        }
        i = i + 1;
    }
    proof {
        assert(s@.subrange(0, s@.len() as int) =~= s@);
    }
    Some(acc)
}

} // verus!
