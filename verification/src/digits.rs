//! Decimal text for unsigned and signed integers.
//!
//! The manager's protocols carry numbers as decimal text: the `LISTEN_PID`
//! and `LISTEN_FDS` variables are read as unsigned decimals, and the
//! `ERRNO` notification writes a signed decimal. This module gives those
//! representations a mathematical definition and verified conversions in
//! both directions.

use vstd::prelude::*;

verus! {

/// The digit character for a value below ten.
pub open spec fn digit_char(d: int) -> char
    recommends
        0 <= d < 10,
{
    if d == 0 {
        '0'
    } else if d == 1 {
        '1'
    } else if d == 2 {
        '2'
    } else if d == 3 {
        '3'
    } else if d == 4 {
        '4'
    } else if d == 5 {
        '5'
    } else if d == 6 {
        '6'
    } else if d == 7 {
        '7'
    } else if d == 8 {
        '8'
    } else {
        '9'
    }
}

/// Whether a character is a decimal digit.
pub open spec fn is_digit(c: char) -> bool {
    '0' as int <= c as int <= '9' as int
}

/// The numeric value of a digit character.
pub open spec fn digit_val(c: char) -> int
    recommends
        is_digit(c),
{
    c as int - '0' as int
}

/// The canonical decimal representation of a natural number: no sign and
/// no leading zeros (a single `'0'` for zero).
pub open spec fn dec_rep(n: nat) -> Seq<char>
    decreases n,
{
    if n < 10 {
        seq![digit_char(n as int)]
    } else {
        dec_rep(n / 10) + seq![digit_char((n % 10) as int)]
    }
}

/// The canonical decimal representation of an integer: a leading `'-'`
/// for negative values, the bare digits otherwise.
pub open spec fn int_rep(i: int) -> Seq<char> {
    if i < 0 {
        seq!['-'] + dec_rep((-i) as nat)
    } else {
        dec_rep(i as nat)
    }
}

/// Whether every character of a sequence is a decimal digit.
pub open spec fn all_digits(s: Seq<char>) -> bool {
    forall|i: int| 0 <= i < s.len() ==> is_digit(#[trigger] s[i])
}

/// The value of a sequence of digit characters, most significant first.
pub open spec fn dec_val(s: Seq<char>) -> int
    decreases s.len(),
{
    if s.len() == 0 {
        0
    } else {
        dec_val(s.drop_last()) * 10 + digit_val(s.last())
    }
}

/// Whether a sequence is a plausible signed decimal: an optional leading
/// `'-'` followed by at least one digit.
pub open spec fn is_int_text(s: Seq<char>) -> bool {
    if s.len() > 0 && s[0] == '-' {
        s.len() > 1 && all_digits(s.skip(1))
    } else {
        s.len() > 0 && all_digits(s)
    }
}

/// The value of a signed decimal text.
pub open spec fn int_val(s: Seq<char>) -> int
    recommends
        is_int_text(s),
{
    if s.len() > 0 && s[0] == '-' {
        -dec_val(s.skip(1))
    } else {
        dec_val(s)
    }
}

/// Every canonical decimal representation consists of digits, is nonempty,
/// and evaluates back to the number it was made from.
pub proof fn lemma_dec_rep_val(n: nat)
    ensures
        all_digits(dec_rep(n)),
        dec_rep(n).len() >= 1,
        dec_val(dec_rep(n)) == n,
    decreases n,
{
    if n < 10 {
        let s = dec_rep(n);
        assert(s.drop_last() =~= Seq::<char>::empty());
        assert(dec_val(Seq::<char>::empty()) == 0);
        assert(dec_val(s) == digit_val(digit_char(n as int)));
    } else {
        vstd::arithmetic::div_mod::lemma_div_is_strictly_smaller(n as int, 10);
        lemma_dec_rep_val(n / 10);
        let s = dec_rep(n);
        assert(s.drop_last() =~= dec_rep(n / 10));
        assert(s.last() == digit_char((n % 10) as int));
        vstd::arithmetic::div_mod::lemma_fundamental_div_mod(n as int, 10);
    }
}

/// The signed representation is a valid signed decimal text and evaluates
/// back to the integer it was made from.
pub proof fn lemma_int_rep_val(i: int)
    ensures
        is_int_text(int_rep(i)),
        int_val(int_rep(i)) == i,
{
    if i < 0 {
        lemma_dec_rep_val((-i) as nat);
        let s = int_rep(i);
        assert(s[0] == '-');
        assert(s.skip(1) =~= dec_rep((-i) as nat));
    } else {
        lemma_dec_rep_val(i as nat);
        let s = int_rep(i);
        lemma_dec_val_nonneg(dec_rep(i as nat));
        assert(s[0] != '-') by {
            assert(is_digit(s[0]));
        }
    }
}

/// The value of a digit sequence is never negative.
pub proof fn lemma_dec_val_nonneg(s: Seq<char>)
    requires
        all_digits(s),
    ensures
        dec_val(s) >= 0,
    decreases s.len(),
{
    if s.len() > 0 {
        assert(all_digits(s.drop_last()));
        lemma_dec_val_nonneg(s.drop_last());
    }
}

/// Reading more digits never lowers the value: a digit sequence is worth
/// at least as much as any of its prefixes.
pub proof fn lemma_dec_val_prefix(s: Seq<char>, k: int)
    requires
        all_digits(s),
        0 <= k <= s.len(),
    ensures
        dec_val(s.take(k)) <= dec_val(s),
        dec_val(s.take(k)) >= 0,
    decreases s.len() - k,
{
    assert(all_digits(s.take(k)));
    lemma_dec_val_nonneg(s.take(k));
    if k == s.len() {
        assert(s.take(k) =~= s);
    } else {
        assert(s.take(k + 1).drop_last() =~= s.take(k));
        assert(s.take(k + 1).last() == s[k]);
        lemma_dec_val_prefix(s, k + 1);
    }
}

/// How `str::parse` reads an unsigned integer: an optional leading `'+'`,
/// then one or more digits. `None` where the text has any other shape;
/// the value is unbounded here, so a caller states its own range check.
pub open spec fn parse_uint(s: Seq<char>) -> Option<int> {
    let t = if s.len() > 0 && s[0] == '+' {
        s.skip(1)
    } else {
        s
    };
    if t.len() > 0 && all_digits(t) {
        Some(dec_val(t))
    } else {
        None
    }
}

/// What `str::parse::<u32>` yields: the parsed value where the text has
/// the right shape and the value fits in 32 bits, nothing otherwise.
pub open spec fn parsed_u32(s: Seq<char>) -> Option<int> {
    match parse_uint(s) {
        Some(v) => if v <= u32::MAX {
            Some(v)
        } else {
            None
        },
        None => None,
    }
}

/// The one-character text for a single decimal digit.
fn digit_str(d: u32) -> (r: &'static str)
    requires
        d < 10,
    ensures
        r@ == seq![digit_char(d as int)],
{
    proof {
        reveal_strlit("0");
        reveal_strlit("1");
        reveal_strlit("2");
        reveal_strlit("3");
        reveal_strlit("4");
        reveal_strlit("5");
        reveal_strlit("6");
        reveal_strlit("7");
        reveal_strlit("8");
        reveal_strlit("9");
    }
    let r = if d == 0 {
        "0"
    } else if d == 1 {
        "1"
    } else if d == 2 {
        "2"
    } else if d == 3 {
        "3"
    } else if d == 4 {
        "4"
    } else if d == 5 {
        "5"
    } else if d == 6 {
        "6"
    } else if d == 7 {
        "7"
    } else if d == 8 {
        "8"
    } else {
        "9"
    };
    proof {
        assert(r@ =~= seq![digit_char(d as int)]);
    }
    r
}

/// Render an unsigned integer as canonical decimal text.
pub fn u32_digits(n: u32) -> (s: String)
    ensures
        s@ == dec_rep(n as nat),
    decreases n,
{
    if n < 10 {
        String::from_str(digit_str(n))
    } else {
        proof {
            vstd::arithmetic::div_mod::lemma_div_is_strictly_smaller(n as int, 10);
        }
        let mut s = u32_digits(n / 10);
        s.append(digit_str(n % 10));
        s
    }
}

/// Render a signed integer as canonical decimal text.
pub fn i32_text(v: i32) -> (s: String)
    ensures
        s@ == int_rep(v as int),
{
    if v >= 0 {
        u32_digits(v as u32)
    } else {
        let mag: u32 = (-(v as i64)) as u32;
        let mut s = String::from_str("-");
        let rest = u32_digits(mag);
        s.append(rest.as_str());
        proof {
            reveal_strlit("-");
            assert(s@ =~= seq!['-'] + dec_rep((-(v as int)) as nat));
        }
        s
    }
}

/// Parse decimal text as `str::parse::<u32>` does: an optional leading
/// `'+'`, then digits; `None` on any other shape and on overflow.
pub fn parse_u32(s: &str) -> (r: Option<u32>)
    ensures
        match r {
            Some(v) => parsed_u32(s@) == Some(v as int),
            None => parsed_u32(s@) is None,
        },
{
    let len = s.unicode_len();
    let start: usize = if len > 0 && s.get_char(0) == '+' {
        1
    } else {
        0
    };
    let ghost t = if start == 1 {
        s@.skip(1)
    } else {
        s@
    };
    if start >= len {
        return None;
    }
    proof {
        if start == 1 {
            assert(s@.skip(1).len() == s@.len() - 1);
        }
        assert(t.take(0) =~= Seq::<char>::empty());
    }
    let mut acc: u64 = 0;
    let mut i = start;
    while i < len
        invariant
            start <= 1,
            start <= i <= len,
            len == s@.len(),
            start == 1 ==> s@.len() > 0 && s@[0] == '+' && t == s@.skip(1),
            start == 0 ==> t == s@ && (s@.len() == 0 || s@[0] != '+'),
            start < len,
            t.len() == len - start,
            acc <= u32::MAX,
            all_digits(t.take(i - start)),
            acc == dec_val(t.take(i - start)),
        decreases len - i,
    {
        let c = s.get_char(i);
        let cv = c as u32;
        proof {
            if start == 1 {
                assert(t[i - start] == s@.skip(1)[i - 1]);
                assert(s@.skip(1)[i - 1] == s@[i as int]);
            }
            assert(t[i - start] == s@[i as int]);
        }
        if cv < 48 || cv > 57 {
            proof {
                assert(!is_digit(t[i - start]));
            }
            return None;
        }
        let d = cv - 48;
        acc = acc * 10 + d as u64;
        proof {
            assert(t.take(i + 1 - start).drop_last() =~= t.take(i - start));
            assert(t.take(i + 1 - start).last() == t[i - start]);
        }
        if acc > u32::MAX as u64 {
            proof {
                if t.len() > 0 && all_digits(t) {
                    lemma_dec_val_prefix(t, i + 1 - start);
                }
            }
            return None;
        }
        i += 1;
    }
    proof {
        assert(t.take(len - start) =~= t);
    }
    Some(acc as u32)
}

} // verus!
