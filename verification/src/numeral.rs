//! Decimal numerals: rendering an unsigned number as the sequence of
//! its decimal digits, reading such a sequence back, and the facts
//! connecting the two.

use vstd::prelude::*;
use vstd::arithmetic::div_mod::lemma_fundamental_div_mod;

verus! {

/// Whether `c` is one of the characters `'0'` through `'9'`.
pub open spec fn is_dec_digit(c: char) -> bool {
    48 <= c as u32 <= 57
}

/// The numeric value of a digit character.
pub open spec fn digit_val(c: char) -> int {
    c as u32 - 48
}

/// The digit character for a value below ten.
pub open spec fn char_of_digit(d: int) -> char {
    if d == 0 {
        '0'
    } else if d == 1 {
        '1'
    } else if d == 2 {
        '2'
    } else if d == 3 {
        '3'
    } else if d == 4 {
        '4'
    } else if d == 5 {
        '5'
    } else if d == 6 {
        '6'
    } else if d == 7 {
        '7'
    } else if d == 8 {
        '8'
    } else {
        '9'
    }
}

/// A nonempty sequence of decimal digits.
pub open spec fn is_dec_seq(s: Seq<char>) -> bool {
    s.len() > 0 && forall|i: int| 0 <= i < s.len() ==> is_dec_digit(#[trigger] s[i])
}

/// The number that a digit sequence denotes, most significant digit
/// first.
pub open spec fn dec_val(s: Seq<char>) -> int
    decreases s.len(),
{
    if s.len() == 0 {
        0
    } else {
        dec_val(s.drop_last()) * 10 + digit_val(s.last())
    }
}

/// The decimal digits of `n`, without leading zeros (a single `'0'`
/// for zero itself).
pub open spec fn dec_digits(n: nat) -> Seq<char>
    decreases n,
{
    if n < 10 {
        seq![char_of_digit(n as int)]
    } else {
        dec_digits(n / 10).push(char_of_digit((n % 10) as int))
    }
}

/// A digit character round-trips through its value.
pub proof fn lemma_char_of_digit_val(d: int)
    requires
        0 <= d < 10,
    ensures
        is_dec_digit(char_of_digit(d)),
        digit_val(char_of_digit(d)) == d,
{
}

/// Reading back the digits of `n` yields `n`, and those digits are a
/// digit sequence.
pub proof fn lemma_dec_digits_val(n: nat)
    ensures
        is_dec_seq(dec_digits(n)),
        dec_val(dec_digits(n)) == n,
    decreases n,
{
    if n < 10 {
        let s = dec_digits(n);
        lemma_char_of_digit_val(n as int);
        assert(s.drop_last() =~= Seq::<char>::empty());
        assert(dec_val(Seq::<char>::empty()) == 0);
        assert(s.last() == char_of_digit(n as int));
        assert(dec_val(s) == dec_val(s.drop_last()) * 10 + digit_val(s.last()));
    } else {
        lemma_dec_digits_val(n / 10);
        lemma_char_of_digit_val((n % 10) as int);
        let prefix = dec_digits(n / 10);
        let c = char_of_digit((n % 10) as int);
        let s = prefix.push(c);
        assert(s.drop_last() =~= prefix);
        assert(s.last() == c);
        assert(dec_val(s) == dec_val(prefix) * 10 + digit_val(c));
        lemma_fundamental_div_mod(n as int, 10);
    }
}

/// Extending a digit prefix by one character multiplies its value by
/// ten and adds the new digit.
pub proof fn lemma_dec_val_take_succ(s: Seq<char>, i: int)
    requires
        0 <= i < s.len(),
    ensures
        dec_val(s.take(i + 1)) == dec_val(s.take(i)) * 10 + digit_val(s[i]),
{
    assert(s.take(i + 1).drop_last() =~= s.take(i));
    assert(s.take(i + 1).last() == s[i]);
}

/// Over digit characters the denoted value never shrinks as the
/// prefix grows.
pub proof fn lemma_dec_val_take_monotone(s: Seq<char>, i: int, j: int)
    requires
        0 <= i <= j <= s.len(),
        forall|k: int| 0 <= k < s.len() ==> is_dec_digit(#[trigger] s[k]),
    ensures
        dec_val(s.take(i)) <= dec_val(s.take(j)),
    decreases j - i,
{
    if i < j {
        lemma_dec_val_take_monotone(s, i, j - 1);
        lemma_dec_val_take_succ(s, j - 1);
        lemma_dec_val_nonneg(s, j - 1);
    }
}

/// The value of a digit prefix is never negative.
pub proof fn lemma_dec_val_nonneg(s: Seq<char>, i: int)
    requires
        0 <= i <= s.len(),
        forall|k: int| 0 <= k < s.len() ==> is_dec_digit(#[trigger] s[k]),
    ensures
        dec_val(s.take(i)) >= 0,
    decreases i,
{
    if i > 0 {
        lemma_dec_val_nonneg(s, i - 1);
        lemma_dec_val_take_succ(s, i - 1);
    } else {
        assert(s.take(0) =~= Seq::<char>::empty());
    }
}

/// A digit sequence denotes a nonnegative value.
pub proof fn lemma_dec_seq_val_nonneg(s: Seq<char>)
    requires
        is_dec_seq(s),
    ensures
        dec_val(s) >= 0,
{
    lemma_dec_val_nonneg(s, s.len() as int);
    assert(s.take(s.len() as int) =~= s);
}

/// The one-character string for a digit value.
fn digit_str(d: usize) -> (s: &'static str)
    requires
        d < 10,
    ensures
        s@ =~= seq![char_of_digit(d as int)],
{
    proof {
        reveal_strlit("0");
        reveal_strlit("1");
        reveal_strlit("2");
        reveal_strlit("3");
        reveal_strlit("4");
        reveal_strlit("5");
        reveal_strlit("6");
        reveal_strlit("7");
        reveal_strlit("8");
        reveal_strlit("9");
    }
    if d == 0 {
        "0"
    } else if d == 1 {
        "1"
    } else if d == 2 {
        "2"
    } else if d == 3 {
        "3"
    } else if d == 4 {
        "4"
    } else if d == 5 {
        "5"
    } else if d == 6 {
        "6"
    } else if d == 7 {
        "7"
    } else if d == 8 {
        "8"
    } else {
        "9"
    }
}

/// Renders `n` in decimal.
pub fn usize_to_dec(n: usize) -> (s: String)
    ensures
        s@ == dec_digits(n as nat),
    decreases n,
{
    if n < 10 {
        let s = String::from_str(digit_str(n));
        proof {
            assert(s@ =~= dec_digits(n as nat));
        }
        s
    } else {
        let mut s = usize_to_dec(n / 10);
        s.append(digit_str(n % 10));
        proof {
            assert(s@ =~= dec_digits(n as nat));
        }
        s
    }
}

/// Reads a decimal numeral. Returns the denoted value exactly when
/// the whole input is a nonempty digit string whose value fits in
/// `usize`; returns nothing otherwise.
pub fn parse_dec_usize(s: &str) -> (parsed: Option<usize>)
    ensures
        is_dec_seq(s@) && dec_val(s@) <= usize::MAX ==> parsed == Some(dec_val(s@) as usize),
        !(is_dec_seq(s@) && dec_val(s@) <= usize::MAX) ==> parsed is None,
{
    let len = s.unicode_len();
    if len == 0 {
        return None;
    }
    let mut acc: usize = 0;
    let mut i: usize = 0;
    while i < len
        invariant
            i <= len,
            len == s@.len(),
            forall|j: int| 0 <= j < i ==> is_dec_digit(#[trigger] s@[j]),
            acc as int == dec_val(s@.take(i as int)),
        decreases len - i,
    {
        let c = s.get_char(i);
        let u = c as u32;
        if u < 48 || u > 57 {
            return None;
        }
        let d = (u - 48) as usize;
        let stepped = match acc.checked_mul(10) {
            Some(base) => base.checked_add(d),
            None => None,
        };
        match stepped {
            Some(v) => {
                proof {
                    lemma_dec_val_take_succ(s@, i as int);
                }
                acc = v;
            },
            None => {
                proof {
                    lemma_dec_val_take_succ(s@, i as int);
                    assert(forall|k: int| 0 <= k < s@.len() ==> is_dec_digit(#[trigger] s@[k]) || !(
                    is_dec_seq(s@)));
                    if is_dec_seq(s@) {
                        lemma_dec_val_take_monotone(s@, i as int + 1, s@.len() as int);
                        assert(s@.take(s@.len() as int) =~= s@);
                    }
                }
                return None;
            },
        }
        i += 1;
    }
    proof {
        assert(s@.take(len as int) =~= s@);
    }
    Some(acc)
}

/// Reads a decimal numeral into a `u32`, under the same contract as
/// the `usize` reader.
pub fn parse_dec_u32(s: &str) -> (parsed: Option<u32>)
    ensures
        is_dec_seq(s@) && dec_val(s@) <= u32::MAX ==> parsed == Some(dec_val(s@) as u32),
        !(is_dec_seq(s@) && dec_val(s@) <= u32::MAX) ==> parsed is None,
{
    let len = s.unicode_len();
    if len == 0 {
        return None;
    }
    let mut acc: u32 = 0;
    let mut i: usize = 0;
    while i < len
        invariant
            i <= len,
            len == s@.len(),
            forall|j: int| 0 <= j < i ==> is_dec_digit(#[trigger] s@[j]),
            acc as int == dec_val(s@.take(i as int)),
        decreases len - i,
    {
        let c = s.get_char(i);
        let u = c as u32;
        if u < 48 || u > 57 {
            return None;
        }
        let d = u - 48;
        let stepped = match acc.checked_mul(10) {
            Some(base) => base.checked_add(d),
            None => None,
        };
        match stepped {
            Some(v) => {
                proof {
                    lemma_dec_val_take_succ(s@, i as int);
                }
                acc = v;
            },
            None => {
                proof {
                    lemma_dec_val_take_succ(s@, i as int);
                    if is_dec_seq(s@) {
                        lemma_dec_val_take_monotone(s@, i as int + 1, s@.len() as int);
                        assert(s@.take(s@.len() as int) =~= s@);
                    }
                }
                return None;
            },
        }
        i += 1;
    }
    proof {
        assert(s@.take(len as int) =~= s@);
    }
    Some(acc)
}

} // verus!
