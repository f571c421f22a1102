//! Decimal tokens: what it means for a token to be a well-formed
//! non-negative integer, parsing one into a `u32`, and rendering a
//! number back to its decimal text (used when building diagnostic
//! messages).

use vstd::prelude::*;

verus! {

/// The numeric value of a decimal digit character, or 10 for any
/// non-digit character.
pub open spec fn digit_val(c: char) -> nat {
    if c == '0' {
        0
    } else if c == '1' {
        1
    } else if c == '2' {
        2
    } else if c == '3' {
        3
    } else if c == '4' {
        4
    } else if c == '5' {
        5
    } else if c == '6' {
        6
    } else if c == '7' {
        7
    } else if c == '8' {
        8
    } else if c == '9' {
        9
    } else {
        10
    }
}

/// Whether `c` is a decimal digit.
pub open spec fn is_digit(c: char) -> bool {
    digit_val(c) < 10
}

/// The value of a sequence of digit characters read as a decimal
/// numeral (most significant digit first). Meaningful only when every
/// character is a digit.
pub open spec fn token_num(t: Seq<char>) -> nat
    decreases t.len(),
{
    if t.len() == 0 {
        0
    } else {
        token_num(t.drop_last()) * 10 + digit_val(t.last())
    }
}

/// Whether every character of `t` is a decimal digit.
pub open spec fn all_digits(t: Seq<char>) -> bool {
    forall|i: int| 0 <= i < t.len() ==> is_digit(#[trigger] t[i])
}

/// Whether `t` parses as a non-negative `u32`: non-empty, purely
/// numeric, and within range.
pub open spec fn token_parses(t: Seq<char>) -> bool {
    &&& t.len() > 0
    &&& all_digits(t)
    &&& token_num(t) <= u32::MAX
}

/// Dropping trailing characters never increases the decimal value.
proof fn lemma_token_num_prefix(t: Seq<char>, k: int)
    requires
        0 <= k <= t.len(),
    ensures
        token_num(t.subrange(0, k)) <= token_num(t),
    decreases t.len() - k,
{
    if k < t.len() {
        lemma_token_num_prefix(t, k + 1);
        assert(t.subrange(0, k + 1).drop_last() =~= t.subrange(0, k));
        assert(token_num(t.subrange(0, k + 1)) == token_num(t.subrange(0, k)) * 10 + digit_val(
            t.subrange(0, k + 1).last(),
        ));
    } else {
        assert(t.subrange(0, k) =~= t);
    }
}

/// The numeric value of a digit character, or 10 if `c` is not a
/// decimal digit.
pub fn digit_of(c: char) -> (d: u32)
    ensures
        d == digit_val(c),
{
    match c {
        '0' => 0,
        '1' => 1,
        '2' => 2,
        '3' => 3,
        '4' => 4,
        '5' => 5,
        '6' => 6,
        '7' => 7,
        '8' => 8,
        '9' => 9,
        _ => 10,
    }
}

/// Parse a token as a non-negative decimal `u32`.
///
/// Returns `Some` exactly when the token is non-empty, purely numeric,
/// and its value fits in a `u32`; the value is then the decimal reading
/// of the token.
pub fn parse_u32(token: &str) -> (r: Option<u32>)
    ensures
        match r {
            Some(v) => token_parses(token@) && v == token_num(token@),
            None => !token_parses(token@),
        },
{
    let n = token.unicode_len();
    if n == 0 {
        return None;
    }
    let mut acc: u64 = 0;
    let mut i: usize = 0;
    while i < n
        invariant
            0 <= i <= n,
            n == token@.len(),
            all_digits(token@.subrange(0, i as int)),
            acc == token_num(token@.subrange(0, i as int)),
            acc <= u32::MAX,
        decreases n - i,
    {
        let c = token.get_char(i);
        let d = digit_of(c);
        if d >= 10 {
            assert(!is_digit(token@[i as int]));
            return None;
        }
        let next: u64 = acc * 10 + d as u64;
        proof {
            assert(token@.subrange(0, i + 1).drop_last() =~= token@.subrange(0, i as int));
            assert(token@.subrange(0, i + 1).last() == token@[i as int]);
        }
        if next > u32::MAX as u64 {
            proof {
                if all_digits(token@) {
                    lemma_token_num_prefix(token@, i + 1);
                }
            }
            return None;
        }
        acc = next;
        i = i + 1;
    }
    proof {
        assert(token@.subrange(0, n as int) =~= token@);
    }
    Some(acc as u32)
}

/// The canonical decimal rendering of `n` (no sign, no leading zeros
/// except for the single digit of zero itself).
pub open spec fn dec_seq(n: nat) -> Seq<char>
    decreases n,
{
    if n < 10 {
        seq![digit_char(n)]
    } else {
        dec_seq(n / 10) + seq![digit_char(n % 10)]
    }
}

/// The digit character for a value below 10 (and '?' otherwise, which
/// no well-formed use reaches).
pub open spec fn digit_char(d: nat) -> char {
    if d == 0 {
        '0'
    } else if d == 1 {
        '1'
    } else if d == 2 {
        '2'
    } else if d == 3 {
        '3'
    } else if d == 4 {
        '4'
    } else if d == 5 {
        '5'
    } else if d == 6 {
        '6'
    } else if d == 7 {
        '7'
    } else if d == 8 {
        '8'
    } else if d == 9 {
        '9'
    } else {
        '?'
    }
}

/// The one-character string for a digit value.
fn digit_str(d: u64) -> (r: &'static str)
    requires
        d < 10,
    ensures
        r@ == seq![digit_char(d as nat)],
{
    proof {
        reveal_strlit("0");
        reveal_strlit("1");
        reveal_strlit("2");
        reveal_strlit("3");
        reveal_strlit("4");
        reveal_strlit("5");
        reveal_strlit("6");
        reveal_strlit("7");
        reveal_strlit("8");
        reveal_strlit("9");
    }
    let r = match d {
        0 => "0",
        1 => "1",
        2 => "2",
        3 => "3",
        4 => "4",
        5 => "5",
        6 => "6",
        7 => "7",
        8 => "8",
        _ => "9",
    };
    proof {
        assert(r@ =~= seq![digit_char(d as nat)]);
    }
    r
}

/// Render `n` in decimal.
pub fn u64_to_string(n: u64) -> (r: String)
    ensures
        r@ == dec_seq(n as nat),
    decreases n,
{
    if n < 10 {
        String::from_str(digit_str(n))
    } else {
        let prefix = u64_to_string(n / 10);
        prefix.concat(digit_str(n % 10))
    }
}

} // verus!
