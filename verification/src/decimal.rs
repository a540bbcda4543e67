//! Decimal text for 32-bit signed integers, as path parameters carry them.

use vstd::prelude::*;

verus! {

/// Whether `c` is one of the ten ASCII digits.
pub open spec fn is_digit(c: char) -> bool {
    '0' <= c && c <= '9'
}

/// The number a digit stands for.
pub open spec fn digit_value(c: char) -> int {
    c as int - '0' as int
}

/// Whether every character of `s` is an ASCII digit.
pub open spec fn all_digits(s: Seq<char>) -> bool {
    forall|i: int| 0 <= i < s.len() ==> is_digit(#[trigger] s[i])
}

/// The number that a run of digits denotes, most significant digit first.
pub open spec fn digits_value(s: Seq<char>) -> int
    decreases s.len(),
{
    if s.len() == 0 {
        0
    } else {
        digits_value(s.drop_last()) * 10 + digit_value(s.last())
    }
}

/// The part of `s` behind an optional leading sign.
pub open spec fn unsigned_part(s: Seq<char>) -> Seq<char> {
    if s.len() > 0 && (s[0] == '-' || s[0] == '+') {
        s.drop_first()
    } else {
        s
    }
}

/// The integer that `s` denotes: an optional `+` or `-`, then one or more
/// digits. `None` where `s` has another shape or the number does not fit
/// in 32 bits.
pub open spec fn decimal_i32(s: Seq<char>) -> Option<i32> {
    let digits = unsigned_part(s);
    let magnitude = digits_value(digits);
    let value = if s.len() > 0 && s[0] == '-' {
        -magnitude
    } else {
        magnitude
    };
    if digits.len() > 0 && all_digits(digits) && i32::MIN <= value <= i32::MAX {
        Some(value as i32)
    } else {
        None
    }
}

/// A run of digits denotes at least what any of its prefixes denotes.
pub proof fn lemma_digits_value_prefix(s: Seq<char>, k: int)
    requires
        all_digits(s),
        0 <= k <= s.len(),
    ensures
        0 <= digits_value(s.subrange(0, k)) <= digits_value(s),
    decreases s.len() - k,
{
    if k == s.len() {
        assert(s.subrange(0, k) =~= s);
        lemma_digits_value_nonnegative(s);
    } else {
        lemma_digits_value_prefix(s, k + 1);
        let longer = s.subrange(0, k + 1);
        assert(longer.drop_last() =~= s.subrange(0, k));
        lemma_digits_value_nonnegative(s.subrange(0, k));
    }
}

/// A run of digits denotes no negative number.
pub proof fn lemma_digits_value_nonnegative(s: Seq<char>)
    requires
        all_digits(s),
    ensures
        0 <= digits_value(s),
    decreases s.len(),
{
    if s.len() > 0 {
        lemma_digits_value_nonnegative(s.drop_last());
    }
}

/// Reads a 32-bit signed integer from its decimal text.
pub fn parse_i32(text: &str) -> (r: Option<i32>)
    ensures
        r == decimal_i32(text@),
{
    let n: usize = text.unicode_len();
    if n == 0 {
        return None;
    }
    let first = text.get_char(0);
    let negative = first == '-';
    let start: usize = if first == '-' || first == '+' {
        1
    } else {
        0
    };
    let ghost digits = unsigned_part(text@);
    if start == n {
        return None;
    }
    let mut acc: i64 = 0;
    let mut i: usize = start;
    while i < n
        invariant
            start <= i <= n,
            n == text@.len(),
            digits == unsigned_part(text@),
            digits.len() == n - start,
            all_digits(digits.subrange(0, i - start)),
            acc == digits_value(digits.subrange(0, i - start)),
            0 <= acc <= 2147483648,
        decreases n - i,
    {
        let c = text.get_char(i);
        assert(c == digits[i - start]);
        if !('0' <= c && c <= '9') {
            return None;
        }
        let d: i64 = (c as u32 - '0' as u32) as i64;
        let next: i64 = acc * 10 + d;
        proof {
            let longer = digits.subrange(0, i - start + 1);
            assert(longer.drop_last() =~= digits.subrange(0, i - start));
            assert forall|j: int| 0 <= j < longer.len() implies is_digit(#[trigger] longer[j]) by {}
        }
        if next > 2147483648 {
            proof {
                if all_digits(digits) {
                    lemma_digits_value_prefix(digits, i - start + 1);
                }
            }
            return None;
        }
        acc = next;
        i = i + 1;
    }
    assert(digits.subrange(0, i - start) =~= digits);
    let value: i64 = if negative {
        -acc
    } else {
        acc
    };
    if value > 2147483647 {
        None
    } else {
        Some(value as i32)
    }
}

/// The character that writes the digit `d`.
pub open spec fn digit_char(d: int) -> char {
    "0123456789"@[d]
}

/// The decimal text of a natural number, without leading zeros.
pub open spec fn natural_text(n: nat) -> Seq<char>
    decreases n,
{
    if n < 10 {
        seq![digit_char(n as int)]
    } else {
        natural_text(n / 10).push(digit_char((n % 10) as int))
    }
}

/// The decimal text of an integer: a `-` for a negative number, then the
/// digits of its magnitude.
pub open spec fn decimal_text(v: int) -> Seq<char> {
    if v < 0 {
        seq!['-'] + natural_text((-v) as nat)
    } else {
        natural_text(v as nat)
    }
}

/// The characters of a list of digits that was collected from the least
/// significant end.
pub open spec fn reversed_digits(low: Seq<u8>) -> Seq<char> {
    Seq::new(low.len(), |i: int| digit_char(low[low.len() - 1 - i] as int))
}

/// Each digit character is a digit and stands for its number.
pub proof fn lemma_digit_char(d: int)
    requires
        0 <= d < 10,
    ensures
        is_digit(digit_char(d)),
        digit_value(digit_char(d)) == d,
        digit_char(d) != '-',
        digit_char(d) != '+',
{
    reveal_strlit("0123456789");
}

/// The text of a natural number is a run of digits that denotes it.
pub proof fn lemma_natural_text(n: nat)
    ensures
        natural_text(n).len() > 0,
        all_digits(natural_text(n)),
        digits_value(natural_text(n)) == n,
    decreases n,
{
    let s = natural_text(n);
    if n < 10 {
        lemma_digit_char(n as int);
        assert(digits_value(s.drop_last()) == 0);
    } else {
        lemma_natural_text(n / 10);
        lemma_digit_char((n % 10) as int);
        assert(s.drop_last() =~= natural_text(n / 10));
    }
}

/// Reading the text that was written for an integer gives the integer back.
pub proof fn lemma_decimal_round_trip(v: i32)
    ensures
        decimal_i32(decimal_text(v as int)) == Some(v),
{
    if v < 0 {
        lemma_natural_text((-v) as nat);
        assert(decimal_text(v as int).drop_first() =~= natural_text((-v) as nat));
    } else {
        lemma_natural_text(v as nat);
    }
}

/// The one-character text of the digit `d`.
fn digit_str(d: u8) -> (r: &'static str)
    requires
        d < 10,
    ensures
        r@ == seq![digit_char(d as int)],
{
    proof {
        reveal_strlit("0123456789");
    }
    "0123456789".substring_char(d as usize, d as usize + 1)
}

/// Writes a 32-bit signed integer as decimal text.
pub fn format_i32(value: i32) -> (text: String)
    ensures
        text@ == decimal_text(value as int),
{
    let mut out = String::new();
    let magnitude: u32 = if value < 0 {
        proof {
            reveal_strlit("-");
        }
        out.append("-");
        (-(value as i64)) as u32
    } else {
        value as u32
    };
    let ghost sign = out@;
    assert(sign =~= if value < 0 {
        seq!['-']
    } else {
        Seq::<char>::empty()
    });
    let mut low: Vec<u8> = Vec::new();
    low.push((magnitude % 10) as u8);
    let mut rest: u32 = magnitude / 10;
    assert(natural_text(magnitude as nat) =~= (if rest > 0 {
        natural_text(rest as nat)
    } else {
        Seq::<char>::empty()
    }) + reversed_digits(low@));
    while rest > 0
        invariant
            forall|j: int| 0 <= j < low@.len() ==> low@[j] < 10,
            natural_text(magnitude as nat) == (if rest > 0 {
                natural_text(rest as nat)
            } else {
                Seq::<char>::empty()
            }) + reversed_digits(low@),
        decreases rest,
    {
        low.push((rest % 10) as u8);
        rest = rest / 10;
    }
    let ghost digits = reversed_digits(low@);
    let mut j: usize = low.len();
    while j > 0
        invariant
            j <= low@.len(),
            forall|k: int| 0 <= k < low@.len() ==> low@[k] < 10,
            digits == reversed_digits(low@),
            out@ == sign + digits.subrange(0, low@.len() - j),
        decreases j,
    {
        j = j - 1;
        out.append(digit_str(low[j]));
    }
    out
}

} // verus!
