//! Unsigned decimal numbers as text: how a `u64` is written and read.

use vstd::prelude::*;
use crate::text::push_char;

verus! {

/// Whether `c` is one of the ten ASCII digits.
pub open spec fn is_digit(c: char) -> bool {
    '0' <= c && c <= '9'
}

/// The number that the digit `c` stands for.
pub open spec fn digit_value(c: char) -> nat
    recommends
        is_digit(c),
{
    (c as u32 - '0' as u32) as nat
}

/// The digit that stands for `d`.
pub open spec fn digit_char(d: nat) -> char
    recommends
        d < 10,
{
    (('0' as u32 + d) as u32) as char
}

/// Whether `s` holds digits only.
pub open spec fn all_digits(s: Seq<char>) -> bool {
    forall|i: int| 0 <= i < s.len() ==> is_digit(#[trigger] s[i])
}

/// The number written by the digits `s`, the most significant first.
pub open spec fn decimal_value(s: Seq<char>) -> nat
    decreases s.len(),
{
    if s.len() == 0 {
        0
    } else {
        decimal_value(s.drop_last()) * 10 + digit_value(s.last())
    }
}

/// The shortest decimal writing of `n`: no sign, no leading zero but for zero itself.
pub open spec fn decimal_text(n: nat) -> Seq<char>
    decreases n,
{
    if n < 10 {
        seq![digit_char(n)]
    } else {
        decimal_text(n / 10).push(digit_char(n % 10))
    }
}

/// What reading `s` as a `u64` gives: an optional `+`, then at least one digit
/// and nothing else, of a value that fits. Anything else is no number.
pub open spec fn parsed_u64(s: Seq<char>) -> Option<u64> {
    let digits = if s.len() > 0 && s[0] == '+' {
        s.skip(1)
    } else {
        s
    };
    if digits.len() > 0 && all_digits(digits) && decimal_value(digits) <= u64::MAX {
        Some(decimal_value(digits) as u64)
    } else {
        None
    }
}

/// A digit added at the end multiplies the value by ten and adds the digit.
pub proof fn lemma_value_push(s: Seq<char>, c: char)
    ensures
        decimal_value(s.push(c)) == decimal_value(s) * 10 + digit_value(c),
{
    assert(s.push(c).drop_last() =~= s);
}

/// A number is never smaller than the one written by its leading digits.
pub proof fn lemma_value_prefix(s: Seq<char>, k: int)
    requires
        0 <= k <= s.len(),
    ensures
        decimal_value(s.take(k)) <= decimal_value(s),
    decreases s.len() - k,
{
    if k == s.len() {
        assert(s.take(k) =~= s);
    } else {
        lemma_value_prefix(s, k + 1);
        assert(s.take(k + 1).drop_last() =~= s.take(k));
    }
}

/// The writing of a number is made of digits, at least one, and does not
/// begin with a sign.
pub proof fn lemma_decimal_text_shape(n: nat)
    ensures
        decimal_text(n).len() > 0,
        all_digits(decimal_text(n)),
        decimal_text(n)[0] != '+',
        decimal_text(n)[0] != '-',
    decreases n,
{
    if n >= 10 {
        lemma_decimal_text_shape(n / 10);
    }
}

/// Reading what was written gives the number back.
pub proof fn lemma_decimal_round_trip(n: nat)
    ensures
        decimal_value(decimal_text(n)) == n,
    decreases n,
{
    if n < 10 {
        lemma_value_push(Seq::<char>::empty(), digit_char(n));
    } else {
        lemma_decimal_round_trip(n / 10);
        lemma_value_push(decimal_text(n / 10), digit_char(n % 10));
    }
}

/// Every `u64`, once written, reads back as itself.
pub proof fn lemma_parse_written(n: u64)
    ensures
        parsed_u64(decimal_text(n as nat)) == Some(n),
{
    lemma_decimal_text_shape(n as nat);
    lemma_decimal_round_trip(n as nat);
}

/// Appends the decimal writing of `n` to `out`.
pub fn write_u64(out: &mut String, n: u64)
    ensures
        final(out)@ == old(out)@ + decimal_text(n as nat),
    decreases n,
{
    if n >= 10 {
        write_u64(out, n / 10);
    }
    let d: u8 = (n % 10) as u8;
    push_char(out, (48u8 + d) as char);
}

/// The decimal writing of `n`.
pub fn render_u64(n: u64) -> (s: String)
    ensures
        s@ == decimal_text(n as nat),
{
    let mut s = String::new();
    write_u64(&mut s, n);
    s
}

/// Reads `chars[from..to]` as a `u64`.
pub fn parse_u64(chars: &Vec<char>, from: usize, to: usize) -> (r: Option<u64>)
    requires
        from <= to <= chars.len(),
    ensures
        r == parsed_u64(chars@.subrange(from as int, to as int)),
{
    let ghost whole = chars@.subrange(from as int, to as int);
    let start: usize = if from < to && chars[from] == '+' {
        from + 1
    } else {
        from
    };
    let ghost digits = chars@.subrange(start as int, to as int);
    assert(digits =~= if whole.len() > 0 && whole[0] == '+' {
        whole.skip(1)
    } else {
        whole
    });
    if start == to {
        return None;
    }
    let mut value: u64 = 0;
    let mut i: usize = start;
    while i < to
        invariant
            start <= i <= to <= chars.len(),
            digits == chars@.subrange(start as int, to as int),
            digits.len() > 0,
            from <= to,
            whole == chars@.subrange(from as int, to as int),
            parsed_u64(whole) == if all_digits(digits) && decimal_value(digits) <= u64::MAX {
                Some(decimal_value(digits) as u64)
            } else {
                None
            },
            all_digits(digits.take(i - start)),
            value == decimal_value(digits.take(i - start)),
        decreases to - i,
    {
        let c = chars[i];
        if !(c >= '0' && c <= '9') {
            assert(!is_digit(digits[i - start]));
            return None;
        }
        let d: u64 = (c as u32 - '0' as u32) as u64;
        proof {
            assert(digits.take(i - start + 1) =~= digits.take(i - start).push(c));
            lemma_value_push(digits.take(i - start), c);
            lemma_value_prefix(digits, i - start + 1);
        }
        let next = match value.checked_mul(10) {
            Some(tens) => tens.checked_add(d),
            None => None,
        };
        match next {
            Some(v) => {
                value = v;
            },
            None => {
                return None;
            },
        }
        i += 1;
    }
    assert(digits.take(to - start) =~= digits);
    Some(value)
}

} // verus!
