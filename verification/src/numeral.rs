//! Unsigned decimal numerals: what they are, what they are worth, and a
//! parser proved against that definition.

use vstd::prelude::*;
use vstd::string::*;

verus! {

/// Whether `c` is one of the ten ASCII digits.
pub open spec fn is_digit(c: char) -> bool {
    '0' <= c && c <= '9'
}

/// The number a digit stands for; zero for any other character.
pub open spec fn digit_value(c: char) -> nat {
    if is_digit(c) {
        (c as int - '0' as int) as nat
    } else {
        0
    }
}

/// Whether every character of `s` is an ASCII digit.
pub open spec fn all_digits(s: Seq<char>) -> bool {
    forall|i: int| 0 <= i < s.len() ==> is_digit(#[trigger] s[i])
}

/// The value of a digit string read in base ten, most significant digit
/// first. The empty string is worth zero.
pub open spec fn digits_value(s: Seq<char>) -> nat
    decreases s.len(),
{
    if s.len() == 0 {
        0
    } else {
        10 * digits_value(s.drop_last()) + digit_value(s.last())
    }
}

/// The digits of a numeral: the text itself, without one leading `+` if
/// there is one.
pub open spec fn numeral_digits(s: Seq<char>) -> Seq<char> {
    if s.len() > 0 && s[0] == '+' {
        s.skip(1)
    } else {
        s
    }
}

/// Whether `s` is an unsigned decimal numeral: an optional `+` followed
/// by at least one ASCII digit and nothing else.
pub open spec fn is_numeral(s: Seq<char>) -> bool {
    numeral_digits(s).len() > 0 && all_digits(numeral_digits(s))
}

/// The number that the numeral `s` denotes.
pub open spec fn numeral_value(s: Seq<char>) -> nat {
    digits_value(numeral_digits(s))
}

/// Whether `s` is a numeral whose value does not exceed `max`.
pub open spec fn denotes_at_most(s: Seq<char>, max: nat) -> bool {
    is_numeral(s) && numeral_value(s) <= max
}

/// A prefix of a digit string is never worth more than the whole string.
pub proof fn lemma_prefix_value_le(s: Seq<char>, k: int)
    requires
        0 <= k <= s.len(),
    ensures
        digits_value(s.take(k)) <= digits_value(s),
    decreases s.len(),
{
    if k == s.len() {
        assert(s.take(k) =~= s);
    } else {
        lemma_prefix_value_le(s.drop_last(), k);
        assert(s.drop_last().take(k) =~= s.take(k));
    }
}

/// Appending one character multiplies the value by ten and adds the digit.
pub proof fn lemma_value_push(s: Seq<char>, c: char)
    ensures
        digits_value(s.push(c)) == 10 * digits_value(s) + digit_value(c),
{
    assert(s.push(c).drop_last() =~= s);
    assert(s.push(c).last() == c);
}

/// The character that writes a number below ten.
pub open spec fn digit_char(d: nat) -> char
    recommends
        d < 10,
{
    ('0' as nat + d) as char
}

/// The usual way to write `n` in base ten: no sign and no leading zeros,
/// a single `0` for zero.
pub open spec fn decimal_digits(n: nat) -> Seq<char>
    decreases n,
{
    if n < 10 {
        seq![digit_char(n)]
    } else {
        decimal_digits(n / 10).push(digit_char(n % 10))
    }
}

/// Writing a number in base ten gives a numeral that denotes that number.
pub proof fn lemma_decimal_digits_denote(n: nat)
    ensures
        is_numeral(decimal_digits(n)),
        numeral_value(decimal_digits(n)) == n,
        numeral_digits(decimal_digits(n)) == decimal_digits(n),
    decreases n,
{
    let s = decimal_digits(n);
    if n < 10 {
        assert(is_digit(digit_char(n)));
        assert(digit_value(digit_char(n)) == n);
        assert(s =~= Seq::<char>::empty().push(digit_char(n)));
        lemma_value_push(Seq::<char>::empty(), digit_char(n));
        assert(s[0] == digit_char(n));
    } else {
        let head = decimal_digits(n / 10);
        let c = digit_char(n % 10);
        lemma_decimal_digits_denote(n / 10);
        assert(digit_value(c) == n % 10);
        assert(s[0] == head[0]);
        assert(is_digit(head[0]));
        lemma_value_push(head, c);
        assert forall|i: int| 0 <= i < s.len() implies is_digit(#[trigger] s[i]) by {
            if i < head.len() {
                assert(s[i] == head[i]);
            }
        }
    }
}

/// Reads `s` as an unsigned decimal numeral no greater than `max`.
///
/// Returns the value exactly when `s` is a numeral that denotes at most
/// `max`; any other text, and any larger number, gives `None`. Leading
/// zeros are allowed and do not change the value.
pub fn parse_decimal(s: &str, max: u64) -> (r: Option<u64>)
    ensures
        r is Some <==> denotes_at_most(s@, max as nat),
        r matches Some(v) ==> v as nat == numeral_value(s@),
{
    broadcast use is_ascii_spec_bytes;

    if !s.is_ascii() {
        proof {
            let j = choose|j: int| 0 <= j < s@.len() && !('\0' <= #[trigger] s@[j] <= '\u{7f}');
            if s@[0] == '+' {
                assert(numeral_digits(s@)[j - 1] == s@[j]);
            }
        }
        return None;
    }
    let bytes = s.as_bytes();
    let n = bytes.len();
    let start: usize = if n > 0 && bytes[0] == 43u8 { 1 } else { 0 };
    let ghost digits = numeral_digits(s@);
    assert(digits == s@.skip(start as int));
    if start == n {
        return None;
    }
    let mut acc: u64 = 0;
    let mut i: usize = start;
    assert(digits.take(0) =~= Seq::<char>::empty());
    while i < n
        invariant
            start <= i <= n,
            n == s@.len(),
            n == bytes@.len(),
            is_ascii(s),
            bytes@ == s.spec_bytes(),
            digits == s@.skip(start as int),
            digits == numeral_digits(s@),
            all_digits(digits.take(i - start)),
            acc as nat == digits_value(digits.take(i - start)),
            acc <= max,
        decreases n - i,
    {
        let b = bytes[i];
        let ghost c = s@[i as int];
        assert(b == c as u8);
        assert(c == digits[i - start]);
        if b < 48u8 || b > 57u8 {
            return None;
        }
        assert(is_digit(c));
        let d: u64 = (b - 48u8) as u64;
        proof {
            assert(digits.take(i - start + 1) =~= digits.take(i - start).push(c));
            lemma_value_push(digits.take(i - start), c);
            lemma_prefix_value_le(digits, i - start + 1);
        }
        if d > max || acc > (max - d) / 10 {
            return None;
        }
        acc = acc * 10 + d;
        i += 1;
    }
    assert(digits.take(n - start) =~= digits);
    Some(acc)
}

} // verus!
