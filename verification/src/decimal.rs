//! Decimal numerals: how identities and counts are written in messages and
//! in storage, and how they are read back.

use crate::text::chars_of;
use vstd::prelude::*;
use vstd::string::StringExecFns;

verus! {

/// The character that writes the digit `d`.
pub open spec fn digit_char(d: nat) -> char {
    if d == 0 {
        '0'
    } else if d == 1 {
        '1'
    } else if d == 2 {
        '2'
    } else if d == 3 {
        '3'
    } else if d == 4 {
        '4'
    } else if d == 5 {
        '5'
    } else if d == 6 {
        '6'
    } else if d == 7 {
        '7'
    } else if d == 8 {
        '8'
    } else {
        '9'
    }
}

/// The digit that `c` writes, if it writes one.
pub open spec fn digit_of(c: char) -> Option<nat> {
    if c == '0' {
        Some(0)
    } else if c == '1' {
        Some(1)
    } else if c == '2' {
        Some(2)
    } else if c == '3' {
        Some(3)
    } else if c == '4' {
        Some(4)
    } else if c == '5' {
        Some(5)
    } else if c == '6' {
        Some(6)
    } else if c == '7' {
        Some(7)
    } else if c == '8' {
        Some(8)
    } else if c == '9' {
        Some(9)
    } else {
        None
    }
}

/// The decimal numeral of `n`: no sign, no leading zero, `"0"` for zero.
pub open spec fn decimal(n: nat) -> Seq<char>
    decreases n,
{
    if n < 10 {
        seq![digit_char(n)]
    } else {
        decimal(n / 10).push(digit_char(n % 10))
    }
}

/// The number that a sequence of digits writes, read from the left.
pub open spec fn digits_value(s: Seq<char>) -> nat
    decreases s.len(),
{
    if s.len() == 0 {
        0
    } else {
        digits_value(s.drop_last()) * 10 + match digit_of(s.last()) {
            Some(d) => d,
            None => 0,
        }
    }
}

/// `s` is a numeral as `decimal` writes them: one digit or more, every
/// character a digit, and no leading zero before another digit.
pub open spec fn is_numeral(s: Seq<char>) -> bool {
    &&& s.len() >= 1
    &&& forall|i: int| 0 <= i < s.len() ==> digit_of(#[trigger] s[i]) is Some
    &&& (s.len() > 1 ==> s[0] != '0')
}

/// The number that `s` is the numeral of, if it is a numeral and the number
/// fits in 64 bits.
pub open spec fn numeral_value(s: Seq<char>) -> Option<u64> {
    if is_numeral(s) && digits_value(s) <= u64::MAX {
        Some(digits_value(s) as u64)
    } else {
        None
    }
}

/// Every numeral that `decimal` writes is well formed and reads back as the
/// number it was written for.
pub proof fn lemma_decimal_reads_back(n: nat)
    ensures
        is_numeral(decimal(n)),
        digits_value(decimal(n)) == n,
    decreases n,
{
    if n < 10 {
        let s = decimal(n);
        assert(s.drop_last() =~= Seq::<char>::empty());
        assert(digits_value(s.drop_last()) == 0);
    } else {
        lemma_decimal_reads_back(n / 10);
        let t = decimal(n / 10);
        let s = decimal(n);
        assert(s.drop_last() =~= t);
        assert(s.last() == digit_char(n % 10));
        assert(s[0] == t[0]);
        if t.len() == 1 {
            assert(t.drop_last() =~= Seq::<char>::empty());
            assert(digits_value(t.drop_last()) == 0);
            assert(t[0] != '0');
        }
        assert forall|i: int| 0 <= i < s.len() implies digit_of(#[trigger] s[i]) is Some by {
            if i < t.len() {
                assert(s[i] == t[i]);
            }
        }
    }
}

/// A well-formed numeral that starts with a digit other than zero writes a
/// number that is at least one.
proof fn lemma_leading_digit_counts(s: Seq<char>)
    requires
        s.len() >= 1,
        forall|i: int| 0 <= i < s.len() ==> digit_of(#[trigger] s[i]) is Some,
        s[0] != '0',
    ensures
        digits_value(s) >= 1,
    decreases s.len(),
{
    if s.len() == 1 {
        assert(s.drop_last() =~= Seq::<char>::empty());
        assert(digits_value(s.drop_last()) == 0);
        assert(s.last() == s[0]);
    } else {
        let t = s.drop_last();
        assert(t[0] == s[0]);
        assert forall|i: int| 0 <= i < t.len() implies digit_of(#[trigger] t[i]) is Some by {
            assert(t[i] == s[i]);
        }
        lemma_leading_digit_counts(t);
    }
}

/// A well-formed numeral is the numeral of the number it writes.
pub proof fn lemma_numeral_is_decimal(s: Seq<char>)
    requires
        is_numeral(s),
    ensures
        decimal(digits_value(s)) == s,
    decreases s.len(),
{
    let t = s.drop_last();
    let d = digit_of(s.last())->0;
    assert(digit_of(s[s.len() - 1]) is Some);
    assert(digit_char(d) == s.last());
    if s.len() == 1 {
        assert(t =~= Seq::<char>::empty());
        assert(digits_value(t) == 0);
        assert(decimal(d) =~= s);
    } else {
        assert(t[0] == s[0]);
        assert forall|i: int| 0 <= i < t.len() implies digit_of(#[trigger] t[i]) is Some by {
            assert(t[i] == s[i]);
        }
        lemma_leading_digit_counts(t);
        lemma_numeral_is_decimal(t);
        let v = digits_value(t);
        assert(digits_value(s) == v * 10 + d);
        assert((v * 10 + d) / 10 == v && (v * 10 + d) % 10 == d);
        assert(decimal(digits_value(s)) =~= t.push(s.last()));
        assert(t.push(s.last()) =~= s);
    }
}

/// Two numbers with the same numeral are the same number.
pub proof fn lemma_decimal_injective(a: nat, b: nat)
    requires
        decimal(a) == decimal(b),
    ensures
        a == b,
{
    lemma_decimal_reads_back(a);
    lemma_decimal_reads_back(b);
}

/// Reading undoes writing: the numeral of `n` has the value `n`.
pub proof fn lemma_numeral_value_of_decimal(n: u64)
    ensures
        numeral_value(decimal(n as nat)) == Some(n),
{
    lemma_decimal_reads_back(n as nat);
}

/// Writing undoes reading: a text with a value is the numeral of that value.
pub proof fn lemma_numeral_value_is_decimal(s: Seq<char>)
    requires
        numeral_value(s) is Some,
    ensures
        decimal(numeral_value(s)->0 as nat) == s,
{
    lemma_numeral_is_decimal(s);
}

/// Appending digits never makes the written number smaller.
proof fn lemma_prefix_value_bounded(s: Seq<char>, k: int)
    requires
        0 <= k <= s.len(),
    ensures
        digits_value(s.take(k)) <= digits_value(s),
    decreases s.len() - k,
{
    if k < s.len() {
        lemma_prefix_value_bounded(s.drop_last(), k);
        assert(s.drop_last().take(k) =~= s.take(k));
    } else {
        assert(s.take(k) =~= s);
    }
}

fn digit_text(d: u64) -> (text: &'static str)
    requires
        d < 10,
    ensures
        text@ == seq![digit_char(d as nat)],
{
    proof {
        reveal_strlit("0");
        reveal_strlit("1");
        reveal_strlit("2");
        reveal_strlit("3");
        reveal_strlit("4");
        reveal_strlit("5");
        reveal_strlit("6");
        reveal_strlit("7");
        reveal_strlit("8");
        reveal_strlit("9");
    }
    let text = if d == 0 {
        "0"
    } else if d == 1 {
        "1"
    } else if d == 2 {
        "2"
    } else if d == 3 {
        "3"
    } else if d == 4 {
        "4"
    } else if d == 5 {
        "5"
    } else if d == 6 {
        "6"
    } else if d == 7 {
        "7"
    } else if d == 8 {
        "8"
    } else {
        "9"
    };
    assert(text@ =~= seq![digit_char(d as nat)]);
    text
}

/// Writes `n` as a decimal numeral.
pub fn format_u64(n: u64) -> (text: String)
    ensures
        text@ == decimal(n as nat),
    decreases n,
{
    if n < 10 {
        String::from_str(digit_text(n))
    } else {
        let mut text = format_u64(n / 10);
        text.append(digit_text(n % 10));
        text
    }
}

fn digit_value(c: char) -> (d: Option<u64>)
    ensures
        match d {
            Some(d) => d < 10 && digit_of(c) == Some(d as nat),
            None => digit_of(c) is None,
        },
{
    if c == '0' {
        Some(0)
    } else if c == '1' {
        Some(1)
    } else if c == '2' {
        Some(2)
    } else if c == '3' {
        Some(3)
    } else if c == '4' {
        Some(4)
    } else if c == '5' {
        Some(5)
    } else if c == '6' {
        Some(6)
    } else if c == '7' {
        Some(7)
    } else if c == '8' {
        Some(8)
    } else if c == '9' {
        Some(9)
    } else {
        None
    }
}

/// What `numeral_value` means in terms of `decimal`: it is `Some(n)` exactly
/// when the text is the numeral of `n`, and `n` fits in 64 bits.
pub proof fn lemma_numeral_value_meaning(s: Seq<char>)
    ensures
        match numeral_value(s) {
            Some(n) => decimal(n as nat) == s,
            None => forall|n: nat| n <= u64::MAX ==> decimal(n) != s,
        },
{
    if numeral_value(s) is Some {
        lemma_numeral_value_is_decimal(s);
    } else {
        assert forall|n: nat| n <= u64::MAX implies decimal(n) != s by {
            lemma_decimal_reads_back(n);
        }
    }
}

fn read_numeral(chars: &Vec<char>) -> (parsed: Option<u64>)
    ensures
        parsed == numeral_value(chars@),
{
    let len = chars.len();
    if len == 0 || (len > 1 && chars[0] == '0') {
        return None;
    }
    let mut value: u64 = 0;
    let mut i: usize = 0;
    while i < len
        invariant
            len == chars.len(),
            i <= len,
            value == digits_value(chars@.take(i as int)),
            forall|k: int| 0 <= k < i ==> digit_of(#[trigger] chars@[k]) is Some,
        decreases len - i,
    {
        proof {
            assert(chars@.take(i + 1).drop_last() =~= chars@.take(i as int));
            assert(chars@.take(i + 1).last() == chars@[i as int]);
            lemma_prefix_value_bounded(chars@, i + 1);
        }
        let d: u64 = match digit_value(chars[i]) {
            Some(d) => d,
            None => {
                return None;
            },
        };
        if value > (u64::MAX - d) / 10 {
            return None;
        }
        value = value * 10 + d;
        i += 1;
    }
    proof {
        assert(chars@.take(len as int) =~= chars@);
    }
    Some(value)
}

/// Reads a decimal numeral: `Some(n)` exactly when `text` is the numeral of a
/// number `n` that fits in 64 bits. Signs, spaces, leading zeros and the
/// empty text are not numerals.
pub fn parse_u64(text: &str) -> (parsed: Option<u64>)
    ensures
        parsed == numeral_value(text@),
        match parsed {
            Some(n) => decimal(n as nat) == text@,
            None => forall|n: nat| n <= u64::MAX ==> decimal(n) != text@,
        },
{
    proof {
        lemma_numeral_value_meaning(text@);
    }
    let chars = chars_of(text);
    read_numeral(&chars)
}

} // verus!
