//! Numbers in decimal notation.
use crate::text::chars_of;
use vstd::prelude::*;

verus! {

/// The decimal digit of a number below ten.
pub open spec fn digit(n: nat) -> char {
    (('0' as u32) + n) as char
}

/// `n` in decimal notation, without leading zeros.
pub open spec fn decimal(n: nat) -> Seq<char>
    decreases n,
{
    if n < 10 {
        seq![digit(n)]
    } else {
        decimal(n / 10).push(digit(n % 10))
    }
}

/// `n` in decimal notation with at least two digits.
pub open spec fn two_digits(n: nat) -> Seq<char> {
    if n < 10 {
        seq!['0', digit(n)]
    } else {
        decimal(n)
    }
}

pub open spec fn is_digit(c: char) -> bool {
    '0' <= c <= '9'
}

/// Whether `s` holds at least one character, and digits alone.
pub open spec fn is_numeral(s: Seq<char>) -> bool {
    s.len() > 0 && forall|i: int| 0 <= i < s.len() ==> is_digit(#[trigger] s[i])
}

/// The number that a sequence of digits stands for.
pub open spec fn numeral_value(s: Seq<char>) -> nat
    decreases s.len(),
{
    if s.len() == 0 {
        0
    } else {
        numeral_value(s.drop_last()) * 10 + ((s.last() as u32) - ('0' as u32)) as nat
    }
}

/// `s` without the plus sign that a number may start with.
pub open spec fn unsigned_part(s: Seq<char>) -> Seq<char> {
    if s.len() > 0 && s[0] == '+' {
        s.skip(1)
    } else {
        s
    }
}

/// The port number that a text holds: a plus sign or none, then digits alone,
/// whose value is no more than the largest port. Any other text holds none.
pub open spec fn port_in(s: Seq<char>) -> Option<u16> {
    let digits = unsigned_part(s);
    if is_numeral(digits) && numeral_value(digits) <= u16::MAX {
        Some(numeral_value(digits) as u16)
    } else {
        None
    }
}

/// A port number as the value of a text, with a default for a text that holds none.
pub open spec fn port_or(s: Seq<char>, default: u16) -> u16 {
    match port_in(s) {
        Some(port) => port,
        None => default,
    }
}

/// A number in decimal notation.
pub fn to_decimal(n: u64) -> (s: String)
    ensures
        s@ == decimal(n as nat),
    decreases n,
{
    if n < 10 {
        let mut s = String::new();
        s.push(digit_char(n));
        assert(s@ == seq![digit(n as nat)]);
        s
    } else {
        let mut s = to_decimal(n / 10);
        s.push(digit_char(n % 10));
        s
    }
}

fn digit_char(n: u64) -> (c: char)
    requires
        n < 10,
    ensures
        c == digit(n as nat),
{
    (48u8 + n as u8) as char
}

/// A number in decimal notation with at least two digits.
pub fn to_two_digits(n: u64) -> (s: String)
    ensures
        s@ == two_digits(n as nat),
{
    if n < 10 {
        let mut s = String::new();
        s.push('0');
        s.push(digit_char(n));
        assert(s@ == seq!['0', digit(n as nat)]);
        s
    } else {
        to_decimal(n)
    }
}

/// The port number that a text holds.
pub fn parse_port(s: &str) -> (port: Option<u16>)
    ensures
        port == port_in(s@),
{
    let chars = chars_of(s);
    let start: usize = if chars.len() > 0 && chars[0] == '+' {
        1
    } else {
        0
    };
    let ghost digits = unsigned_part(s@);
    assert(digits == s@.skip(start as int));
    if start == chars.len() {
        return None;
    }
    let mut value: u32 = 0;
    let mut fits = true;
    assert(digits.take(0) == Seq::<char>::empty());
    for i in start..chars.len()
        invariant
            chars@ == s@,
            start <= chars@.len(),
            digits == s@.skip(start as int),
            digits == unsigned_part(s@),
            forall|j: int| 0 <= j < i - start ==> is_digit(#[trigger] digits[j]),
            value <= u16::MAX,
            fits ==> value == numeral_value(digits.take(i - start)),
            !fits ==> numeral_value(digits.take(i - start)) > u16::MAX,
    {
        let c = chars[i];
        assert(digits[i - start] == c);
        if c < '0' || c > '9' {
            assert(!is_numeral(digits));
            return None;
        }
        assert(digits.take(i - start + 1).drop_last() == digits.take(i - start));
        if fits {
            let next: u32 = value * 10 + (c as u32 - '0' as u32);
            if next > u16::MAX as u32 {
                fits = false;
            } else {
                value = next;
            }
        }
    }
    assert(digits.take(digits.len() as int) == digits);
    if fits {
        Some(value as u16)
    } else {
        None
    }
}

// ── reading back what was written ───────────────────────────────────────────
/// Decimal notation is made of digits, and its value is the number written.
pub proof fn decimal_is_read_back(n: nat)
    ensures
        is_numeral(decimal(n)),
        numeral_value(decimal(n)) == n,
    decreases n,
{
    if n < 10 {
        assert(decimal(n).drop_last() == Seq::<char>::empty());
        reveal_with_fuel(numeral_value, 2);
    } else {
        decimal_is_read_back(n / 10);
        assert(decimal(n).drop_last() == decimal(n / 10));
    }
}

/// A port that was written in decimal notation is read back as itself.
pub proof fn port_is_read_back(port: u16)
    ensures
        port_in(decimal(port as nat)) == Some(port),
{
    decimal_is_read_back(port as nat);
    assert(is_digit(decimal(port as nat)[0]));
}

/// A digit stands for its number: the ten of them follow one another, from zero.
pub proof fn a_digit_stands_for_its_number(n: nat)
    requires
        n < 10,
    ensures
        digit(n) as int == ('0' as int) + n,
        decimal(n) == seq![digit(n)],
        numeral_value(seq![digit(n)]) == n,
{
    reveal_with_fuel(numeral_value, 2);
    assert(seq![digit(n)].drop_last() == Seq::<char>::empty());
}

/// A digit behind a number makes it ten times as large, and adds its own.
pub proof fn a_further_digit_makes_ten_times_as_much(s: Seq<char>, n: nat)
    requires
        n < 10,
    ensures
        numeral_value(s.push(digit(n))) == 10 * numeral_value(s) + n,
{
    assert(s.push(digit(n)).drop_last() == s);
}

/// Decimal notation has no zeros before the number, and different numbers are
/// written differently.
pub proof fn decimal_tells_numbers_apart(n: nat, other: nat)
    ensures
        n > 0 ==> decimal(n)[0] != '0',
        decimal(n) == decimal(other) ==> n == other,
    decreases n,
{
    decimal_is_read_back(n);
    decimal_is_read_back(other);
    if n >= 10 {
        decimal_tells_numbers_apart(n / 10, other);
        decimal_is_read_back(n / 10);
        assert(decimal(n)[0] == decimal(n / 10)[0]);
    }
}

/// Two digits are read back too; one of them may be a zero before the number.
pub proof fn two_digits_are_read_back(n: nat)
    ensures
        two_digits(n).len() >= 2,
        numeral_value(two_digits(n)) == n,
        n < 100 ==> two_digits(n).len() == 2,
        n < 10 ==> two_digits(n)[0] == '0',
{
    decimal_is_read_back(n);
    if n < 10 {
        a_digit_stands_for_its_number(0);
        assert(two_digits(n) == seq![digit(0)].push(digit(n)));
        a_further_digit_makes_ten_times_as_much(seq![digit(0)], n);
    } else {
        reveal_with_fuel(decimal, 3);
    }
}

/// Digits are a port, with or without a plus sign before them, whatever their
/// number, as long as their value is one.
pub proof fn digits_are_a_port(s: Seq<char>)
    requires
        s.len() > 0,
        forall|i: int| 0 <= i < s.len() ==> '0' <= #[trigger] s[i] <= '9',
    ensures
        numeral_value(s) <= 65535 ==> port_in(s) == Some(numeral_value(s) as u16) && port_in(
            seq!['+'] + s,
        ) == Some(numeral_value(s) as u16),
        numeral_value(s) > 65535 ==> port_in(s) is None && port_in(seq!['+'] + s) is None,
{
    assert(s[0] != '+');
    assert((seq!['+'] + s).skip(1) == s);
    assert(forall|i: int| 0 <= i < s.len() ==> is_digit(#[trigger] s[i]));
}

/// Anything else is no port: nothing at all, a plus sign alone, or a text with any
/// other character in it.
pub proof fn anything_else_is_no_port(s: Seq<char>, i: int)
    requires
        0 <= i < s.len() ==> !('0' <= s[i] <= '9') && (i > 0 || s[i] != '+'),
        0 <= i < s.len() || s.len() == 0 || s == seq!['+'],
    ensures
        port_in(s) is None,
        forall|default: u16| port_or(s, default) == default,
{
    if 0 <= i < s.len() {
        let digits = unsigned_part(s);
        if s[0] == '+' {
            assert(digits[i - 1] == s[i]);
        } else {
            assert(digits[i] == s[i]);
        }
        assert(!is_numeral(digits));
    } else if s.len() > 0 {
        assert(unsigned_part(s) == Seq::<char>::empty());
    }
}

/// A port that a text holds is taken as it is, whatever the default.
pub proof fn a_default_gives_way_to_a_port(s: Seq<char>, port: u16, default: u16)
    requires
        port_in(s) == Some(port),
    ensures
        port_or(s, default) == port,
{
}

} // verus!
