use vstd::prelude::*;

verus! {

/// Whether `c` is one of the ten ASCII digits.
pub open spec fn is_digit(c: char) -> bool {
    0x30 <= c as u32 <= 0x39
}

/// The number that the digit `c` stands for; 0 for any other character.
pub open spec fn digit_of(c: char) -> nat {
    if is_digit(c) {
        (c as u32 - 0x30) as nat
    } else {
        0
    }
}

/// Whether `s` is made of digits alone.
pub open spec fn all_digits(s: Seq<char>) -> bool {
    forall|i: int| 0 <= i < s.len() ==> is_digit(#[trigger] s[i])
}

/// The number that the digits of `s` spell in base ten.
pub open spec fn digits_value(s: Seq<char>) -> nat
    decreases s.len(),
{
    if s.len() == 0 {
        0
    } else {
        10 * digits_value(s.drop_last()) + digit_of(s.last())
    }
}

/// The number that `s` spells, where `s` is an optional `+` and then at
/// least one digit, and the number is at most `max`.
pub open spec fn unsigned_of(s: Seq<char>, max: nat) -> Option<nat> {
    let body = if s.len() > 0 && s[0] == '+' {
        s.skip(1)
    } else {
        s
    };
    if body.len() > 0 && all_digits(body) && digits_value(body) <= max {
        Some(digits_value(body))
    } else {
        None
    }
}

/// The character for the digit `d`.
pub open spec fn digit_char(d: nat) -> char {
    if d == 0 {
        '0'
    } else if d == 1 {
        '1'
    } else if d == 2 {
        '2'
    } else if d == 3 {
        '3'
    } else if d == 4 {
        '4'
    } else if d == 5 {
        '5'
    } else if d == 6 {
        '6'
    } else if d == 7 {
        '7'
    } else if d == 8 {
        '8'
    } else {
        '9'
    }
}

/// `n` written in base ten, without sign or leading zeros.
pub open spec fn decimal(n: nat) -> Seq<char>
    decreases n,
{
    if n < 10 {
        seq![digit_char(n)]
    } else {
        decimal(n / 10).push(digit_char(n % 10))
    }
}

/// A number is at least the number that any prefix of its digits spells.
pub proof fn lemma_digits_value_prefix(s: Seq<char>, k: int)
    requires
        0 <= k <= s.len(),
    ensures
        digits_value(s.take(k)) <= digits_value(s),
    decreases s.len() - k,
{
    if k == s.len() {
        assert(s.take(k) == s);
    } else {
        assert(s.drop_last().take(k) == s.take(k));
        lemma_digits_value_prefix(s.drop_last(), k);
    }
}

/// Whether `c` is an ASCII digit.
pub fn is_ascii_digit(c: char) -> (yes: bool)
    ensures
        yes == is_digit(c),
{
    let u: u32 = c as u32;
    0x30 <= u && u <= 0x39
}

/// Reads `chars` as an unsigned number in base ten that is at most `max`.
pub fn parse_unsigned(chars: &Vec<char>, max: u64) -> (number: Option<u64>)
    ensures
        match number {
            Some(n) => unsigned_of(chars@, max as nat) == Some(n as nat),
            None => unsigned_of(chars@, max as nat) is None,
        },
{
    let start: usize = if chars.len() > 0 && chars[0] == '+' {
        1
    } else {
        0
    };
    let ghost body = if chars@.len() > 0 && chars@[0] == '+' {
        chars@.skip(1)
    } else {
        chars@
    };
    assert(chars@.skip(0) == chars@);
    if start >= chars.len() {
        return None;
    }
    let mut value: u64 = 0;
    let mut i: usize = start;
    assert(body.take(0) == Seq::<char>::empty());
    while i < chars.len()
        invariant
            start <= i <= chars.len(),
            body == chars@.skip(start as int),
            body == if chars@.len() > 0 && chars@[0] == '+' {
                chars@.skip(1)
            } else {
                chars@
            },
            all_digits(body.take(i - start)),
            value == digits_value(body.take(i - start)),
            value <= max,
        decreases chars.len() - i,
    {
        let c: char = chars[i];
        let ghost next = body.take(i - start + 1);
        proof {
            assert(body[i - start] == c);
            assert(next.drop_last() == body.take(i - start));
            assert(next.last() == c);
            lemma_digits_value_prefix(body, i - start + 1);
        }
        if !is_ascii_digit(c) {
            assert(!is_digit(body[i - start]));
            return None;
        }
        let d: u64 = (c as u32 - 0x30) as u64;
        assert(digits_value(next) == 10 * value + d);
        if d > max || value > (max - d) / 10 {
            assert(digits_value(body) > max);
            return None;
        }
        value = value * 10 + d;
        i += 1;
    }
    assert(body.take(i - start) == body);
    Some(value)
}

/// The character for the digit `d`.
pub fn digit_to_char(d: u64) -> (c: char)
    requires
        d < 10,
    ensures
        c == digit_char(d as nat),
{
    if d == 0 {
        '0'
    } else if d == 1 {
        '1'
    } else if d == 2 {
        '2'
    } else if d == 3 {
        '3'
    } else if d == 4 {
        '4'
    } else if d == 5 {
        '5'
    } else if d == 6 {
        '6'
    } else if d == 7 {
        '7'
    } else if d == 8 {
        '8'
    } else {
        '9'
    }
}

/// Appends `n`, written in base ten, to `out`.
pub fn push_decimal(out: &mut Vec<char>, n: u64)
    ensures
        final(out)@ == old(out)@ + decimal(n as nat),
    decreases n,
{
    if n < 10 {
        out.push(digit_to_char(n));
        assert(out@ == old(out)@ + seq![digit_char(n as nat)]);
    } else {
        push_decimal(out, n / 10);
        out.push(digit_to_char(n % 10));
        assert(out@ == old(out)@ + decimal((n / 10) as nat).push(digit_char((n % 10) as nat)));
    }
}

} // verus!
