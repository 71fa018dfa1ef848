use vstd::prelude::*;
use crate::text::chars::slice_of;

verus! {

/// Whether `c` has the Unicode property White_Space.
pub open spec fn is_whitespace(c: char) -> bool {
    let u = c as u32;
    ||| 0x09 <= u <= 0x0D
    ||| u == 0x20
    ||| u == 0x85
    ||| u == 0xA0
    ||| u == 0x1680
    ||| 0x2000 <= u <= 0x200A
    ||| u == 0x2028
    ||| u == 0x2029
    ||| u == 0x202F
    ||| u == 0x205F
    ||| u == 0x3000
}

/// How many whitespace characters `s` starts with.
pub open spec fn leading_space(s: Seq<char>) -> nat
    decreases s.len(),
{
    if s.len() > 0 && is_whitespace(s[0]) {
        1 + leading_space(s.drop_first())
    } else {
        0
    }
}

/// How many whitespace characters `s` ends with.
pub open spec fn trailing_space(s: Seq<char>) -> nat
    decreases s.len(),
{
    if s.len() > 0 && is_whitespace(s.last()) {
        1 + trailing_space(s.drop_last())
    } else {
        0
    }
}

/// `s` without its leading whitespace.
pub open spec fn trim_start(s: Seq<char>) -> Seq<char> {
    s.skip(leading_space(s) as int)
}

/// `s` without its trailing whitespace.
pub open spec fn trim_end(s: Seq<char>) -> Seq<char> {
    s.take(s.len() - trailing_space(s))
}

/// `s` without leading and trailing whitespace.
pub open spec fn trimmed(s: Seq<char>) -> Seq<char> {
    trim_end(trim_start(s))
}

/// A run of `n` whitespace characters at the start of `s` that stops at a
/// visible character, or at the end, is the whole leading whitespace.
pub proof fn lemma_leading_space_is(s: Seq<char>, n: int)
    requires
        0 <= n <= s.len(),
        forall|i: int| 0 <= i < n ==> is_whitespace(#[trigger] s[i]),
        n < s.len() ==> !is_whitespace(s[n]),
    ensures
        leading_space(s) == n,
    decreases n,
{
    if n > 0 {
        let rest = s.drop_first();
        assert forall|i: int| 0 <= i < n - 1 implies is_whitespace(#[trigger] rest[i]) by {
            assert(rest[i] == s[i + 1]);
        }
        lemma_leading_space_is(rest, n - 1);
    }
}

/// A run of `n` whitespace characters at the end of `s` that is preceded by
/// a visible character, or by nothing, is the whole trailing whitespace.
pub proof fn lemma_trailing_space_is(s: Seq<char>, n: int)
    requires
        0 <= n <= s.len(),
        forall|i: int| s.len() - n <= i < s.len() ==> is_whitespace(#[trigger] s[i]),
        n < s.len() ==> !is_whitespace(s[s.len() - n - 1]),
    ensures
        trailing_space(s) == n,
    decreases n,
{
    if n > 0 {
        let rest = s.drop_last();
        assert forall|i: int| rest.len() - (n - 1) <= i < rest.len() implies is_whitespace(
            #[trigger] rest[i],
        ) by {
            assert(rest[i] == s[i]);
        }
        lemma_trailing_space_is(rest, n - 1);
    }
}

/// Text that neither starts nor ends with whitespace is its own trimmed
/// form.
pub proof fn lemma_trimmed_unchanged(s: Seq<char>)
    requires
        s.len() > 0 ==> !is_whitespace(s[0]) && !is_whitespace(s.last()),
    ensures
        trimmed(s) == s,
{
    assert(s.skip(0) == s);
    assert(s.take(s.len() as int) == s);
}

/// Whether `c` is whitespace.
pub fn is_space(c: char) -> (yes: bool)
    ensures
        yes == is_whitespace(c),
{
    let u: u32 = c as u32;
    (0x09 <= u && u <= 0x0D) || u == 0x20 || u == 0x85 || u == 0xA0 || u == 0x1680 || (0x2000 <= u
        && u <= 0x200A) || u == 0x2028 || u == 0x2029 || u == 0x202F || u == 0x205F || u == 0x3000
}

/// `chars` without leading and trailing whitespace.
pub fn trim(chars: &Vec<char>) -> (out: Vec<char>)
    ensures
        out@ == trimmed(chars@),
{
    let n: usize = chars.len();
    let mut a: usize = 0;
    while a < n && is_space(chars[a])
        invariant
            a <= n == chars.len(),
            forall|i: int| 0 <= i < a ==> is_whitespace(#[trigger] chars@[i]),
        decreases n - a,
    {
        a += 1;
    }
    let mut b: usize = n;
    while b > a && is_space(chars[b - 1])
        invariant
            a <= b <= n == chars.len(),
            forall|i: int| b <= i < n ==> is_whitespace(#[trigger] chars@[i]),
        decreases b,
    {
        b -= 1;
    }
    proof {
        lemma_leading_space_is(chars@, a as int);
        let rest = chars@.skip(a as int);
        assert forall|i: int| rest.len() - (n - b) <= i < rest.len() implies is_whitespace(
            #[trigger] rest[i],
        ) by {
            assert(rest[i] == chars@[i + a]);
        }
        if n - b < rest.len() {
            assert(rest[rest.len() - (n - b) - 1] == chars@[b - 1]);
        }
        lemma_trailing_space_is(rest, (n - b) as int);
        assert(rest.take(rest.len() - (n - b)) == chars@.subrange(a as int, b as int));
    }
    slice_of(chars, a, b)
}

} // verus!
