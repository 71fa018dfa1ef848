use vstd::prelude::*;

verus! {

/// Whether `word` stands in `s` at index `at`.
pub open spec fn occurs_at(s: Seq<char>, word: Seq<char>, at: int) -> bool {
    0 <= at && at + word.len() <= s.len() && s.subrange(at, at + word.len()) == word
}

/// Whether `word` stands somewhere in `s`.
pub open spec fn contains_text(s: Seq<char>, word: Seq<char>) -> bool {
    exists|at: int| occurs_at(s, word, at)
}

/// Whether `word` stands in `chars` at index `at`.
pub fn stands_at(chars: &Vec<char>, word: &Vec<char>, at: usize) -> (yes: bool)
    ensures
        yes == occurs_at(chars@, word@, at as int),
{
    if at > chars.len() || word.len() > chars.len() - at {
        return false;
    }
    let ghost piece = chars@.subrange(at as int, at + word.len());
    let mut i: usize = 0;
    while i < word.len()
        invariant
            i <= word.len(),
            at + word.len() <= chars.len(),
            piece == chars@.subrange(at as int, at + word.len()),
            piece.take(i as int) == word@.take(i as int),
        decreases word.len() - i,
    {
        if chars[at + i] != word[i] {
            assert(piece[i as int] != word@[i as int]);
            return false;
        }
        assert(piece.take(i + 1) == piece.take(i as int).push(piece[i as int]));
        assert(word@.take(i + 1) == word@.take(i as int).push(word@[i as int]));
        i += 1;
    }
    assert(piece.take(word.len() as int) == piece);
    assert(word@.take(word.len() as int) == word@);
    true
}

/// Whether `word` stands somewhere in `chars`.
pub fn has_text(chars: &Vec<char>, word: &Vec<char>) -> (yes: bool)
    ensures
        yes == contains_text(chars@, word@),
{
    if word.len() > chars.len() {
        return false;
    }
    let last: usize = chars.len() - word.len();
    let mut at: usize = 0;
    loop
        invariant
            at <= last,
            last == chars.len() - word.len(),
            forall|k: int| 0 <= k < at ==> !occurs_at(chars@, word@, k),
        decreases last - at,
    {
        if stands_at(chars, word, at) {
            return true;
        }
        if at >= last {
            return false;
        }
        at += 1;
    }
}

} // verus!
