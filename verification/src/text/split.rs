use vstd::prelude::*;
use crate::text::chars::slice_of;
use crate::text::space::is_space;
use crate::text::space::is_whitespace;

verus! {

/// Position of the first `c` in `s`, or `s.len()` where `s` holds none.
pub open spec fn position_of(s: Seq<char>, c: char) -> int
    decreases s.len(),
{
    if s.len() == 0 || s[0] == c {
        0
    } else {
        1 + position_of(s.drop_first(), c)
    }
}

/// The position of the first `c` lies within `s`, or at its end.
pub proof fn lemma_position_bound(s: Seq<char>, c: char)
    ensures
        0 <= position_of(s, c) <= s.len(),
    decreases s.len(),
{
    if !(s.len() == 0 || s[0] == c) {
        lemma_position_bound(s.drop_first(), c);
    }
}

/// The first `c` stands at the one index that holds `c` and has none before it.
pub proof fn lemma_position_is(s: Seq<char>, c: char, n: int)
    requires
        0 <= n <= s.len(),
        forall|i: int| 0 <= i < n ==> #[trigger] s[i] != c,
        n < s.len() ==> s[n] == c,
    ensures
        position_of(s, c) == n,
    decreases n,
{
    if n > 0 {
        let rest = s.drop_first();
        assert(s[0] != c);
        assert forall|i: int| 0 <= i < n - 1 implies #[trigger] rest[i] != c by {
            assert(rest[i] == s[i + 1]);
        }
        lemma_position_is(rest, c, n - 1);
    }
}

/// Whether `s` holds `c`.
pub open spec fn holds(s: Seq<char>, c: char) -> bool {
    position_of(s, c) < s.len()
}

/// `s` cut at its first `sep`: what stands before it, and what stands after.
pub open spec fn split_once(s: Seq<char>, sep: char) -> Option<(Seq<char>, Seq<char>)> {
    let at = position_of(s, sep);
    if at < s.len() {
        Some((s.take(at), s.skip(at + 1)))
    } else {
        None
    }
}

/// `s` cut at every `sep`: one piece more than `s` holds separators.
pub open spec fn split_on(s: Seq<char>, sep: char) -> Seq<Seq<char>>
    decreases s.len(),
{
    let at = position_of(s, sep);
    if at < s.len() {
        proof {
            lemma_position_bound(s, sep);
        }
        seq![s.take(at)] + split_on(s.skip(at + 1), sep)
    } else {
        seq![s]
    }
}

/// Cutting gives at least one piece.
pub proof fn lemma_split_on_len(s: Seq<char>, sep: char)
    ensures
        split_on(s, sep).len() >= 1,
    decreases s.len(),
{
    let at = position_of(s, sep);
    if at < s.len() {
        lemma_position_bound(s, sep);
        lemma_split_on_len(s.skip(at + 1), sep);
    }
}

/// Text without the separator is one piece.
pub proof fn lemma_split_on_whole(s: Seq<char>, sep: char)
    requires
        !holds(s, sep),
    ensures
        split_on(s, sep) == seq![s],
{
    lemma_position_bound(s, sep);
}

/// `items` with `sep` between each two of them.
pub open spec fn joined(items: Seq<Seq<char>>, sep: Seq<char>) -> Seq<char>
    decreases items.len(),
{
    if items.len() == 0 {
        Seq::empty()
    } else if items.len() == 1 {
        items[0]
    } else {
        joined(items.drop_last(), sep) + sep + items.last()
    }
}

/// The first separator of a text is that of its start, where the start
/// holds one, and else the first behind the start.
pub proof fn lemma_position_of_concat(a: Seq<char>, b: Seq<char>, sep: char)
    ensures
        position_of(a + b, sep) == if holds(a, sep) {
            position_of(a, sep)
        } else {
            a.len() + position_of(b, sep)
        },
    decreases a.len(),
{
    if a.len() == 0 {
        assert(a + b == b);
    } else if a[0] == sep {
        assert((a + b)[0] == sep);
    } else {
        assert((a + b)[0] == a[0]);
        assert((a + b).drop_first() == a.drop_first() + b);
        lemma_position_of_concat(a.drop_first(), b, sep);
    }
}

/// Two texts with a separator between them are cut into the pieces of
/// the first and then the pieces of the second.
pub proof fn lemma_split_on_concat(a: Seq<char>, b: Seq<char>, sep: char)
    ensures
        split_on(a + seq![sep] + b, sep) == split_on(a, sep) + split_on(b, sep),
    decreases a.len(),
{
    let whole = a + seq![sep] + b;
    let tail = seq![sep] + b;
    assert(whole == a + tail);
    lemma_position_of_concat(a, tail, sep);
    lemma_position_bound(a, sep);
    let at = position_of(a, sep);
    if holds(a, sep) {
        assert(whole.take(at) == a.take(at));
        assert(whole.skip(at + 1) == a.skip(at + 1) + seq![sep] + b);
        lemma_split_on_concat(a.skip(at + 1), b, sep);
    } else {
        assert(tail[0] == sep);
        assert(position_of(tail, sep) == 0);
        assert(whole.take(a.len() as int) == a);
        assert(whole.skip(a.len() as int + 1) == b);
    }
}

/// Texts that hold no separator, joined by it, are cut into themselves.
pub proof fn lemma_split_on_joined(items: Seq<Seq<char>>, sep: char)
    requires
        items.len() >= 1,
        forall|i: int| 0 <= i < items.len() ==> !holds(#[trigger] items[i], sep),
    ensures
        split_on(joined(items, seq![sep]), sep) == items,
    decreases items.len(),
{
    if items.len() == 1 {
        lemma_split_on_whole(items[0], sep);
        assert(items == seq![items[0]]);
    } else {
        let rest = items.drop_last();
        assert forall|i: int| 0 <= i < rest.len() implies !holds(#[trigger] rest[i], sep) by {
            assert(rest[i] == items[i]);
        }
        lemma_split_on_joined(rest, sep);
        lemma_split_on_concat(joined(rest, seq![sep]), items.last(), sep);
        assert(!holds(items[items.len() - 1], sep));
        lemma_split_on_whole(items.last(), sep);
        assert(rest + seq![items.last()] == items);
    }
}

/// How many characters `s` starts with that are not whitespace.
pub open spec fn leading_visible(s: Seq<char>) -> nat
    decreases s.len(),
{
    if s.len() > 0 && !is_whitespace(s[0]) {
        1 + leading_visible(s.drop_first())
    } else {
        0
    }
}

/// A text starts with no more visible characters than it has.
pub proof fn lemma_leading_visible_bound(s: Seq<char>)
    ensures
        leading_visible(s) <= s.len(),
    decreases s.len(),
{
    if s.len() > 0 && !is_whitespace(s[0]) {
        lemma_leading_visible_bound(s.drop_first());
    }
}

/// A run of `n` visible characters at the start of `s` that stops at
/// whitespace, or at the end, is the whole first word.
pub proof fn lemma_leading_visible_is(s: Seq<char>, n: int)
    requires
        0 <= n <= s.len(),
        forall|i: int| 0 <= i < n ==> !is_whitespace(#[trigger] s[i]),
        n < s.len() ==> is_whitespace(s[n]),
    ensures
        leading_visible(s) == n,
    decreases n,
{
    if n > 0 {
        let rest = s.drop_first();
        assert(!is_whitespace(s[0]));
        assert forall|i: int| 0 <= i < n - 1 implies !is_whitespace(#[trigger] rest[i]) by {
            assert(rest[i] == s[i + 1]);
        }
        lemma_leading_visible_is(rest, n - 1);
    }
}

/// The words of `s`: its longest runs of characters that are not whitespace.
pub open spec fn words(s: Seq<char>) -> Seq<Seq<char>>
    decreases s.len(),
{
    if s.len() == 0 {
        Seq::empty()
    } else if is_whitespace(s[0]) {
        words(s.drop_first())
    } else {
        let n = leading_visible(s);
        proof {
            lemma_leading_visible_bound(s);
        }
        seq![s.take(n as int)] + words(s.skip(n as int))
    }
}

/// The index of the first `c` at or after `from`, or the length of `chars`.
pub fn find_from(chars: &Vec<char>, from: usize, c: char) -> (at: usize)
    requires
        from <= chars.len(),
    ensures
        from <= at <= chars.len(),
        at == from + position_of(chars@.skip(from as int), c),
{
    let mut at: usize = from;
    while at < chars.len() && chars[at] != c
        invariant
            from <= at <= chars.len(),
            forall|i: int| from <= i < at ==> #[trigger] chars@[i] != c,
        decreases chars.len() - at,
    {
        at += 1;
    }
    proof {
        let rest = chars@.skip(from as int);
        assert forall|i: int| 0 <= i < at - from implies #[trigger] rest[i] != c by {
            assert(rest[i] == chars@[i + from]);
        }
        lemma_position_is(rest, c, at - from);
    }
    at
}

/// Whether `chars` holds `c`.
pub fn has_char(chars: &Vec<char>, c: char) -> (found: bool)
    ensures
        found == holds(chars@, c),
{
    let at: usize = find_from(chars, 0, c);
    assert(chars@.skip(0) == chars@);
    at < chars.len()
}

/// `chars` cut at its first `sep`, or `None` where it holds none.
pub fn cut_once(chars: &Vec<char>, sep: char) -> (parts: Option<(Vec<char>, Vec<char>)>)
    ensures
        match parts {
            Some((head, tail)) => split_once(chars@, sep) == Some((head@, tail@)),
            None => split_once(chars@, sep) is None,
        },
{
    let at: usize = find_from(chars, 0, sep);
    assert(chars@.skip(0) == chars@);
    if at < chars.len() {
        let head = slice_of(chars, 0, at);
        let tail = slice_of(chars, at + 1, chars.len());
        Some((head, tail))
    } else {
        None
    }
}

/// The views of `pieces`, one for one.
pub open spec fn views(pieces: Seq<Vec<char>>) -> Seq<Seq<char>> {
    pieces.map_values(|piece: Vec<char>| piece@)
}

/// `chars` cut at every `sep`.
pub fn cut(chars: &Vec<char>, sep: char) -> (pieces: Vec<Vec<char>>)
    ensures
        views(pieces@) == split_on(chars@, sep),
{
    let mut pieces: Vec<Vec<char>> = Vec::new();
    let mut from: usize = 0;
    assert(chars@.skip(0) == chars@);
    loop
        invariant_except_break
            from <= chars.len(),
            views(pieces@) + split_on(chars@.skip(from as int), sep) == split_on(chars@, sep),
        ensures
            views(pieces@) == split_on(chars@, sep),
        decreases chars.len() - from,
    {
        let at: usize = find_from(chars, from, sep);
        let piece = slice_of(chars, from, at);
        proof {
            let rest = chars@.skip(from as int);
            assert(rest.take(at - from) == piece@);
            assert(views(pieces@.push(piece)) == views(pieces@) + seq![piece@]);
            if at < chars.len() {
                assert(rest.skip(at - from + 1) == chars@.skip(at + 1));
            } else {
                assert(rest.take(at - from) == rest);
            }
        }
        pieces.push(piece);
        if at >= chars.len() {
            break;
        }
        from = at + 1;
    }
    pieces
}

/// The words of `chars`.
pub fn cut_words(chars: &Vec<char>) -> (pieces: Vec<Vec<char>>)
    ensures
        views(pieces@) == words(chars@),
{
    let mut pieces: Vec<Vec<char>> = Vec::new();
    let mut from: usize = 0;
    assert(chars@.skip(0) == chars@);
    while from < chars.len()
        invariant
            from <= chars.len(),
            views(pieces@) + words(chars@.skip(from as int)) == words(chars@),
        decreases chars.len() - from,
    {
        let ghost rest = chars@.skip(from as int);
        if is_space(chars[from]) {
            assert(rest.drop_first() == chars@.skip(from + 1));
            from += 1;
        } else {
            let mut to: usize = from + 1;
            while to < chars.len() && !is_space(chars[to])
                invariant
                    from < to <= chars.len(),
                    forall|i: int| from <= i < to ==> !is_whitespace(#[trigger] chars@[i]),
                decreases chars.len() - to,
            {
                to += 1;
            }
            let piece = slice_of(chars, from, to);
            proof {
                assert forall|i: int| 0 <= i < to - from implies !is_whitespace(
                    #[trigger] rest[i],
                ) by {
                    assert(rest[i] == chars@[i + from]);
                }
                lemma_leading_visible_is(rest, to - from);
                assert(rest.take(to - from) == piece@);
                assert(rest.skip(to - from) == chars@.skip(to as int));
                assert(views(pieces@.push(piece)) == views(pieces@) + seq![piece@]);
            }
            pieces.push(piece);
            from = to;
        }
    }
    pieces
}

} // verus!
