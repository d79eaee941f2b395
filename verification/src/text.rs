//! Strings as sequences of characters: the few operations that the rest of
//! the library needs on them.

use vstd::prelude::*;

verus! {

broadcast use vstd::string::group_string_axioms;

/// The position of the last `c` in `s`, or -1 where `s` holds none.
pub open spec fn last_index_of(s: Seq<char>, c: char) -> int
    decreases s.len(),
{
    if s.len() == 0 {
        -1
    } else if s.last() == c {
        s.len() - 1
    } else {
        last_index_of(s.drop_last(), c)
    }
}

/// `last_index_of` finds a `c`, and no `c` follows it.
pub proof fn lemma_last_index_of(s: Seq<char>, c: char)
    ensures
        -1 <= last_index_of(s, c) < s.len(),
        last_index_of(s, c) >= 0 ==> s[last_index_of(s, c)] == c,
        forall|j: int| last_index_of(s, c) < j < s.len() ==> s[j] != c,
    decreases s.len(),
{
    if s.len() > 0 && s.last() != c {
        let rest = s.drop_last();
        lemma_last_index_of(rest, c);
        assert forall|j: int| last_index_of(s, c) < j < s.len() implies s[j] != c by {
            if j < rest.len() {
                assert(rest[j] == s[j]);
            }
        }
    }
}

/// Whatever position holds a `c` that no `c` follows is the one that
/// `last_index_of` finds.
pub proof fn lemma_last_index_is(s: Seq<char>, c: char, k: int)
    requires
        -1 <= k < s.len(),
        k >= 0 ==> s[k] == c,
        forall|j: int| k < j < s.len() ==> s[j] != c,
    ensures
        last_index_of(s, c) == k,
{
    lemma_last_index_of(s, c);
}

/// An upper-case ASCII letter becomes its lower-case form; every other
/// character stays.
pub open spec fn ascii_lower(c: char) -> char {
    if 'A' <= c && c <= 'Z' {
        ((c as u8) + 32) as char
    } else {
        c
    }
}

/// `s` with each of its characters through `ascii_lower`.
pub open spec fn lowercase(s: Seq<char>) -> Seq<char> {
    Seq::new(s.len(), |i: int| ascii_lower(s[i]))
}

/// The characters of `s`, one by one.
pub fn chars_of(s: &str) -> (v: Vec<char>)
    ensures
        v@ == s@,
{
    let mut v: Vec<char> = Vec::new();
    for c in it: s.chars()
        invariant
            it.seq() == s@,
            v@ == s@.take(it.index() as int),
    {
        v.push(c);
    }
    v
}

/// Lower-cases one character, ASCII letters only.
pub fn to_ascii_lower(c: char) -> (r: char)
    ensures
        r == ascii_lower(c),
{
    if 'A' <= c && c <= 'Z' {
        ((c as u8) + 32) as char
    } else {
        c
    }
}

/// Finds the last `c` among `chars[start..end]`.
pub(crate) fn rfind(chars: &Vec<char>, start: usize, end: usize, c: char) -> (r: Option<usize>)
    requires
        start <= end <= chars.len(),
    ensures
        match r {
            Some(i) => start <= i < end && i - start == last_index_of(
                chars@.subrange(start as int, end as int),
                c,
            ),
            None => last_index_of(chars@.subrange(start as int, end as int), c) == -1,
        },
{
    let ghost part = chars@.subrange(start as int, end as int);
    let mut i: usize = end;
    while i > start
        invariant
            start <= i <= end <= chars.len(),
            part == chars@.subrange(start as int, end as int),
            forall|j: int| i - start <= j < part.len() ==> part[j] != c,
        decreases i,
    {
        i = i - 1;
        if chars[i] == c {
            proof {
                lemma_last_index_is(part, c, i - start);
            }
            return Some(i);
        }
    }
    proof {
        lemma_last_index_is(part, c, -1);
    }
    None
}

/// Whether `chars[start..end]`, lower-cased, spell `word`.
pub(crate) fn spells(chars: &Vec<char>, start: usize, end: usize, word: &str) -> (r: bool)
    requires
        start <= end <= chars.len(),
    ensures
        r == (lowercase(chars@.subrange(start as int, end as int)) == word@),
{
    let letters = chars_of(word);
    let ghost part = chars@.subrange(start as int, end as int);
    if letters.len() != end - start {
        return false;
    }
    let mut i: usize = 0;
    while i < letters.len()
        invariant
            start <= end <= chars.len(),
            letters@ == word@,
            letters.len() == end - start,
            part == chars@.subrange(start as int, end as int),
            i <= letters.len(),
            forall|j: int| 0 <= j < i ==> ascii_lower(part[j]) == letters@[j],
        decreases letters.len() - i,
    {
        if to_ascii_lower(chars[start + i]) != letters[i] {
            return false;
        }
        i = i + 1;
    }
    assert(lowercase(part) =~= word@);
    true
}

/// Whether `chars` spell `word`, letter for letter.
pub(crate) fn matches_word(chars: &Vec<char>, word: &str) -> (r: bool)
    ensures
        r == (chars@ == word@),
{
    let letters = chars_of(word);
    if letters.len() != chars.len() {
        return false;
    }
    let mut i: usize = 0;
    while i < letters.len()
        invariant
            letters@ == word@,
            letters.len() == chars.len(),
            i <= letters.len(),
            forall|j: int| 0 <= j < i ==> chars@[j] == letters@[j],
        decreases letters.len() - i,
    {
        if chars[i] != letters[i] {
            return false;
        }
        i = i + 1;
    }
    assert(chars@ =~= word@);
    true
}

} // verus!
