//! The order in which paths are listed: lexicographic, character by character.

use vstd::prelude::*;
use vstd::relations::{sorted_by, total_ordering};
use vstd::seq_lib::{lemma_sorted_unique, to_multiset_insert};
use vstd::std_specs::iter::IteratorSpec;

verus! {

broadcast use vstd::string::group_string_axioms;

/// Whether `a` comes no later than `b`: at the first place where they differ
/// `a` holds the smaller character, or `a` ends there.
pub open spec fn lex_le(a: Seq<char>, b: Seq<char>) -> bool
    decreases a.len(),
{
    if a.len() == 0 {
        true
    } else if b.len() == 0 {
        false
    } else if a[0] != b[0] {
        a[0] < b[0]
    } else {
        lex_le(a.drop_first(), b.drop_first())
    }
}

/// `lex_le` as a relation.
pub open spec fn path_order() -> spec_fn(Seq<char>, Seq<char>) -> bool {
    |a: Seq<char>, b: Seq<char>| lex_le(a, b)
}

/// Whether `paths` stand in ascending order.
pub open spec fn ascending(paths: Seq<Seq<char>>) -> bool {
    sorted_by(paths, path_order())
}

/// What each string of `strings` holds.
pub open spec fn texts(strings: Seq<String>) -> Seq<Seq<char>> {
    Seq::new(strings.len(), |i: int| strings[i]@)
}

proof fn lemma_lex_le_reflexive(a: Seq<char>)
    ensures
        lex_le(a, a),
    decreases a.len(),
{
    if a.len() > 0 {
        lemma_lex_le_reflexive(a.drop_first());
    }
}

proof fn lemma_lex_le_antisymmetric(a: Seq<char>, b: Seq<char>)
    requires
        lex_le(a, b),
        lex_le(b, a),
    ensures
        a == b,
    decreases a.len(),
{
    if a.len() == 0 || b.len() == 0 {
    } else {
        lemma_lex_le_antisymmetric(a.drop_first(), b.drop_first());
        assert(b =~= seq![b[0]] + b.drop_first());
    }
}

proof fn lemma_lex_le_transitive(a: Seq<char>, b: Seq<char>, c: Seq<char>)
    requires
        lex_le(a, b),
        lex_le(b, c),
    ensures
        lex_le(a, c),
    decreases a.len(),
{
    if a.len() > 0 && b.len() > 0 && c.len() > 0 && a[0] == b[0] && b[0] == c[0] {
        lemma_lex_le_transitive(a.drop_first(), b.drop_first(), c.drop_first());
    }
}

proof fn lemma_lex_le_connected(a: Seq<char>, b: Seq<char>)
    ensures
        lex_le(a, b) || lex_le(b, a),
    decreases a.len(),
{
    if a.len() > 0 && b.len() > 0 && a[0] == b[0] {
        lemma_lex_le_connected(a.drop_first(), b.drop_first());
    }
}

/// The order of paths is a total order.
pub proof fn lemma_path_order_total()
    ensures
        total_ordering(path_order()),
{
    let r = path_order();
    assert forall|x: Seq<char>| #[trigger] r(x, x) by {
        lemma_lex_le_reflexive(x);
    }
    assert forall|x: Seq<char>, y: Seq<char>| #[trigger] r(x, y) && #[trigger] r(y, x) implies x
        == y by {
        lemma_lex_le_antisymmetric(x, y);
    }
    assert forall|x: Seq<char>, y: Seq<char>, z: Seq<char>| #[trigger]
        r(x, y) && #[trigger] r(y, z) implies r(x, z) by {
        lemma_lex_le_transitive(x, y, z);
    }
    assert forall|x: Seq<char>, y: Seq<char>| #[trigger] r(x, y) || #[trigger] r(y, x) by {
        lemma_lex_le_connected(x, y);
    }
}

/// Two ascending listings of the same paths are the same listing: the order
/// in which the paths were found leaves no trace.
pub proof fn lemma_ascending_unique(a: Seq<Seq<char>>, b: Seq<Seq<char>>)
    requires
        ascending(a),
        ascending(b),
        a.to_multiset() == b.to_multiset(),
    ensures
        a == b,
{
    lemma_path_order_total();
    lemma_sorted_unique(a, b, path_order());
}

/// Whether `a` comes no later than `b` in the order of paths.
pub fn precedes(a: &str, b: &str) -> (r: bool)
    ensures
        r == lex_le(a@, b@),
{
    let mut left = a.chars();
    let mut right = b.chars();
    loop
        invariant
            lex_le(a@, b@) == lex_le(left.remaining(), right.remaining()),
            left.decrease() is Some,
        decreases left.decrease()->0,
    {
        match left.next() {
            None => {
                return true;
            },
            Some(x) => match right.next() {
                None => {
                    return false;
                },
                Some(y) => {
                    if x != y {
                        return x < y;
                    }
                },
            },
        }
    }
}

/// Where `path` goes in the ascending `sorted`: behind everything that comes
/// no later than it.
fn insertion_point(sorted: &Vec<String>, path: &str) -> (at: usize)
    requires
        ascending(texts(sorted@)),
    ensures
        at <= sorted.len(),
        forall|j: int| 0 <= j < at ==> lex_le(#[trigger] sorted@[j]@, path@),
        forall|j: int| at <= j < sorted.len() ==> !lex_le(#[trigger] sorted@[j]@, path@),
{
    let mut low: usize = 0;
    let mut high: usize = sorted.len();
    while low < high
        invariant
            low <= high <= sorted.len(),
            ascending(texts(sorted@)),
            forall|j: int| 0 <= j < low ==> lex_le(#[trigger] sorted@[j]@, path@),
            forall|j: int| high <= j < sorted.len() ==> !lex_le(#[trigger] sorted@[j]@, path@),
        decreases high - low,
    {
        let middle: usize = low + (high - low) / 2;
        let ghost pivot = sorted@[middle as int]@;
        if precedes(sorted[middle].as_str(), path) {
            assert forall|j: int| 0 <= j < middle + 1 implies lex_le(
                #[trigger] sorted@[j]@,
                path@,
            ) by {
                if j < middle {
                    assert(path_order()(texts(sorted@)[j], texts(sorted@)[middle as int]));
                    lemma_lex_le_transitive(sorted@[j]@, pivot, path@);
                }
            }
            low = middle + 1;
        } else {
            assert forall|j: int| middle <= j < sorted.len() implies !lex_le(
                #[trigger] sorted@[j]@,
                path@,
            ) by {
                if j > middle && lex_le(sorted@[j]@, path@) {
                    assert(path_order()(texts(sorted@)[middle as int], texts(sorted@)[j]));
                    lemma_lex_le_transitive(pivot, sorted@[j]@, path@);
                }
            }
            high = middle;
        }
    }
    low
}

/// Sorts `paths` into ascending order. Nothing is added and nothing is lost.
pub fn sort_paths(paths: Vec<String>) -> (sorted: Vec<String>)
    ensures
        ascending(texts(sorted@)),
        texts(sorted@).to_multiset() == texts(paths@).to_multiset(),
{
    let mut rest = paths;
    let mut sorted: Vec<String> = Vec::new();
    assert(texts(sorted@).to_multiset().add(texts(rest@).to_multiset()) =~= texts(
        paths@,
    ).to_multiset()) by {
        broadcast use vstd::seq_lib::group_to_multiset_ensures;
        broadcast use vstd::multiset::group_multiset_axioms;

    }
    while rest.len() > 0
        invariant
            ascending(texts(sorted@)),
            texts(sorted@).to_multiset().add(texts(rest@).to_multiset()) == texts(
                paths@,
            ).to_multiset(),
        decreases rest.len(),
    {
        let ghost before = sorted@;
        let ghost waiting = rest@;
        let path = rest.pop().unwrap();
        let at = insertion_point(&sorted, path.as_str());
        sorted.insert(at, path);
        proof {
            broadcast use vstd::multiset::group_multiset_axioms;

            let old_texts = texts(before);
            let new_texts = texts(sorted@);
            assert(new_texts =~= old_texts.insert(at as int, path@));
            to_multiset_insert(old_texts, at as int, path@);
            assert(texts(waiting) =~= texts(rest@).push(path@));
            vstd::seq_lib::to_multiset_build(texts(rest@), path@);
            assert(new_texts.to_multiset().add(texts(rest@).to_multiset())
                =~= old_texts.to_multiset().add(texts(waiting).to_multiset()));
            assert forall|i: int, j: int| 0 <= i < j < new_texts.len() implies path_order()(
                new_texts[i],
                new_texts[j],
            ) by {
                // Left of `at` stands what comes no later than `path`, right of
                // it what does not; the rest stood in this order before.
                if i == at {
                    lemma_lex_le_connected(path@, before[j - 1]@);
                }
            }
        }
    }
    assert(texts(sorted@).to_multiset() =~= texts(paths@).to_multiset()) by {
        broadcast use vstd::seq_lib::group_to_multiset_ensures;
        broadcast use vstd::multiset::group_multiset_axioms;

    }
    sorted
}

} // verus!
