//! First and last positions at which a predicate holds.

use vstd::prelude::*;

verus! {

/// The least `i` in `0..n` with `p(i)`, if there is one.
pub open spec fn first_index(n: int, p: spec_fn(int) -> bool) -> Option<int>
    decreases n,
{
    if n <= 0 {
        None
    } else {
        match first_index(n - 1, p) {
            Some(i) => Some(i),
            None => if p(n - 1) {
                Some(n - 1)
            } else {
                None
            },
        }
    }
}

/// The greatest `i` in `0..n` with `p(i)`, if there is one.
pub open spec fn last_index(n: int, p: spec_fn(int) -> bool) -> Option<int>
    decreases n,
{
    if n <= 0 {
        None
    } else if p(n - 1) {
        Some(n - 1)
    } else {
        last_index(n - 1, p)
    }
}

/// `first_index` finds a position where `p` holds and none before it, and
/// finds nothing only where `p` holds nowhere.
pub proof fn lemma_first_index(n: int, p: spec_fn(int) -> bool)
    ensures
        match first_index(n, p) {
            Some(i) => 0 <= i < n && p(i) && forall|j: int| 0 <= j < i ==> !#[trigger] p(j),
            None => forall|j: int| 0 <= j < n ==> !#[trigger] p(j),
        },
    decreases n,
{
    if n > 0 {
        lemma_first_index(n - 1, p);
    }
}

/// A position where `p` holds, with none before it, is what `first_index`
/// finds.
pub proof fn lemma_first_index_is(n: int, p: spec_fn(int) -> bool, i: int)
    requires
        0 <= i < n,
        p(i),
        forall|j: int| 0 <= j < i ==> !#[trigger] p(j),
    ensures
        first_index(n, p) == Some(i),
{
    lemma_first_index(n, p);
}

/// `last_index` finds a position where `p` holds and none after it, and
/// finds nothing only where `p` holds nowhere.
pub proof fn lemma_last_index(n: int, p: spec_fn(int) -> bool)
    ensures
        match last_index(n, p) {
            Some(i) => 0 <= i < n && p(i) && forall|j: int| i < j < n ==> !#[trigger] p(j),
            None => forall|j: int| 0 <= j < n ==> !#[trigger] p(j),
        },
    decreases n,
{
    if n > 0 {
        lemma_last_index(n - 1, p);
    }
}

/// A position where `p` holds, with none after it, is what `last_index`
/// finds.
pub proof fn lemma_last_index_is(n: int, p: spec_fn(int) -> bool, i: int)
    requires
        0 <= i < n,
        p(i),
        forall|j: int| i < j < n ==> !#[trigger] p(j),
    ensures
        last_index(n, p) == Some(i),
{
    lemma_last_index(n, p);
}

/// Predicates that agree on `0..n` have the same last position there.
pub proof fn lemma_last_index_agree(n: int, p: spec_fn(int) -> bool, q: spec_fn(int) -> bool)
    requires
        forall|j: int| 0 <= j < n ==> #[trigger] p(j) == q(j),
    ensures
        last_index(n, p) == last_index(n, q),
    decreases n,
{
    if n > 0 {
        lemma_last_index_agree(n - 1, p, q);
    }
}

/// Predicates that agree on `0..n` have the same first position there.
pub proof fn lemma_first_index_agree(n: int, p: spec_fn(int) -> bool, q: spec_fn(int) -> bool)
    requires
        forall|j: int| 0 <= j < n ==> #[trigger] p(j) == q(j),
    ensures
        first_index(n, p) == first_index(n, q),
    decreases n,
{
    if n > 0 {
        lemma_first_index_agree(n - 1, p, q);
    }
}

} // verus!
