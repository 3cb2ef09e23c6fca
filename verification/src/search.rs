//! The first position at which something holds.

use vstd::prelude::*;

verus! {

/// The least `i` with `from <= i < to` at which `p` holds, if there is one.
pub open spec fn first_index(p: spec_fn(int) -> bool, from: int, to: int) -> Option<int>
    decreases to - from,
{
    if from >= to {
        None
    } else if p(from) {
        Some(from)
    } else {
        first_index(p, from + 1, to)
    }
}

/// `first_index` finds a position at which `p` holds and before which it
/// does not; it finds none only where `p` holds nowhere.
pub proof fn lemma_first_index(p: spec_fn(int) -> bool, from: int, to: int)
    ensures
        match first_index(p, from, to) {
            Some(i) => from <= i < to && p(i) && forall|j: int| from <= j < i ==> !(#[trigger] p(j)),
            None => forall|j: int| from <= j < to ==> !(#[trigger] p(j)),
        },
    decreases to - from,
{
    if from < to && !p(from) {
        lemma_first_index(p, from + 1, to);
    }
}

/// A position at which `p` holds and before which it does not is the one
/// that `first_index` finds.
pub proof fn lemma_first_index_is(p: spec_fn(int) -> bool, from: int, to: int, at: int)
    requires
        from <= at < to,
        p(at),
        forall|j: int| from <= j < at ==> !(#[trigger] p(j)),
    ensures
        first_index(p, from, to) == Some(at),
    decreases at - from,
{
    if from < at {
        lemma_first_index_is(p, from + 1, to, at);
    }
}

/// Where `p` holds nowhere, `first_index` finds nothing.
pub proof fn lemma_first_index_none(p: spec_fn(int) -> bool, from: int, to: int)
    requires
        forall|j: int| from <= j < to ==> !(#[trigger] p(j)),
    ensures
        first_index(p, from, to) is None,
    decreases to - from,
{
    if from < to {
        lemma_first_index_none(p, from + 1, to);
    }
}

/// Two conditions that agree between `from` and `to` have the same first
/// position there.
pub proof fn lemma_first_index_agree(
    p: spec_fn(int) -> bool,
    q: spec_fn(int) -> bool,
    from: int,
    to: int,
)
    requires
        forall|j: int| from <= j < to ==> (#[trigger] p(j)) == (#[trigger] q(j)),
    ensures
        first_index(p, from, to) == first_index(q, from, to),
    decreases to - from,
{
    if from < to {
        lemma_first_index_agree(p, q, from + 1, to);
    }
}

} // verus!
