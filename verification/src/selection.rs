//! Selecting the positions of a list that satisfy a condition, in order.
use vstd::prelude::*;

verus! {

/// The positions `0 <= k < n` at which `p` holds, in increasing order.
pub open spec fn indices_where(n: int, p: spec_fn(int) -> bool) -> Seq<int>
    decreases n,
{
    if n <= 0 {
        Seq::empty()
    } else if p(n - 1) {
        indices_where(n - 1, p).push(n - 1)
    } else {
        indices_where(n - 1, p)
    }
}

/// The selected positions are increasing, lie below `n` and are exactly the
/// positions where `p` holds.
pub proof fn lemma_indices_where(n: int, p: spec_fn(int) -> bool)
    requires
        n >= 0,
    ensures
        indices_where(n, p).len() <= n,
        forall|k: int|
            0 <= k < indices_where(n, p).len() ==> 0 <= #[trigger] indices_where(n, p)[k] < n
                && p(indices_where(n, p)[k]),
        forall|a: int, b: int|
            0 <= a < b < indices_where(n, p).len() ==> indices_where(n, p)[a] < indices_where(n, p)[b],
        forall|j: int| 0 <= j < n && #[trigger] p(j) ==> indices_where(n, p).contains(j),
    decreases n,
{
    if n > 0 {
        lemma_indices_where(n - 1, p);
        let prev = indices_where(n - 1, p);
        if p(n - 1) {
            assert(indices_where(n, p) == prev.push(n - 1));
            assert forall|j: int| 0 <= j < n && #[trigger] p(j) implies indices_where(n, p).contains(j) by {
                if j < n - 1 {
                    let k = choose|k: int| 0 <= k < prev.len() && prev[k] == j;
                    assert(indices_where(n, p)[k] == j);
                } else {
                    assert(indices_where(n, p)[prev.len() as int] == j);
                }
            }
        }
    }
}

/// Where each position satisfies exactly one of `p`, `q` and `r`, the three
/// selections together count every position.
pub proof fn lemma_three_way_split(
    n: int,
    p: spec_fn(int) -> bool,
    q: spec_fn(int) -> bool,
    r: spec_fn(int) -> bool,
)
    requires
        n >= 0,
        forall|k: int|
            0 <= k < n ==> (#[trigger] p(k) && !q(k) && !r(k)) || (!p(k) && q(k) && !r(k)) || (!p(k)
                && !q(k) && r(k)),
    ensures
        indices_where(n, p).len() + indices_where(n, q).len() + indices_where(n, r).len() == n,
    decreases n,
{
    if n > 0 {
        assert(p(n - 1) || !p(n - 1));
        lemma_three_way_split(n - 1, p, q, r);
    }
}

/// The first position `0 <= k < n` at which `p` holds.
pub open spec fn first_where(n: int, p: spec_fn(int) -> bool) -> Option<int>
    decreases n,
{
    if n <= 0 {
        None
    } else {
        match first_where(n - 1, p) {
            Some(k) => Some(k),
            None => if p(n - 1) {
                Some(n - 1)
            } else {
                None
            },
        }
    }
}

/// Once found, the first position stays the first as more positions are
/// considered; and it is a position where `p` holds, with none before it.
pub proof fn lemma_first_where(j: int, n: int, p: spec_fn(int) -> bool)
    requires
        0 <= j <= n,
    ensures
        first_where(j, p) is Some ==> first_where(n, p) == first_where(j, p),
        first_where(n, p) matches Some(k) ==> 0 <= k < n && p(k) && forall|i: int| 0 <= i < k ==> !#[trigger] p(i),
        first_where(n, p) is None ==> forall|i: int| 0 <= i < n ==> !#[trigger] p(i),
    decreases n,
{
    if n > 0 {
        if j < n {
            lemma_first_where(j, n - 1, p);
        } else {
            lemma_first_where(n - 1, n - 1, p);
        }
    }
}

} // verus!
