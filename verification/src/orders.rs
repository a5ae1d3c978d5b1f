//! The orderings of the word positions, in the order in which a search walks them.

use itertools::Itertools;
use vstd::prelude::*;

verus! {

/// The product of the numbers from 1 to `n`.
pub open spec fn factorial(n: nat) -> nat
    decreases n,
{
    if n == 0 {
        1
    } else {
        n * factorial((n - 1) as nat)
    }
}

/// `p` holds each of the positions `0 .. n` exactly once.
pub open spec fn is_order(p: Seq<usize>, n: nat) -> bool {
    &&& p.len() == n
    &&& forall|i: int| 0 <= i < p.len() ==> (#[trigger] p[i]) < n
    &&& forall|i: int, j: int| 0 <= i < j < p.len() ==> #[trigger] p[i] != #[trigger] p[j]
}

/// `a` comes before `b` in lexicographic order: at the first place where they
/// differ, `a` holds the smaller position.
pub open spec fn lex_less(a: Seq<usize>, b: Seq<usize>) -> bool {
    exists|k: int|
        0 <= k < a.len() && k < b.len() && #[trigger] a[k] < b[k] && a.subrange(0, k) == b.subrange(
            0,
            k,
        )
}

/// `s` walks the orderings of `n` positions: all `n!` of them, each later
/// one lexicographically greater than every earlier one.
pub open spec fn is_lex_walk(s: Seq<Seq<usize>>, n: nat) -> bool {
    &&& s.len() == factorial(n)
    &&& forall|i: int| 0 <= i < s.len() ==> is_order(#[trigger] s[i], n)
    &&& forall|i: int, j: int| 0 <= i < j < s.len() ==> lex_less(#[trigger] s[i], #[trigger] s[j])
    &&& forall|p: Seq<usize>| #[trigger] is_order(p, n) ==> s.contains(p)
}

/// The positions `0 .. n` in their given order.
pub open spec fn given_order(n: nat) -> Seq<usize> {
    Seq::new(n, |i: int| i as usize)
}

/// The iterator over orderings of the `itertools` crate.
#[verifier::external_type_specification]
#[verifier::external_body]
#[verifier::reject_recursive_types(I)]
pub struct ExPermutations<I: Iterator>(itertools::structs::Permutations<I>);

/// The orderings that `itertools::Itertools::permutations` yields, one after
/// another, for the positions `0 .. n` taken `n` at a time.
pub uninterp spec fn index_orders(n: nat) -> Seq<Seq<usize>>;

/// The orderings that an `itertools::structs::Permutations` has yet to yield,
/// the next one first.
pub uninterp spec fn upcoming(
    orders: itertools::structs::Permutations<core::ops::Range<usize>>,
) -> Seq<Seq<usize>>;

/// Calls `itertools::Itertools::permutations` on the range `0 .. n` with
/// length `n`. Trusted: the iterator yields `index_orders(n)`, which are all
/// `n!` orderings of the positions, in lexicographic order.
#[verifier::external_body]
pub(crate) fn start_orders(n: usize) -> (orders: itertools::structs::Permutations<
    core::ops::Range<usize>,
>)
    requires
        n <= 20,
    ensures
        upcoming(orders) == index_orders(n as nat),
        is_lex_walk(upcoming(orders), n as nat),
{
    (0..n).permutations(n)
}

/// Calls `Iterator::next` on an `itertools::structs::Permutations`. Trusted:
/// it hands out the first ordering that was still to come and keeps the
/// rest; once none is left it returns `None` and stays empty.
#[verifier::external_body]
pub(crate) fn next_order(
    orders: &mut itertools::structs::Permutations<core::ops::Range<usize>>,
) -> (order: Option<Vec<usize>>)
    ensures
        match order {
            Some(p) => upcoming(*old(orders)).len() > 0 && p@ == upcoming(*old(orders))[0]
                && upcoming(*final(orders)) == upcoming(*old(orders)).skip(1),
            None => upcoming(*old(orders)).len() == 0 && upcoming(*final(orders)).len() == 0,
        },
{
    orders.next()
}

/// The number of orderings that a walk over `count` positions with the
/// budget `budget` visits.
pub open spec fn walk_limit(count: nat, budget: nat) -> nat {
    if budget < factorial(count) {
        budget
    } else {
        factorial(count)
    }
}

/// The first orderings of `count` positions in enumeration order: `budget`
/// of them, or all `count!` where the budget is no smaller.
pub fn first_orders(count: usize, budget: usize) -> (visited: Vec<Vec<usize>>)
    requires
        count <= 20,
    ensures
        visited@.len() == walk_limit(count as nat, budget as nat),
        forall|i: int|
            0 <= i < visited@.len() ==> (#[trigger] visited@[i])@ == index_orders(count as nat)[i],
        is_lex_walk(index_orders(count as nat), count as nat),
{
    let ghost all = index_orders(count as nat);
    let mut orders = start_orders(count);
    let mut visited: Vec<Vec<usize>> = Vec::new();
    assert(all.skip(0) =~= all);
    while visited.len() < budget
        invariant
            all == index_orders(count as nat),
            is_lex_walk(all, count as nat),
            visited@.len() <= all.len(),
            visited@.len() <= budget,
            upcoming(orders) == all.skip(visited@.len() as int),
            forall|i: int| 0 <= i < visited@.len() ==> (#[trigger] visited@[i])@ == all[i],
        decreases budget - visited@.len(),
    {
        match next_order(&mut orders) {
            None => {
                return visited;
            },
            Some(order) => {
                let ghost done = visited@.len() as int;
                assert(all.skip(done).skip(1) =~= all.skip(done + 1));
                visited.push(order);
            },
        }
    }
    visited
}

/// No ordering occurs twice in a lexicographic walk.
pub proof fn lex_walk_is_distinct(s: Seq<Seq<usize>>, n: nat, i: int, j: int)
    requires
        is_lex_walk(s, n),
        0 <= i < j < s.len(),
    ensures
        s[i] != s[j],
{
    assert(lex_less(s[i], s[j]));
}

/// A lexicographic walk begins with the positions in their given order.
pub proof fn lex_walk_starts_in_given_order(s: Seq<Seq<usize>>, n: nat)
    requires
        is_lex_walk(s, n),
        n <= usize::MAX,
    ensures
        s.len() > 0,
        s[0] == given_order(n),
{
    let given = given_order(n);
    assert(is_order(given, n));
    assert(s.contains(given));
    let at = choose|at: int| 0 <= at < s.len() && s[at] == given;
    if at > 0 {
        let first = s[0];
        assert(is_order(first, n));
        assert(lex_less(first, s[at]));
        let k = choose|k: int|
            0 <= k < first.len() && k < given.len() && #[trigger] first[k] < given[k]
                && first.subrange(0, k) == given.subrange(0, k);
        let j = first[k] as int;
        assert(j < k);
        assert(first.subrange(0, k)[j] == given.subrange(0, k)[j]);
        assert(first[j] == first[k]);
    }
}

} // verus!
