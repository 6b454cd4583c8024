//! Stable sorting of items that carry their own ranking.

use vstd::prelude::*;

verus! {

/// Items with a ranking: a strict weak order that says which of two items
/// must come first.
pub trait Ranked: Sized {
    /// Whether `self` must come before `other`.
    spec fn outranks(&self, other: &Self) -> bool;

    /// Decides `outranks`.
    fn is_ahead_of(&self, other: &Self) -> (r: bool)
        ensures
            r == self.outranks(other),
    ;

    /// No two items outrank each other, and where `a` does not outrank `b`
    /// nor `b` outrank `c`, `a` does not outrank `c`.
    proof fn lemma_ranking(a: &Self, b: &Self, c: &Self)
        ensures
            !(a.outranks(b) && b.outranks(a)),
            !a.outranks(b) && !b.outranks(c) ==> !a.outranks(c),
    ;
}

/// Whether the item at position `p` of `input` comes before the one at `q`
/// once `input` is sorted: it outranks it, or neither outranks the other and
/// it stands before it in `input`.
pub open spec fn precedes<T: Ranked>(input: Seq<T>, p: int, q: int) -> bool {
    input[p].outranks(&input[q]) || (!input[q].outranks(&input[p]) && p < q)
}

/// Whether `order` lists every position of `input` once, so that an item that
/// outranks another comes first and items of equal rank keep the order they
/// have in `input`.
pub open spec fn is_stable_order<T: Ranked>(input: Seq<T>, order: Seq<int>) -> bool {
    &&& order.len() == input.len()
    &&& forall|i: int| 0 <= i < order.len() ==> 0 <= #[trigger] order[i] < input.len()
    &&& forall|i: int, j: int|
        0 <= i < j < order.len() ==> precedes(input, #[trigger] order[i], #[trigger] order[j])
}

/// The items of `input` in the order that `order` lists their positions.
pub open spec fn arranged<T>(input: Seq<T>, order: Seq<int>) -> Seq<T> {
    Seq::new(order.len(), |i: int| input[order[i]])
}

/// Whether `output` is `input` sorted by rank, items of equal rank in the
/// order they had.
pub open spec fn is_stable_sort<T: Ranked>(input: Seq<T>, output: Seq<T>) -> bool {
    exists|order: Seq<int>| is_stable_order(input, order) && output == arranged(input, order)
}

/// Sorts `items` by rank. The sort is stable.
pub fn stable_sort<T: Ranked>(items: Vec<T>) -> (sorted: Vec<T>)
    ensures
        is_stable_sort(items@, sorted@),
{
    let ghost input = items@;
    let mut rest = items;
    let mut sorted: Vec<T> = Vec::new();
    let ghost mut order: Seq<int> = Seq::empty();
    while rest.len() > 0
        invariant
            rest@ == input.take(rest.len() as int),
            rest.len() <= input.len(),
            order.len() == sorted.len(),
            sorted.len() == input.len() - rest.len(),
            forall|i: int| 0 <= i < order.len() ==> rest.len() <= #[trigger] order[i] < input.len(),
            sorted@ == arranged(input, order),
            forall|i: int, j: int|
                0 <= i < j < order.len() ==> precedes(
                    input,
                    #[trigger] order[i],
                    #[trigger] order[j],
                ),
        decreases rest.len(),
    {
        let ghost m: int = rest.len() - 1;
        let item = rest.pop().unwrap();
        assert(item == input[m]);
        assert(rest@ =~= input.take(m));
        let mut at: usize = 0;
        while at < sorted.len() && sorted[at].is_ahead_of(&item)
            invariant
                at <= sorted.len(),
                forall|i: int| 0 <= i < at ==> (#[trigger] sorted@[i]).outranks(&item),
            decreases sorted.len() - at,
        {
            at = at + 1;
        }
        let ghost before = order;
        let ghost placed = sorted@;
        sorted.insert(at, item);
        proof {
            order = before.insert(at as int, m);
            assert(sorted@ =~= arranged(input, order));
            assert forall|i: int, j: int| 0 <= i < j < order.len() implies precedes(
                input,
                #[trigger] order[i],
                #[trigger] order[j],
            ) by {
                if j == at {
                    assert(order[i] == before[i]);
                    assert(placed[i] == input[before[i]]);
                } else if i == at {
                    assert(order[j] == before[j - 1]);
                    assert(placed[j - 1] == input[before[j - 1]]);
                    assert(placed[at as int] == input[before[at as int]]);
                    T::lemma_ranking(&placed[j - 1], &placed[at as int], &item);
                    T::lemma_ranking(&placed[at as int], &placed[j - 1], &item);
                    if at < j - 1 {
                        assert(precedes(input, before[at as int], before[j - 1]));
                    }
                } else {
                    let p = if i < at { i } else { i - 1 };
                    let q = if j < at { j } else { j - 1 };
                    assert(order[i] == before[p]);
                    assert(order[j] == before[q]);
                }
            }
        }
    }
    assert(rest.len() == 0);
    assert(is_stable_order(input, order));
    sorted
}

/// Of two different positions at most one comes before the other, and no
/// position comes before itself.
pub proof fn lemma_precedes_one_way<T: Ranked>(input: Seq<T>, p: int, q: int)
    ensures
        !(precedes(input, p, q) && precedes(input, q, p)),
{
    T::lemma_ranking(&input[p], &input[q], &input[p]);
}

/// A stable order names every position of its input.
pub proof fn lemma_order_names_every_position<T: Ranked>(input: Seq<T>, order: Seq<int>, p: int)
    requires
        is_stable_order(input, order),
        0 <= p < input.len(),
    ensures
        exists|k: int| 0 <= k < order.len() && order[k] == p,
{
    let n = input.len() as int;
    assert forall|i: int, j: int| 0 <= i < order.len() && 0 <= j < order.len() && i != j implies order[i]
        != order[j] by {
        lemma_precedes_one_way(input, order[i], order[j]);
        if i < j {
            assert(precedes(input, order[i], order[j]));
        } else {
            assert(precedes(input, order[j], order[i]));
        }
    }
    order.unique_seq_to_set();
    vstd::set_lib::lemma_int_range(0, n);
    let all = vstd::set_lib::set_int_range(0, n);
    assert forall|x: int| order.to_set().contains(x) implies all.contains(x) by {
        let k = choose|k: int| 0 <= k < order.len() && order[k] == x;
        assert(0 <= order[k] < n);
    }
    vstd::set_lib::lemma_len_subset(order.to_set(), all);
    vstd::set_lib::lemma_subset_equality(order.to_set(), all);
    assert(all.contains(p));
    assert(order.to_set().contains(p));
    assert(order.contains(p));
}

/// A sequence of `n` indices below `n` that grows strictly counts from zero.
proof fn lemma_growing_indices(g: Seq<int>, i: int)
    requires
        forall|k: int| 0 <= k < g.len() ==> 0 <= #[trigger] g[k] < g.len(),
        forall|k: int, l: int| 0 <= k < l < g.len() ==> #[trigger] g[k] < #[trigger] g[l],
        0 <= i < g.len(),
    ensures
        g[i] == i,
{
    lemma_growing_from_below(g, i);
    lemma_growing_from_above(g, i);
}

proof fn lemma_growing_from_below(g: Seq<int>, i: int)
    requires
        forall|k: int| 0 <= k < g.len() ==> 0 <= #[trigger] g[k] < g.len(),
        forall|k: int, l: int| 0 <= k < l < g.len() ==> #[trigger] g[k] < #[trigger] g[l],
        0 <= i < g.len(),
    ensures
        g[i] >= i,
    decreases i,
{
    if i > 0 {
        lemma_growing_from_below(g, i - 1);
    }
}

proof fn lemma_growing_from_above(g: Seq<int>, i: int)
    requires
        forall|k: int| 0 <= k < g.len() ==> 0 <= #[trigger] g[k] < g.len(),
        forall|k: int, l: int| 0 <= k < l < g.len() ==> #[trigger] g[k] < #[trigger] g[l],
        0 <= i < g.len(),
    ensures
        g[i] <= i,
    decreases g.len() - i,
{
    if i < g.len() - 1 {
        lemma_growing_from_above(g, i + 1);
    }
}

/// An input has one stable order only.
pub proof fn lemma_stable_order_unique<T: Ranked>(input: Seq<T>, first: Seq<int>, second: Seq<int>)
    requires
        is_stable_order(input, first),
        is_stable_order(input, second),
    ensures
        first == second,
{
    let n = input.len() as int;
    let place = |i: int| choose|k: int| 0 <= k < second.len() && second[k] == first[i];
    let g = Seq::new(input.len(), place);
    assert forall|i: int| 0 <= i < n implies 0 <= #[trigger] g[i] < n && second[g[i]] == first[i] by {
        lemma_order_names_every_position(input, second, first[i]);
    }
    assert forall|k: int, l: int| 0 <= k < l < g.len() implies #[trigger] g[k] < #[trigger] g[l] by {
        assert(second[g[k]] == first[k]);
        assert(second[g[l]] == first[l]);
        assert(precedes(input, first[k], first[l]));
        lemma_precedes_one_way(input, first[k], first[l]);
        if g[l] < g[k] {
            assert(precedes(input, second[g[l]], second[g[k]]));
        }
    }
    assert forall|i: int| 0 <= i < n implies first[i] == second[i] by {
        lemma_growing_indices(g, i);
        assert(second[g[i]] == first[i]);
    }
    assert(first =~= second);
}

/// Sorting pins its result down: an input has one stable sort only.
pub proof fn lemma_stable_sort_unique<T: Ranked>(input: Seq<T>, first: Seq<T>, second: Seq<T>)
    requires
        is_stable_sort(input, first),
        is_stable_sort(input, second),
    ensures
        first == second,
{
    let a = choose|order: Seq<int>| is_stable_order(input, order) && first == arranged(input, order);
    let b = choose|order: Seq<int>|
        is_stable_order(input, order) && second == arranged(input, order);
    lemma_stable_order_unique(input, a, b);
}

/// In a stable sort no item stands before one that outranks it, and the
/// result is as long as the input.
pub proof fn lemma_stable_sort_is_sorted<T: Ranked>(input: Seq<T>, output: Seq<T>)
    requires
        is_stable_sort(input, output),
    ensures
        output.len() == input.len(),
        forall|i: int, j: int|
            #![trigger output[i], output[j]]
            0 <= i < j < output.len() ==> !output[j].outranks(&output[i]),
{
    let order = choose|order: Seq<int>|
        is_stable_order(input, order) && output == arranged(input, order);
    assert forall|i: int, j: int|
        #![trigger output[i], output[j]]
        0 <= i < j < output.len() implies !output[j].outranks(&output[i]) by {
        assert(precedes(input, order[i], order[j]));
        lemma_precedes_one_way(input, order[i], order[j]);
    }
}


} // verus!
