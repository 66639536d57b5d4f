//! Facts about sequences, and a way to take a vector's elements in order.
use vstd::prelude::*;

verus! {

/// The elements of `v` in reverse order, so that popping yields them first
/// to last.
pub(crate) fn reversed<T>(v: Vec<T>) -> (r: Vec<T>)
    ensures
        r@ == v@.reverse(),
{
    let ghost orig = v@;
    let mut v = v;
    let mut r: Vec<T> = Vec::new();
    while v.len() > 0
        invariant
            v@.len() <= orig.len(),
            v@ == orig.take(v@.len() as int),
            r@ == orig.skip(v@.len() as int).reverse(),
        decreases v@.len(),
    {
        let ghost k = v@.len() as int;
        let x = v.pop().unwrap();
        r.push(x);
        assert(r@ =~= orig.skip(k - 1).reverse());
        assert(v@ =~= orig.take(k - 1));
    }
    assert(orig.skip(0) =~= orig);
    r
}

/// Pops the first of the remaining items from a reversed list.
pub(crate) proof fn lemma_reversed_pop<T>(items: Seq<T>, i: int)
    requires
        0 <= i < items.len(),
    ensures
        items.skip(i).reverse().last() == items[i],
        items.skip(i).reverse().drop_last() =~= items.skip(i + 1).reverse(),
{
}

/// Extending a mapped and flattened prefix by one more item.
pub(crate) proof fn lemma_flatten_step<T, U>(items: Seq<T>, f: spec_fn(T) -> Seq<U>, i: int)
    requires
        0 <= i < items.len(),
    ensures
        items.take(i + 1).map_values(f).flatten() =~= items.take(i).map_values(f).flatten() + f(
            items[i],
        ),
{
    assert(items.take(i + 1).map_values(f) =~= items.take(i).map_values(f).push(f(items[i])));
    items.take(i).map_values(f).lemma_flatten_push(f(items[i]));
}

/// Flattening a list of singletons gives the list.
pub(crate) proof fn lemma_flatten_singletons<T>(items: Seq<T>, parts: Seq<Seq<T>>)
    requires
        parts.len() == items.len(),
        forall|j: int| 0 <= j < items.len() ==> #[trigger] parts[j] == seq![items[j]],
    ensures
        parts.flatten() == items,
    decreases items.len(),
{
    if items.len() > 0 {
        let init = items.drop_last();
        let pinit = parts.drop_last();
        assert forall|j: int| 0 <= j < init.len() implies #[trigger] pinit[j] == seq![init[j]] by {
            assert(parts[j] == seq![items[j]]);
        }
        lemma_flatten_singletons(init, pinit);
        assert(parts =~= pinit.push(parts.last()));
        pinit.lemma_flatten_push(parts.last());
        assert(parts[items.len() - 1] == seq![items.last()]);
        assert(items =~= init.push(items.last()));
    }
}

/// Keeping the items that pass a test drops at least one item when one
/// item fails it.
pub(crate) proof fn lemma_filter_shorter<T>(items: Seq<T>, p: spec_fn(T) -> bool, k: int)
    requires
        0 <= k < items.len(),
        !p(items[k]),
    ensures
        items.filter(p).len() < items.len(),
    decreases items.len(),
{
    let init = items.drop_last();
    assert(items =~= init.push(items.last()));
    init.lemma_filter_push(items.last(), p);
    init.lemma_filter_len(p);
    if k < items.len() - 1 {
        assert(init[k] == items[k]);
        lemma_filter_shorter(init, p, k);
    }
}

/// Keeping the items that all pass the test keeps the list.
pub(crate) proof fn lemma_filter_keeps_all<T>(items: Seq<T>, p: spec_fn(T) -> bool)
    requires
        forall|j: int| 0 <= j < items.len() ==> #[trigger] p(items[j]),
    ensures
        items.filter(p) == items,
    decreases items.len(),
{
    if items.len() > 0 {
        let init = items.drop_last();
        assert forall|j: int| 0 <= j < init.len() implies #[trigger] p(init[j]) by {
            assert(p(items[j]));
        }
        lemma_filter_keeps_all(init, p);
        init.lemma_filter_push(items.last(), p);
        assert(p(items[items.len() - 1]));
        assert(items =~= init.push(items.last()));
    }
}

} // verus!
