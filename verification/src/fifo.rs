//! Bounded first-in-first-out queues that evict their oldest whole
//! entries when a push takes them over a byte budget.
use vstd::prelude::*;

verus! {

/// The summed cost of the entries of `q`.
pub open spec fn total<T>(q: Seq<T>, cost: spec_fn(T) -> nat) -> nat
    decreases q.len(),
{
    if q.len() == 0 {
        0
    } else {
        cost(q[0]) + total(q.drop_first(), cost)
    }
}

/// `q` with its oldest entries dropped while it costs more than `cap`
/// and holds more than one entry.
pub open spec fn evict_front<T>(q: Seq<T>, cost: spec_fn(T) -> nat, cap: nat) -> Seq<T>
    decreases q.len(),
{
    if total(q, cost) > cap && q.len() > 1 {
        evict_front(q.drop_first(), cost, cap)
    } else {
        q
    }
}

/// `q` after pushing `x` and evicting.
pub open spec fn push_evict<T>(q: Seq<T>, x: T, cost: spec_fn(T) -> nat, cap: nat) -> Seq<T> {
    evict_front(q.push(x), cost, cap)
}

/// `q` after pushing the entries of `new` one by one, evicting after
/// each push.
pub open spec fn push_all<T>(q: Seq<T>, new: Seq<T>, cost: spec_fn(T) -> nat, cap: nat) -> Seq<T>
    decreases new.len(),
{
    if new.len() == 0 {
        q
    } else {
        push_all(push_evict(q, new[0], cost, cap), new.drop_first(), cost, cap)
    }
}

/// Pushing a batch and then one more entry is pushing the longer batch.
pub proof fn lemma_push_all_snoc<T>(q: Seq<T>, new: Seq<T>, x: T, cost: spec_fn(T) -> nat, cap: nat)
    ensures
        push_all(q, new.push(x), cost, cap) == push_evict(push_all(q, new, cost, cap), x, cost, cap),
    decreases new.len(),
{
    if new.len() == 0 {
        assert(new.push(x).drop_first() =~= Seq::<T>::empty());
        assert(new.push(x)[0] == x);
        let q1 = push_evict(q, x, cost, cap);
        assert(push_all(q1, Seq::<T>::empty(), cost, cap) == q1);
    } else {
        assert(new.push(x).drop_first() =~= new.drop_first().push(x));
        assert(new.push(x)[0] == new[0]);
        lemma_push_all_snoc(push_evict(q, new[0], cost, cap), new.drop_first(), x, cost, cap);
    }
}

/// Pushing adds the pushed entry's cost.
pub proof fn lemma_total_push<T>(q: Seq<T>, x: T, cost: spec_fn(T) -> nat)
    ensures
        total(q.push(x), cost) == total(q, cost) + cost(x),
    decreases q.len(),
{
    if q.len() > 0 {
        assert(q.push(x).drop_first() =~= q.drop_first().push(x));
        lemma_total_push(q.drop_first(), x, cost);
    } else {
        assert(q.push(x).drop_first() =~= Seq::<T>::empty());
        assert(total(q.push(x).drop_first(), cost) == 0);
    }
}

/// The cost of a sequence is the cost of a prefix plus the cost of the rest.
pub proof fn lemma_total_split<T>(q: Seq<T>, i: int, cost: spec_fn(T) -> nat)
    requires
        0 <= i <= q.len(),
    ensures
        total(q, cost) == total(q.take(i), cost) + total(q.skip(i), cost),
    decreases i,
{
    if i == 0 {
        assert(q.take(0) =~= Seq::<T>::empty());
        assert(q.skip(0) =~= q);
    } else {
        lemma_total_split(q.drop_first(), i - 1, cost);
        assert(q.take(i).drop_first() =~= q.drop_first().take(i - 1));
        assert(q.skip(i) =~= q.drop_first().skip(i - 1));
    }
}

/// Evicting keeps a non-empty suffix that fits the budget unless it is
/// down to a single entry.
pub proof fn lemma_evict_front<T>(q: Seq<T>, cost: spec_fn(T) -> nat, cap: nat)
    ensures
        exists|k: int| 0 <= k <= q.len() && #[trigger] q.skip(k) == evict_front(q, cost, cap),
        total(evict_front(q, cost, cap), cost) <= cap || evict_front(q, cost, cap).len() <= 1,
        q.len() > 0 ==> evict_front(q, cost, cap).len() > 0,
        q.len() > 0 ==> evict_front(q, cost, cap).last() == q.last(),
    decreases q.len(),
{
    if total(q, cost) > cap && q.len() > 1 {
        lemma_evict_front(q.drop_first(), cost, cap);
        let k = choose|k: int| 0 <= k <= q.drop_first().len() && #[trigger] q.drop_first().skip(k) == evict_front(q.drop_first(), cost, cap);
        assert(q.skip(k + 1) =~= q.drop_first().skip(k));
    } else {
        assert(q.skip(0) =~= q);
    }
}

/// Bounded FIFO: pushing a batch leaves a suffix of the old entries
/// followed by the new ones; it fits the budget unless a single entry
/// is left; it ends with the last entry pushed, so the newest entry is
/// always admitted.
pub proof fn lemma_push_all<T>(q: Seq<T>, new: Seq<T>, cost: spec_fn(T) -> nat, cap: nat)
    requires
        total(q, cost) <= cap || q.len() <= 1,
    ensures
        exists|k: int| 0 <= k <= q.len() + new.len() && #[trigger] (q + new).skip(k) == push_all(q, new, cost, cap),
        total(push_all(q, new, cost, cap), cost) <= cap || push_all(q, new, cost, cap).len() <= 1,
        new.len() > 0 ==> push_all(q, new, cost, cap).len() > 0 && push_all(q, new, cost, cap).last() == new.last(),
        new.len() == 0 ==> push_all(q, new, cost, cap) == q,
    decreases new.len(),
{
    if new.len() == 0 {
        assert((q + new).skip(0) =~= q);
    } else {
        let q1 = push_evict(q, new[0], cost, cap);
        lemma_evict_front(q.push(new[0]), cost, cap);
        let k1 = choose|k: int| 0 <= k <= q.push(new[0]).len() && #[trigger] q.push(new[0]).skip(k) == q1;
        lemma_push_all(q1, new.drop_first(), cost, cap);
        let k2 = choose|k: int|
            0 <= k <= q1.len() + new.drop_first().len() && #[trigger] (q1 + new.drop_first()).skip(k) == push_all(
                q1,
                new.drop_first(),
                cost,
                cap,
            );
        assert((q1 + new.drop_first()) =~= (q + new).skip(k1));
        assert((q + new).skip(k1 + k2) =~= (q1 + new.drop_first()).skip(k2));
        if new.len() == 1 {
            assert(new.drop_first().len() == 0);
            assert(q1.last() == new[0]);
        } else {
            assert(new.drop_first().last() == new.last());
        }
    }
}

} // verus!
