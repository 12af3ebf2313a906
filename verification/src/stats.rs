//! Progress tracking shared by the transfer pipelines.
use std::sync::Arc;
use vstd::prelude::*;

verus! {

/// A non-negative progress counter.
///
/// The counter only ever grows: every mutation goes through
/// [`Counter::increment`], which adds a non-negative amount. It is used
/// for human-readable progress lines only, never for control decisions.
pub struct Counter {
    value: usize,
}

impl View for Counter {
    type V = nat;

    closed spec fn view(&self) -> nat {
        self.value as nat
    }
}

impl Counter {
    /// Constructs a new counter from a starting value.
    pub fn new(start: usize) -> (r: Self)
        ensures
            r@ == start as nat,
    {
        Counter { value: start }
    }

    /// Constructs a counter behind shared ownership, ready to be handed
    /// to several workers in turn.
    pub fn shared(start: usize) -> (r: Arc<Self>)
        ensures
            r@ == start as nat,
    {
        Arc::new(Self::new(start))
    }

    /// Increments this counter by a given amount.
    ///
    /// Returns the value of the counter *after* the increment.
    pub fn increment(&mut self, amount: usize) -> (r: usize)
        requires
            old(self)@ + amount <= usize::MAX,
        ensures
            final(self)@ == old(self)@ + amount,
            r as nat == final(self)@,
    {
        self.value = self.value + amount;
        self.value
    }

    /// Reads the current value of the counter.
    pub fn get(&self) -> (r: usize)
        ensures
            r as nat == self@,
    {
        self.value
    }
}

/// The sum of a sequence of per-page counts.
pub open spec fn total_of(counts: Seq<usize>) -> int
    decreases counts.len(),
{
    if counts.len() == 0 {
        0
    } else {
        counts[0] + total_of(counts.drop_first())
    }
}

/// The counter value after taking one increment per count, in order.
pub open spec fn run_total(start: int, counts: Seq<usize>) -> int
    decreases counts.len(),
{
    if counts.len() == 0 {
        start
    } else {
        run_total(start + counts[0], counts.drop_first())
    }
}

/// Running the increments in order adds up to the plain sum.
pub proof fn lemma_run_total(start: int, counts: Seq<usize>)
    ensures
        run_total(start, counts) == start + total_of(counts),
    decreases counts.len(),
{
    if counts.len() > 0 {
        lemma_run_total(start + counts[0], counts.drop_first());
    }
}

/// Taking one element out of a sum takes out exactly its value.
proof fn lemma_total_remove(s: Seq<usize>, i: int)
    requires
        0 <= i < s.len(),
    ensures
        total_of(s.remove(i)) == total_of(s) - s[i],
    decreases i,
{
    if i == 0 {
        assert(s.remove(0) =~= s.drop_first());
    } else {
        assert(s.remove(i)[0] == s[0]);
        assert(s.remove(i).drop_first() =~= s.drop_first().remove(i - 1));
        lemma_total_remove(s.drop_first(), i - 1);
        assert(s.drop_first()[i - 1] == s[i]);
    }
}

/// Two orders of the same counts sum to the same total.
pub proof fn lemma_total_permutation(a: Seq<usize>, b: Seq<usize>)
    requires
        a.to_multiset() == b.to_multiset(),
    ensures
        total_of(a) == total_of(b),
    decreases a.len(),
{
    a.to_multiset_ensures();
    b.to_multiset_ensures();
    if a.len() == 0 {
        assert(b.to_multiset().len() == 0);
        assert(b.len() == 0);
    } else {
        let x = a[0];
        assert(a.contains(x));
        assert(b.to_multiset().count(x) > 0);
        assert(b.contains(x));
        let i = choose|i: int| 0 <= i < b.len() && b[i] == x;
        assert(a.remove(0) =~= a.drop_first());
        assert(a.drop_first().to_multiset() =~= a.to_multiset().remove(x));
        assert(b.remove(i).to_multiset() =~= b.to_multiset().remove(x));
        lemma_total_permutation(a.drop_first(), b.remove(i));
        lemma_total_remove(b, i);
    }
}

/// Law: the sum of the counter increments across all workers equals the
/// total number of hits emitted, independent of the interleaving order.
/// However the per-page increments of the workers interleave into one
/// observed order, the counter ends at its start plus the total of what
/// the workers emitted.
pub proof fn lemma_counter_interleaving(start: int, observed: Seq<usize>, emitted: Seq<usize>)
    requires
        observed.to_multiset() == emitted.to_multiset(),
    ensures
        run_total(start, observed) == start + total_of(emitted),
{
    lemma_run_total(start, observed);
    lemma_total_permutation(observed, emitted);
}

} // verus!
