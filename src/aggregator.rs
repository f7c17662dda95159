use vstd::prelude::*;

use crate::model::AveragePrice;

verus! {

/// Sum of a sequence of integers.
pub open spec fn sum_of(s: Seq<u64>) -> int
    decreases s.len(),
{
    if s.len() == 0 {
        0
    } else {
        sum_of(s.drop_last()) + s.last()
    }
}

/// Unweighted arithmetic mean, rounded down; zero for an empty sequence.
pub open spec fn mean_of(s: Seq<u64>) -> int {
    if s.len() == 0 {
        0
    } else {
        sum_of(s) / (s.len() as int)
    }
}

/// Each element is at most `u64::MAX`, so the sum is bounded by the length.
pub proof fn lemma_sum_bounds(s: Seq<u64>)
    ensures
        0 <= sum_of(s) <= s.len() * (u64::MAX as int),
    decreases s.len(),
{
    if s.len() > 0 {
        lemma_sum_bounds(s.drop_last());
    }
}

/// Taking one element out of a sequence takes its value out of the sum.
pub proof fn lemma_sum_remove(s: Seq<u64>, i: int)
    requires
        0 <= i < s.len(),
    ensures
        sum_of(s) == sum_of(s.remove(i)) + s[i],
    decreases s.len(),
{
    if i == s.len() - 1 {
        assert(s.remove(i) =~= s.drop_last());
    } else {
        assert(s.remove(i).drop_last() =~= s.drop_last().remove(i));
        lemma_sum_remove(s.drop_last(), i);
    }
}

/// Two sequences holding the same values, in whatever order, have the same sum.
pub proof fn lemma_sum_same_multiset(a: Seq<u64>, b: Seq<u64>)
    requires
        a.to_multiset() == b.to_multiset(),
    ensures
        sum_of(a) == sum_of(b),
    decreases a.len(),
{
    broadcast use vstd::seq_lib::group_to_multiset_ensures;

    a.to_multiset_ensures();
    b.to_multiset_ensures();
    if a.len() > 0 {
        let x = a.last();
        assert(a.remove(a.len() - 1) =~= a.drop_last());
        assert(a.to_multiset().count(x) > 0);
        assert(b.contains(x));
        let i = choose|i: int| 0 <= i < b.len() && b[i] == x;
        b.remove(i).to_multiset();
        assert(a.drop_last().to_multiset() =~= b.remove(i).to_multiset());
        lemma_sum_same_multiset(a.drop_last(), b.remove(i));
        lemma_sum_remove(b, i);
    }
}

/// Collects the average of each client that produced one, and combines them.
pub struct Aggregator {
    averages: Vec<AveragePrice>,
}

impl View for Aggregator {
    type V = Seq<u64>;

    /// The recorded averages, in the order they were added.
    closed spec fn view(&self) -> Seq<u64> {
        self.averages@.map_values(|a: AveragePrice| a.average_price)
    }
}

impl Aggregator {
    /// An aggregator with nothing recorded.
    pub fn new() -> (r: Self)
        ensures
            r@ == Seq::<u64>::empty(),
    {
        let r = Aggregator { averages: Vec::new() };
        assert(r@ =~= Seq::<u64>::empty());
        r
    }

    /// Records one client average after the ones recorded so far.
    pub fn add_average(&mut self, average: AveragePrice)
        ensures
            final(self)@ == old(self)@.push(average.average_price),
    {
        self.averages.push(average);
        assert(self@ =~= old(self)@.push(average.average_price));
    }

    /// Unweighted mean of the recorded averages, rounded down to a price unit;
    /// zero when nothing has been recorded.
    pub fn final_average(&mut self) -> (r: u64)
        ensures
            *final(self) == *old(self),
            r == mean_of(old(self)@),
    {
        let n = self.averages.len();
        if n == 0 {
            return 0;
        }
        let ghost v = self@;
        let mut total: u128 = 0;
        let mut i: usize = 0;
        while i < n
            invariant
                n == self.averages.len(),
                v == self@,
                i <= n,
                total == sum_of(v.take(i as int)),
            decreases n - i,
        {
            proof {
                assert(v.take(i as int + 1).drop_last() =~= v.take(i as int));
                lemma_sum_bounds(v.take(i as int));
                assert(i * (u64::MAX as int) + u64::MAX as int <= u128::MAX) by (nonlinear_arith)
                    requires
                        i < n,
                        n <= usize::MAX,
                ;
            }
            total = total + self.averages[i].average_price as u128;
            i = i + 1;
        }
        proof {
            assert(v.take(n as int) =~= v);
            lemma_sum_bounds(v);
            let s = sum_of(v);
            assert(s / (n as int) <= u64::MAX) by (nonlinear_arith)
                requires
                    0 <= s <= n * (u64::MAX as int),
                    n > 0,
            ;
        }
        (total / (n as u128)) as u64
    }
}

/// With nothing recorded, the combined figure is zero.
pub proof fn lemma_mean_of_nothing()
    ensures
        mean_of(Seq::<u64>::empty()) == 0,
{
}

/// With exactly one recorded average, the combined figure is that average.
pub proof fn lemma_mean_of_one(v: u64)
    ensures
        mean_of(seq![v]) == v,
{
    assert(seq![v].drop_last() =~= Seq::<u64>::empty());
    assert(sum_of(seq![v]) == sum_of(Seq::<u64>::empty()) + v);
}

/// The combined figure depends only on which averages were recorded, not on
/// the order in which they were added.
pub proof fn lemma_mean_order_independent(a: Seq<u64>, b: Seq<u64>)
    requires
        a.to_multiset() == b.to_multiset(),
    ensures
        mean_of(a) == mean_of(b),
{
    a.to_multiset_ensures();
    b.to_multiset_ensures();
    lemma_sum_same_multiset(a, b);
}

} // verus!
