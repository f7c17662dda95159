use vstd::prelude::*;

use crate::aggregator::{mean_of, Aggregator};
use crate::stream::{open_at, ClientOutcome};

verus! {

/// Delay before the first client starts, in seconds.
pub const BASE_START_DELAY_SECS: u64 = 1;

/// Additional delay of each client after the one before it, in seconds.
pub const START_STAGGER_SECS: u64 = 1;

/// The offset at which client `client_id` starts, counted from launch.
pub open spec fn start_offset_of(client_id: u64) -> int {
    BASE_START_DELAY_SECS + client_id * START_STAGGER_SECS
}

/// The averages that a list of client outcomes contributes, in order: one per
/// client that produced an average, none for a client that failed or saw no trade.
pub open spec fn contributions(outcomes: Seq<ClientOutcome>) -> Seq<u64>
    decreases outcomes.len(),
{
    if outcomes.len() == 0 {
        Seq::empty()
    } else {
        let rest = contributions(outcomes.drop_last());
        match outcomes.last() {
            ClientOutcome::Average(a) => rest.push(a.average_price),
            _ => rest,
        }
    }
}

/// The number of clients to run for a requested count: at least one.
pub fn effective_client_count(requested: u64) -> (r: u64)
    ensures
        r >= 1,
        requested >= 1 ==> r == requested,
        requested == 0 ==> r == 1,
{
    if requested == 0 {
        1
    } else {
        requested
    }
}

/// The staggered start offset of client `client_id`, in seconds after launch:
/// a fixed base delay plus one stagger step per client before it.
pub fn start_offset_secs(client_id: u64) -> (r: u64)
    requires
        client_id < u64::MAX,
    ensures
        r == start_offset_of(client_id),
{
    BASE_START_DELAY_SECS + client_id * START_STAGGER_SECS
}

impl Aggregator {
    /// Records a client's outcome: its average when it has one; a client that
    /// failed or saw no trade contributes nothing.
    pub fn record_outcome(&mut self, outcome: &ClientOutcome)
        ensures
            final(self)@ == old(self)@ + contributions(seq![*outcome]),
    {
        proof {
            lemma_contributions_one(*outcome);
        }
        match outcome {
            ClientOutcome::Average(a) => {
                self.add_average(*a);
            },
            _ => {},
        }
    }
}

/// What a single outcome contributes.
proof fn lemma_contributions_one(o: ClientOutcome)
    ensures
        contributions(seq![o]) == match o {
            ClientOutcome::Average(a) => seq![a.average_price],
            _ => Seq::<u64>::empty(),
        },
{
    assert(seq![o].drop_last() =~= Seq::<ClientOutcome>::empty());
    assert(contributions(Seq::<ClientOutcome>::empty()) == Seq::<u64>::empty());
    match o {
        ClientOutcome::Average(a) => {
            assert(Seq::<u64>::empty().push(a.average_price) =~= seq![a.average_price]);
        },
        _ => {},
    }
}

/// The combined figure over the outcomes of all clients: the unweighted mean of
/// the averages of those that produced one, zero when none did.
pub fn combine_outcomes(outcomes: &Vec<ClientOutcome>) -> (r: u64)
    ensures
        r == mean_of(contributions(outcomes@)),
{
    let mut agg = Aggregator::new();
    let mut i: usize = 0;
    while i < outcomes.len()
        invariant
            i <= outcomes@.len(),
            agg@ == contributions(outcomes@.take(i as int)),
        decreases outcomes@.len() - i,
    {
        proof {
            let t = outcomes@.take(i as int + 1);
            assert(t.drop_last() =~= outcomes@.take(i as int));
            lemma_contributions_one(outcomes@[i as int]);
        }
        agg.record_outcome(&outcomes[i]);
        i = i + 1;
    }
    assert(outcomes@.take(outcomes@.len() as int) =~= outcomes@);
    agg.final_average()
}

/// Whether the run as a whole failed: there was at least one client, and every
/// client failed. Clients that saw no trade did not fail.
pub fn run_failed(outcomes: &Vec<ClientOutcome>) -> (r: bool)
    ensures
        r == (outcomes@.len() > 0 && forall|k: int| 0 <= k < outcomes@.len() ==> #[trigger] outcomes@[k] is Failed),
{
    if outcomes.len() == 0 {
        return false;
    }
    let mut i: usize = 0;
    while i < outcomes.len()
        invariant
            i <= outcomes@.len(),
            forall|k: int| 0 <= k < i ==> #[trigger] outcomes@[k] is Failed,
        decreases outcomes@.len() - i,
    {
        match outcomes[i] {
            ClientOutcome::Failed => {},
            _ => {
                return false;
            },
        }
        i = i + 1;
    }
    true
}

/// Staggered clients start at distinct offsets, and each one's window is
/// measured from its own start alone: whether client `i` is still receiving at
/// a given time does not depend on when client `j` started.
pub proof fn lemma_staggered_windows_independent(
    launch: u64,
    i: u64,
    j: u64,
    start_i: u64,
    start_j: u64,
    window: u64,
    now: u64,
)
    requires
        i < j,
        start_i == launch + start_offset_of(i),
        start_j == launch + start_offset_of(j),
    ensures
        start_i < start_j,
        start_i + window < start_j + window,
        now >= start_i ==> (open_at(start_i, window, now) <==> now < launch + start_offset_of(i)
            + window),
        now < start_i ==> (open_at(start_i, window, now) <==> window > 0),
{
}

/// A client that saw no trade or failed never moves the combined figure: the
/// outcomes with it and without it combine to the same value.
pub proof fn lemma_abstaining_client_excluded(before: Seq<ClientOutcome>, after: Seq<ClientOutcome>, o: ClientOutcome)
    requires
        !(o is Average),
    ensures
        contributions(before.push(o) + after) == contributions(before + after),
    decreases after.len(),
{
    if after.len() == 0 {
        assert(before.push(o) + after =~= before.push(o));
        assert(before + after =~= before);
        assert(before.push(o).drop_last() =~= before);
    } else {
        lemma_abstaining_client_excluded(before, after.drop_last(), o);
        assert((before.push(o) + after).drop_last() =~= before.push(o) + after.drop_last());
        assert((before + after).drop_last() =~= before + after.drop_last());
    }
}

} // verus!
