use vstd::prelude::*;

use crate::model::{AveragePrice, CryptoData, Data, FinalData};

verus! {

/// Sum of the prices of a sequence of trades.
pub open spec fn price_sum(d: Seq<Data>) -> int
    decreases d.len(),
{
    if d.len() == 0 {
        0
    } else {
        price_sum(d.drop_last()) + d.last().price
    }
}

/// Sum of the prices of every trade of every batch.
pub open spec fn total_price_of(b: Seq<CryptoData>) -> int
    decreases b.len(),
{
    if b.len() == 0 {
        0
    } else {
        total_price_of(b.drop_last()) + price_sum(b.last().data@)
    }
}

/// Number of trades over every batch.
pub open spec fn total_count_of(b: Seq<CryptoData>) -> int
    decreases b.len(),
{
    if b.len() == 0 {
        0
    } else {
        total_count_of(b.drop_last()) + b.last().data@.len()
    }
}

/// Time elapsed since `start`; zero before it.
pub open spec fn elapsed(start: u64, now: u64) -> int {
    if now >= start {
        now - start
    } else {
        0
    }
}

/// A window that began at `start` and lasts `window` is still open at `now`.
pub open spec fn open_at(start: u64, window: u64, now: u64) -> bool {
    elapsed(start, now) < window
}

/// The count-weighted mean price over all trades of all batches, rounded
/// down; undefined (`None`) when there was no trade.
pub open spec fn client_average_of(b: Seq<CryptoData>) -> Option<int> {
    if total_count_of(b) == 0 {
        None
    } else {
        Some(total_price_of(b) / total_count_of(b))
    }
}

/// A price sum is at most `u64::MAX` per trade.
proof fn lemma_price_sum_bounds(d: Seq<Data>)
    ensures
        0 <= price_sum(d) <= d.len() * (u64::MAX as int),
    decreases d.len(),
{
    if d.len() > 0 {
        lemma_price_sum_bounds(d.drop_last());
    }
}

/// The total over batches is at most `u64::MAX` per trade.
proof fn lemma_total_bounds(b: Seq<CryptoData>)
    ensures
        0 <= total_count_of(b),
        0 <= total_price_of(b) <= total_count_of(b) * (u64::MAX as int),
    decreases b.len(),
{
    if b.len() > 0 {
        lemma_total_bounds(b.drop_last());
        lemma_price_sum_bounds(b.last().data@);
        let c = total_count_of(b.drop_last());
        let n = b.last().data@.len() as int;
        assert(c * (u64::MAX as int) + n * (u64::MAX as int) == (c + n) * (u64::MAX as int))
            by (nonlinear_arith);
    }
}

/// What an inbound message turned out to be once the transport handed it over.
pub enum Inbound {
    /// A well-formed batch of trades.
    Batch(CryptoData),
    /// A message that is not a batch of trades; it is dropped.
    Malformed,
    /// No message arrived before the receive timed out.
    Idle,
}

/// What the receive loop does next.
#[derive(Clone, Copy, Debug, PartialEq, Eq, Structural)]
pub enum Step {
    /// Wait for the next message, for at most this long.
    Receive { timeout_ms: u64 },
    /// The window has elapsed: stop receiving.
    Finish,
}

/// How one client's run ended.
#[derive(Clone, Copy, Debug, PartialEq, Eq, Structural)]
pub enum ClientOutcome {
    /// The client saw at least one trade; this is its average.
    Average(AveragePrice),
    /// The window elapsed without a single trade: nothing to contribute.
    NoData,
    /// Connecting, subscribing or storing the result failed.
    Failed,
}

/// The state of one client's time-boxed receive loop: when its window began,
/// how long it lasts, and the batches it has recorded with their running totals.
pub struct ClientWindow {
    start_ms: u64,
    window_ms: u64,
    batches: Vec<CryptoData>,
    total_price: u128,
    total_count: u64,
}

impl ClientWindow {
    /// When this client's window began, in milliseconds.
    pub closed spec fn start(&self) -> u64 {
        self.start_ms
    }

    /// How long this client's window lasts, in milliseconds.
    pub closed spec fn window(&self) -> u64 {
        self.window_ms
    }

    /// The batches recorded so far, in arrival order.
    pub closed spec fn batches(&self) -> Seq<CryptoData> {
        self.batches@
    }

    /// The running totals agree with the recorded batches.
    pub closed spec fn wf(&self) -> bool {
        &&& self.total_price == total_price_of(self.batches@)
        &&& self.total_count == total_count_of(self.batches@)
    }

    /// A window that begins at `start_ms` and lasts `window_ms`, with nothing
    /// recorded.
    pub fn new(start_ms: u64, window_ms: u64) -> (r: Self)
        ensures
            r.wf(),
            r.start() == start_ms,
            r.window() == window_ms,
            r.batches() == Seq::<CryptoData>::empty(),
    {
        ClientWindow { start_ms, window_ms, batches: Vec::new(), total_price: 0, total_count: 0 }
    }

    /// Whether the window is still open at `now_ms`.
    pub fn is_open(&self, now_ms: u64) -> (r: bool)
        ensures
            r == open_at(self.start(), self.window(), now_ms),
    {
        let e: u64 = if now_ms >= self.start_ms {
            now_ms - self.start_ms
        } else {
            0
        };
        e < self.window_ms
    }

    /// The next step at `now_ms`: while the window is open, wait for a
    /// message for no longer than what is left of the window, so that an idle
    /// stream cannot hold the loop past its deadline; then finish.
    pub fn next_step(&self, now_ms: u64) -> (r: Step)
        ensures
            open_at(self.start(), self.window(), now_ms) ==> r == (Step::Receive {
                timeout_ms: (self.window() - elapsed(self.start(), now_ms)) as u64,
            }),
            !open_at(self.start(), self.window(), now_ms) ==> r == Step::Finish,
    {
        let e: u64 = if now_ms >= self.start_ms {
            now_ms - self.start_ms
        } else {
            0
        };
        if e < self.window_ms {
            Step::Receive { timeout_ms: self.window_ms - e }
        } else {
            Step::Finish
        }
    }

    /// Adds a batch to the record and its trades to the running totals.
    /// Returns `false`, and records nothing, only where the totals would no
    /// longer fit their integers.
    pub fn record_batch(&mut self, batch: CryptoData) -> (r: bool)
        requires
            old(self).wf(),
        ensures
            final(self).wf(),
            final(self).start() == old(self).start(),
            final(self).window() == old(self).window(),
            r == (total_price_of(old(self).batches().push(batch)) <= u128::MAX
                && total_count_of(old(self).batches().push(batch)) <= u64::MAX),
            r ==> final(self).batches() == old(self).batches().push(batch),
            !r ==> final(self).batches() == old(self).batches(),
    {
        let ghost b = self.batches@;
        let ghost d = batch.data@;
        let n = batch.data.len();
        let mut sum: u128 = 0;
        let mut fits = true;
        let mut i: usize = 0;
        while i < n
            invariant
                n == batch.data@.len(),
                d == batch.data@,
                i <= n,
                fits ==> sum == price_sum(d.take(i as int)),
                !fits ==> price_sum(d) > u128::MAX,
            decreases n - i,
        {
            proof {
                assert(d.take(i as int + 1).drop_last() =~= d.take(i as int));
            }
            if fits {
                let p = batch.data[i].price;
                if sum <= u128::MAX - p as u128 {
                    sum = sum + p as u128;
                } else {
                    proof {
                        lemma_price_sum_prefix(d, i as int + 1);
                    }
                    fits = false;
                }
            }
            i = i + 1;
        }
        proof {
            assert(d.take(n as int) =~= d);
            assert(b.push(batch).drop_last() =~= b);
            lemma_price_sum_bounds(d);
        }
        if !fits || self.total_price > u128::MAX - sum || self.total_count as u128 + n as u128
            > u64::MAX as u128 {
            return false;
        }
        self.total_price = self.total_price + sum;
        self.total_count = self.total_count + n as u64;
        self.batches.push(batch);
        true
    }

    /// Handles one inbound message: a batch is recorded; a malformed message or
    /// an idle timeout changes nothing, and the loop goes on.
    pub fn handle(&mut self, msg: Inbound)
        requires
            old(self).wf(),
        ensures
            final(self).wf(),
            final(self).start() == old(self).start(),
            final(self).window() == old(self).window(),
            match msg {
                Inbound::Batch(batch) => {
                    if total_price_of(old(self).batches().push(batch)) <= u128::MAX
                        && total_count_of(old(self).batches().push(batch)) <= u64::MAX {
                        final(self).batches() == old(self).batches().push(batch)
                    } else {
                        final(self).batches() == old(self).batches()
                    }
                },
                _ => final(self).batches() == old(self).batches(),
            },
    {
        match msg {
            Inbound::Batch(batch) => {
                let _ = self.record_batch(batch);
            },
            Inbound::Malformed => {},
            Inbound::Idle => {},
        }
    }

    /// The client's result once its window has elapsed: the count-weighted
    /// mean price of every trade it recorded, or `NoData` when it recorded none.
    pub fn outcome(&self) -> (r: ClientOutcome)
        requires
            self.wf(),
        ensures
            match client_average_of(self.batches()) {
                Some(a) => r == ClientOutcome::Average(AveragePrice { average_price: a as u64 })
                    && a <= u64::MAX,
                None => r == ClientOutcome::NoData,
            },
    {
        if self.total_count == 0 {
            return ClientOutcome::NoData;
        }
        proof {
            lemma_total_bounds(self.batches@);
            let s = total_price_of(self.batches@);
            let c = total_count_of(self.batches@);
            assert(s / c <= u64::MAX) by (nonlinear_arith)
                requires
                    0 <= s <= c * (u64::MAX as int),
                    c > 0,
            ;
        }
        let avg = (self.total_price / self.total_count as u128) as u64;
        ClientOutcome::Average(AveragePrice { average_price: avg })
    }

    /// What the client keeps of its run: every recorded batch, and its average
    /// when it has one.
    pub fn into_final_data(self) -> (r: FinalData)
        requires
            self.wf(),
        ensures
            r.data@ == self.batches(),
            match client_average_of(self.batches()) {
                Some(a) => r.average@ == seq![AveragePrice { average_price: a as u64 }],
                None => r.average@ == Seq::<AveragePrice>::empty(),
            },
    {
        let o = self.outcome();
        let mut average: Vec<AveragePrice> = Vec::new();
        match o {
            ClientOutcome::Average(a) => {
                average.push(a);
            },
            _ => {},
        }
        proof {
            if average@.len() == 1 {
                assert(average@ =~= seq![average@[0]]);
            }
        }
        FinalData { data: self.batches, average }
    }
}

/// A prefix's price sum never exceeds the whole's.
proof fn lemma_price_sum_prefix(d: Seq<Data>, k: int)
    requires
        0 <= k <= d.len(),
    ensures
        price_sum(d.take(k)) <= price_sum(d),
    decreases d.len() - k,
{
    if k < d.len() {
        lemma_price_sum_prefix(d, k + 1);
        assert(d.take(k + 1).drop_last() =~= d.take(k));
    } else {
        assert(d.take(k) =~= d);
    }
}

} // verus!
