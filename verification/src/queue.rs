use vstd::prelude::*;
use vstd::arithmetic::mul::{lemma_mul_nonnegative, lemma_mul_upper_bound};
use crate::action::TradeAction;
use crate::signal::{band_of_window, dedup, SignalConfig};
use crate::units::{MAX_CAPACITY, MAX_PRICE, MAX_RATIO};

verus! {

/// Sum of a price sequence, as an unbounded integer.
pub open spec fn sum_seq(s: Seq<u64>) -> int
    decreases s.len(),
{
    if s.len() == 0 {
        0
    } else {
        sum_seq(s.drop_last()) + s.last()
    }
}

/// Every entry is an accepted price.
pub open spec fn all_valid_prices(s: Seq<u64>) -> bool {
    forall|i: int| 0 <= i < s.len() ==> s[i] <= MAX_PRICE
}

pub proof fn lemma_sum_nonneg(s: Seq<u64>)
    ensures
        sum_seq(s) >= 0,
    decreases s.len(),
{
    if s.len() > 0 {
        lemma_sum_nonneg(s.drop_last());
    }
}

pub proof fn lemma_sum_bound(s: Seq<u64>)
    requires
        all_valid_prices(s),
    ensures
        sum_seq(s) <= s.len() * MAX_PRICE,
    decreases s.len(),
{
    if s.len() > 0 {
        assert(all_valid_prices(s.drop_last()));
        lemma_sum_bound(s.drop_last());
    }
}

/// A non-empty sequence's sum splits off its first entry.
pub proof fn lemma_sum_drop_first(s: Seq<u64>)
    requires
        s.len() > 0,
    ensures
        sum_seq(s) == s[0] + sum_seq(s.drop_first()),
    decreases s.len(),
{
    if s.len() == 1 {
        assert(s.drop_first() =~= Seq::<u64>::empty());
        assert(s.drop_last() =~= Seq::<u64>::empty());
        assert(sum_seq(s) == sum_seq(s.drop_last()) + s.last());
    } else {
        lemma_sum_drop_first(s.drop_last());
        assert(s.drop_last().drop_first() =~= s.drop_first().drop_last());
        assert(s.drop_last()[0] == s[0]);
        assert(s.drop_first().last() == s.last());
        assert(sum_seq(s) == sum_seq(s.drop_last()) + s.last());
        assert(sum_seq(s.drop_last()) == s[0] + sum_seq(s.drop_first().drop_last()));
        assert(sum_seq(s.drop_first()) == sum_seq(s.drop_first().drop_last())
            + s.drop_first().last());
    }
}

/// The window after one push: the oldest entry leaves first when the
/// window is already full.
pub open spec fn push_model(w: Seq<u64>, cap: int, p: u64) -> Seq<u64> {
    if w.len() >= cap {
        w.drop_first().push(p)
    } else {
        w.push(p)
    }
}

/// A fixed-capacity sliding window of recent prices with its running
/// sum, the configured threshold bands, and the last emitted decision.
pub struct PriceQueue {
    pub queue: Vec<u64>,
    pub capacity: usize,
    pub current_sum: u128,
    pub last_trade: TradeAction,
    pub config: SignalConfig,
}

impl PriceQueue {
    /// The running sum always equals the sum of the window, which never
    /// exceeds its capacity.
    pub open spec fn wf(self) -> bool {
        &&& 0 < self.capacity <= MAX_CAPACITY
        &&& self.queue@.len() <= self.capacity
        &&& all_valid_prices(self.queue@)
        &&& self.current_sum == sum_seq(self.queue@)
        &&& self.config.wf()
    }

    /// An empty window with the symmetric 0.1% bands.
    pub fn new(capacity: usize) -> (q: PriceQueue)
        requires
            0 < capacity <= MAX_CAPACITY,
        ensures
            q.wf(),
            q.capacity == capacity,
            q.queue@.len() == 0,
            q.current_sum == 0,
            q.last_trade == TradeAction::Hold,
            q.config == (SignalConfig { upper_num: 1001, lower_num: 999, den: 1000 }),
    {
        PriceQueue {
            queue: Vec::new(),
            capacity,
            current_sum: 0,
            last_trade: TradeAction::Hold,
            config: SignalConfig::milli_band(),
        }
    }

    /// An empty window with caller-chosen threshold bands.
    pub fn with_config(capacity: usize, config: SignalConfig) -> (q: PriceQueue)
        requires
            0 < capacity <= MAX_CAPACITY,
            config.wf(),
        ensures
            q.wf(),
            q.capacity == capacity,
            q.queue@.len() == 0,
            q.current_sum == 0,
            q.last_trade == TradeAction::Hold,
            q.config == config,
    {
        PriceQueue {
            queue: Vec::new(),
            capacity,
            current_sum: 0,
            last_trade: TradeAction::Hold,
            config,
        }
    }

    /// The arithmetic mean of the window, floored to the price grid.
    pub fn current_average(&self) -> (avg: u64)
        requires
            self.wf(),
            self.queue@.len() > 0,
        ensures
            avg as int == sum_seq(self.queue@) / self.queue@.len() as int,
            avg <= MAX_PRICE,
    {
        proof {
            lemma_sum_bound(self.queue@);
            lemma_sum_nonneg(self.queue@);
            assert(sum_seq(self.queue@) / self.queue@.len() as int <= MAX_PRICE)
                by (nonlinear_arith)
                requires
                    sum_seq(self.queue@) <= self.queue@.len() * MAX_PRICE,
                    self.queue@.len() >= 1,
            ;
        }
        (self.current_sum / self.queue.len() as u128) as u64
    }

    /// One accepted tick: slide the window, then evaluate the threshold
    /// bands against the new mean, suppressing a repeat of the last
    /// emitted decision. Returns the new mean and the decision.
    pub fn update_and_decide(&mut self, new_price: u64) -> (r: (u64, TradeAction))
        requires
            old(self).wf(),
            new_price <= MAX_PRICE,
        ensures
            final(self).wf(),
            final(self).capacity == old(self).capacity,
            final(self).config == old(self).config,
            final(self).queue@ == push_model(
                old(self).queue@,
                old(self).capacity as int,
                new_price,
            ),
            // At capacity exactly the oldest price leaves, and the sum
            // first drops by that price, then grows by the new one.
            old(self).queue@.len() == old(self).capacity ==> {
                &&& final(self).queue@ == old(self).queue@.drop_first().push(new_price)
                &&& final(self).current_sum == old(self).current_sum - old(self).queue@[0]
                    + new_price
            },
            old(self).queue@.len() < old(self).capacity ==> {
                &&& final(self).queue@ == old(self).queue@.push(new_price)
                &&& final(self).current_sum == old(self).current_sum + new_price
            },
            r.0 as int == sum_seq(final(self).queue@) / final(self).queue@.len() as int,
            r.1 == dedup(
                band_of_window(
                    new_price,
                    sum_seq(final(self).queue@),
                    final(self).queue@.len() as int,
                    old(self).config,
                ),
                old(self).last_trade,
            ),
            final(self).last_trade == r.1,
            // A non-Hold decision never repeats the previous one.
            r.1 != TradeAction::Hold ==> r.1 != old(self).last_trade,
    {
        if self.queue.len() == self.capacity {
            proof {
                lemma_sum_drop_first(self.queue@);
                lemma_sum_nonneg(self.queue@.drop_first());
            }
            let old_price = self.queue.remove(0);
            proof {
                assert(old(self).queue@.remove(0) =~= old(self).queue@.drop_first());
            }
            self.current_sum = self.current_sum - old_price as u128;
        }
        proof {
            lemma_sum_bound(self.queue@);
        }
        let ghost before_push = self.queue@;
        self.queue.push(new_price);
        proof {
            assert(self.queue@.drop_last() =~= before_push);
            assert(sum_seq(self.queue@) == sum_seq(before_push) + new_price);
        }
        self.current_sum = self.current_sum + new_price as u128;
        proof {
            assert(all_valid_prices(self.queue@));
        }
        let avg = self.current_average();
        let len = self.queue.len();
        proof {
            lemma_sum_bound(self.queue@);
            lemma_sum_nonneg(self.queue@);
            lemma_mul_nonnegative(new_price as int, len as int);
            lemma_mul_upper_bound(new_price as int, MAX_PRICE as int, len as int,
                MAX_CAPACITY as int);
            lemma_mul_upper_bound(
                new_price * (len as int),
                (MAX_PRICE as int) * (MAX_CAPACITY as int),
                self.config.den as int,
                MAX_RATIO as int,
            );
            lemma_mul_upper_bound(
                self.current_sum as int,
                (MAX_CAPACITY as int) * (MAX_PRICE as int),
                self.config.upper_num as int,
                MAX_RATIO as int,
            );
            lemma_mul_upper_bound(
                self.current_sum as int,
                (MAX_CAPACITY as int) * (MAX_PRICE as int),
                self.config.lower_num as int,
                MAX_RATIO as int,
            );
        }
        let lhs: u128 = (new_price as u128) * (len as u128) * (self.config.den as u128);
        let raw = if lhs > self.current_sum * (self.config.upper_num as u128) {
            TradeAction::Sell
        } else if lhs < self.current_sum * (self.config.lower_num as u128) {
            TradeAction::Buy
        } else {
            TradeAction::Hold
        };
        let decision = if raw == self.last_trade {
            TradeAction::Hold
        } else {
            raw
        };
        self.last_trade = decision;
        (avg, decision)
    }
}

/// The window that results from pushing a whole sequence of prices,
/// oldest first, into an initially empty window of capacity `cap`.
pub open spec fn pushes_model(cap: int, s: Seq<u64>) -> Seq<u64>
    decreases s.len(),
{
    if s.len() == 0 {
        Seq::empty()
    } else {
        push_model(pushes_model(cap, s.drop_last()), cap, s.last())
    }
}

/// After any number of pushes the window holds exactly the most recent
/// `min(N, cap)` prices, in arrival order. Together with the contract
/// of `update_and_decide` (whose returned average is the floored
/// quotient of the window's sum by its length) this makes every
/// returned average the arithmetic mean of the last `min(N, cap)`
/// prices pushed.
pub proof fn lemma_window_is_recent_suffix(cap: int, s: Seq<u64>)
    requires
        cap > 0,
    ensures
        pushes_model(cap, s) == (if s.len() <= cap {
            s
        } else {
            s.subrange(s.len() - cap, s.len() as int)
        }),
        pushes_model(cap, s).len() == (if s.len() <= cap {
            s.len() as int
        } else {
            cap
        }),
    decreases s.len(),
{
    if s.len() == 0 {
        assert(pushes_model(cap, s) =~= s);
    } else {
        lemma_window_is_recent_suffix(cap, s.drop_last());
        if s.len() <= cap {
            assert(pushes_model(cap, s) =~= s);
        } else {
            assert(pushes_model(cap, s) =~= s.subrange(s.len() - cap, s.len() as int));
        }
    }
}

} // verus!
