use vstd::prelude::*;
use crate::action::TradeAction;
use crate::parse::{parse_price, price_of_text, valid_price_text};
use crate::queue::{push_model, sum_seq, PriceQueue};
use crate::signal::{band_of_window, dedup};
use crate::units::MAX_PRICE;

verus! {

/// What one feed tick led to.
#[derive(Clone, Copy, Debug, PartialEq, Eq)]
pub enum TickOutcome {
    /// The payload was not a price the engine accepts; nothing changed.
    Malformed,
    /// The window took the price; the new mean and the decision.
    Decided { price: u64, average: u64, decision: TradeAction },
}

/// One tick of the feed loop's decision core: parse the payload, slide
/// the window, decide. A malformed payload leaves the whole engine
/// state untouched and is dropped, never fatal.
pub fn process_tick(queue: &mut PriceQueue, text: &[u8]) -> (out: TickOutcome)
    requires
        old(queue).wf(),
    ensures
        final(queue).wf(),
        final(queue).capacity == old(queue).capacity,
        final(queue).config == old(queue).config,
        !(valid_price_text(text@) && price_of_text(text@) <= MAX_PRICE) ==> {
            &&& out == TickOutcome::Malformed
            &&& *final(queue) == *old(queue)
        },
        (valid_price_text(text@) && price_of_text(text@) <= MAX_PRICE) ==> match out {
            TickOutcome::Decided { price, average, decision } => {
                &&& price == price_of_text(text@)
                &&& final(queue).queue@ == push_model(
                    old(queue).queue@,
                    old(queue).capacity as int,
                    price,
                )
                &&& average as int == sum_seq(final(queue).queue@)
                    / final(queue).queue@.len() as int
                &&& decision == dedup(
                    band_of_window(
                        price,
                        sum_seq(final(queue).queue@),
                        final(queue).queue@.len() as int,
                        old(queue).config,
                    ),
                    old(queue).last_trade,
                )
                &&& final(queue).last_trade == decision
            },
            TickOutcome::Malformed => false,
        },
{
    match parse_price(text) {
        Some(price) => {
            let (average, decision) = queue.update_and_decide(price);
            TickOutcome::Decided { price, average, decision }
        },
        None => TickOutcome::Malformed,
    }
}

/// Byte-wise equality of two slices.
fn bytes_eq(a: &[u8], b: &[u8]) -> (r: bool)
    ensures
        r == (a@ == b@),
{
    if a.len() != b.len() {
        return false;
    }
    let mut i: usize = 0;
    while i < a.len()
        invariant
            0 <= i <= a@.len(),
            a@.len() == b@.len(),
            forall|j: int| 0 <= j < i ==> a@[j] == b@[j],
        decreases a@.len() - i,
    {
        if a[i] != b[i] {
            return false;
        }
        i = i + 1;
    }
    proof {
        assert(a@ =~= b@);
    }
    true
}

/// Index of the first balance entry whose coin name matches, or the
/// number of entries when none does.
pub open spec fn first_match_from(
    entries: Seq<(Vec<u8>, Vec<u8>)>,
    ticker: Seq<u8>,
    i: int,
) -> int
    decreases entries.len() - i,
{
    if i < 0 || i >= entries.len() {
        entries.len() as int
    } else if entries[i].0@ == ticker {
        i
    } else {
        first_match_from(entries, ticker, i + 1)
    }
}

/// Walks a balance report, handed over as `(coin, total)` text pairs,
/// and parses the total of the first entry for the asked-for asset.
/// `None` when the asset is absent or its total is not a price the
/// engine accepts.
pub fn lookup_balance(entries: &Vec<(Vec<u8>, Vec<u8>)>, ticker: &[u8]) -> (r: Option<u64>)
    ensures
        ({
            let m = first_match_from(entries@, ticker@, 0);
            match r {
                Some(v) => {
                    &&& m < entries@.len()
                    &&& valid_price_text(entries@[m].1@)
                    &&& v as int == price_of_text(entries@[m].1@)
                    &&& v <= MAX_PRICE
                },
                None => m == entries@.len() || !(valid_price_text(entries@[m].1@)
                    && price_of_text(entries@[m].1@) <= MAX_PRICE),
            }
        }),
{
    let n = entries.len();
    let mut idx: usize = 0;
    while idx < n
        invariant
            0 <= idx <= n,
            n == entries@.len(),
            first_match_from(entries@, ticker@, idx as int) == first_match_from(
                entries@,
                ticker@,
                0,
            ),
        decreases n - idx,
    {
        if bytes_eq(entries[idx].0.as_slice(), ticker) {
            return parse_price(entries[idx].1.as_slice());
        }
        idx = idx + 1;
    }
    None
}

} // verus!
