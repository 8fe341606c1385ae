use vstd::prelude::*;
use vstd::arithmetic::mul::lemma_mul_upper_bound;
use crate::action::TradeAction;
use crate::units::{MAX_AMOUNT, MAX_PRICE, MAX_RATIO, SCALE};

verus! {

/// Policy knobs of the order lifecycle: balance floors below which no
/// order is submitted, the slippage ratio of the re-priced retry, and
/// the grace period between placement and the cancel attempt.
#[derive(Clone, Copy, Debug, PartialEq, Eq, Structural)]
pub struct LifecycleConfig {
    /// Minimum quote-currency balance needed to submit a buy.
    pub min_quote: u64,
    /// Minimum base-asset balance needed to submit a sell.
    pub min_base: u64,
    /// Slippage numerator: a re-priced buy pays `1 + num/den` times
    /// the original limit, a re-priced sell accepts `1 - num/den`.
    pub slip_num: u64,
    /// Slippage denominator.
    pub slip_den: u64,
    /// Seconds to let an order rest before the cancel attempt.
    pub grace_secs: u64,
}

impl LifecycleConfig {
    pub open spec fn wf(self) -> bool {
        &&& 0 < self.slip_den <= MAX_RATIO
        &&& self.slip_num < self.slip_den
    }
}

/// A single placement attempt, handed to the exchange layer.
#[derive(Clone, Copy, Debug, PartialEq, Eq, Structural)]
pub struct OrderIntent {
    pub is_buy: bool,
    pub limit_price: u64,
    pub size: u64,
}

/// The exchange's identifier of an accepted, possibly resting order.
#[derive(Clone, Copy, Debug, PartialEq, Eq, Structural)]
pub struct OpenOrderHandle {
    pub order_id: u64,
}

/// The last action that was actually acted upon (not merely computed),
/// initially `Hold`; it suppresses repeated same-direction trades.
#[derive(Clone, Copy, Debug, PartialEq, Eq, Structural)]
pub struct DecisionState {
    pub last_executed_action: TradeAction,
}

/// Where one trading opportunity stands.
#[derive(Clone, Copy, Debug, PartialEq, Eq, Structural)]
pub enum LifecycleState {
    Idle,
    Placing { action: TradeAction, limit_price: u64 },
    Resting { action: TradeAction, limit_price: u64, order_id: u64 },
    Cancelling { action: TradeAction, limit_price: u64, order_id: u64 },
    Repricing { action: TradeAction, limit_price: u64 },
    Filled { action: TradeAction, order_id: u64 },
}

/// What the exchange layer reports back to the state machine.
#[derive(Clone, Copy, Debug, PartialEq, Eq)]
pub enum LifecycleEvent {
    /// A fresh decision, with the rounded price to quote.
    Signal { action: TradeAction, limit_price: u64 },
    /// Outcome of the placement attempt: the order id when the order
    /// was accepted (resting or filled), `None` when nothing was
    /// submitted or the submission failed.
    Placement { order_id: Option<u64> },
    /// The grace period has run out.
    GraceElapsed,
    /// Whether the cancel removed a still-open order; a failed cancel
    /// is read as "already filled".
    CancelOutcome { cancelled: bool },
    /// Outcome of the fire-and-forget re-priced retry.
    RepriceOutcome { order_id: Option<u64> },
    /// The fill report has been taken note of.
    Acknowledged,
}

/// What the exchange layer is asked to do next.
#[derive(Clone, Copy, Debug, PartialEq, Eq)]
pub enum LifecycleAction {
    DoNothing,
    /// Size and submit a limit order at this price.
    PlaceOrder { is_buy: bool, limit_price: u64 },
    /// Let the order rest for the grace period.
    WaitGrace { seconds: u64 },
    /// Attempt to cancel the resting order.
    CancelOrder { order_id: u64 },
    /// Submit the slippage-adjusted retry; its outcome is reported but
    /// not re-verified.
    PlaceRepriced { is_buy: bool, limit_price: u64 },
    /// The order filled completely while resting.
    ReportFilled { order_id: u64 },
    /// Surfaces how the fire-and-forget retry went.
    ReportRepriceResult { placed: Option<u64> },
}

/// The slippage-adjusted retry price, rounded half-up to the grid:
/// worse by `slip_num/slip_den` for the submitter, to force a fill.
pub open spec fn reprice_spec(is_buy: bool, p: u64, cfg: LifecycleConfig) -> int {
    if is_buy {
        (p * (cfg.slip_den + cfg.slip_num) + cfg.slip_den / 2) / cfg.slip_den as int
    } else {
        (p * (cfg.slip_den - cfg.slip_num) + cfg.slip_den / 2) / cfg.slip_den as int
    }
}

pub fn reprice(is_buy: bool, limit_price: u64, cfg: &LifecycleConfig) -> (r: u64)
    requires
        cfg.wf(),
        limit_price <= MAX_PRICE,
    ensures
        r == reprice_spec(is_buy, limit_price, *cfg),
{
    let d: u128 = cfg.slip_den as u128;
    let num: u128 = if is_buy {
        (cfg.slip_den + cfg.slip_num) as u128
    } else {
        (cfg.slip_den - cfg.slip_num) as u128
    };
    proof {
        lemma_mul_upper_bound(
            limit_price as int,
            MAX_PRICE as int,
            num as int,
            2 * (MAX_RATIO as int),
        );
    }
    let t: u128 = (limit_price as u128) * num + d / 2;
    let r128: u128 = t / d;
    proof {
        let p = limit_price as int;
        let di = cfg.slip_den as int;
        assert(t <= p * 2 * di + di) by (nonlinear_arith)
            requires
                t == p * num + di / 2,
                num <= 2 * di,
                di >= 1,
                p >= 0,
        ;
        assert(t as int / di <= 2 * p + 1) by (nonlinear_arith)
            requires
                t <= p * 2 * di + di,
                di >= 1,
                p >= 0,
                t >= 0,
        ;
    }
    r128 as u64
}

/// Sizing policy: buys spend the whole quote balance at the limit
/// price, sells offer the whole base balance, both floored to whole
/// units (the lot size).
pub open spec fn buy_size_spec(quote_balance: u64, limit_price: u64) -> int {
    (quote_balance as int / limit_price as int) * SCALE
}

pub open spec fn sell_size_spec(base_balance: u64) -> int {
    (base_balance as int / SCALE as int) * SCALE
}

/// Builds the placement attempt, or short-circuits with `None` exactly
/// when the funding balance sits below the configured floor (the
/// position already reflects the desired trade).
pub fn plan_order(
    is_buy: bool,
    limit_price: u64,
    base_balance: u64,
    quote_balance: u64,
    cfg: &LifecycleConfig,
) -> (r: Option<OrderIntent>)
    requires
        cfg.wf(),
        0 < limit_price <= MAX_PRICE,
        base_balance <= MAX_AMOUNT,
        quote_balance <= MAX_AMOUNT,
    ensures
        r is Some <==> (if is_buy {
            quote_balance >= cfg.min_quote
        } else {
            base_balance >= cfg.min_base
        }),
        match r {
            Some(intent) => {
                &&& intent.is_buy == is_buy
                &&& intent.limit_price == limit_price
                &&& intent.size == (if is_buy {
                    buy_size_spec(quote_balance, limit_price)
                } else {
                    sell_size_spec(base_balance)
                })
            },
            None => true,
        },
{
    if is_buy {
        if quote_balance < cfg.min_quote {
            return None;
        }
        let units = quote_balance / limit_price;
        proof {
            assert(units <= quote_balance) by (nonlinear_arith)
                requires
                    units == quote_balance as int / limit_price as int,
                    limit_price >= 1,
                    quote_balance >= 0,
            ;
        }
        Some(OrderIntent { is_buy, limit_price, size: units * SCALE })
    } else {
        if base_balance < cfg.min_base {
            return None;
        }
        let units = base_balance / SCALE;
        Some(OrderIntent { is_buy, limit_price, size: units * SCALE })
    }
}

/// Prices carried by a state stay on the accepted grid while they can
/// still feed the re-pricing arithmetic, and a state in flight always
/// belongs to a real (non-hold) trade direction.
pub open spec fn state_wf(st: LifecycleState) -> bool {
    match st {
        LifecycleState::Idle => true,
        LifecycleState::Placing { action, limit_price } => action != TradeAction::Hold
            && limit_price <= MAX_PRICE,
        LifecycleState::Resting { action, limit_price, .. } => action != TradeAction::Hold
            && limit_price <= MAX_PRICE,
        LifecycleState::Cancelling { action, limit_price, .. } => action != TradeAction::Hold
            && limit_price <= MAX_PRICE,
        LifecycleState::Repricing { action, .. } => action != TradeAction::Hold,
        LifecycleState::Filled { action, .. } => action != TradeAction::Hold,
    }
}

pub open spec fn event_wf(ev: LifecycleEvent) -> bool {
    match ev {
        LifecycleEvent::Signal { action, limit_price } => limit_price <= MAX_PRICE,
        _ => true,
    }
}

/// The whole transition table: from a state, the last executed action
/// and an incoming event to the next state, the new last executed
/// action and the action asked of the exchange layer. An event that
/// does not fit the state changes nothing.
pub open spec fn step_spec(
    st: LifecycleState,
    ds: DecisionState,
    ev: LifecycleEvent,
    cfg: LifecycleConfig,
) -> (LifecycleState, DecisionState, LifecycleAction) {
    match (st, ev) {
        (LifecycleState::Idle, LifecycleEvent::Signal { action, limit_price }) => {
            if action == TradeAction::Hold || action == ds.last_executed_action {
                (LifecycleState::Idle, ds, LifecycleAction::DoNothing)
            } else {
                (
                    LifecycleState::Placing { action, limit_price },
                    ds,
                    LifecycleAction::PlaceOrder {
                        is_buy: action == TradeAction::Buy,
                        limit_price,
                    },
                )
            }
        },
        (LifecycleState::Placing { action, limit_price }, LifecycleEvent::Placement { order_id }) => {
            match order_id {
                Some(oid) => (
                    LifecycleState::Resting { action, limit_price, order_id: oid },
                    ds,
                    LifecycleAction::WaitGrace { seconds: cfg.grace_secs },
                ),
                // Nothing was placed: the position already matched the
                // direction, or the submission failed. Record the
                // action as executed anyway, so the dedup advances.
                None => (
                    LifecycleState::Idle,
                    DecisionState { last_executed_action: action },
                    LifecycleAction::DoNothing,
                ),
            }
        },
        (
            LifecycleState::Resting { action, limit_price, order_id },
            LifecycleEvent::GraceElapsed,
        ) => (
            LifecycleState::Cancelling { action, limit_price, order_id },
            ds,
            LifecycleAction::CancelOrder { order_id },
        ),
        (
            LifecycleState::Cancelling { action, limit_price, order_id },
            LifecycleEvent::CancelOutcome { cancelled },
        ) => {
            if cancelled {
                // The order was still open and is gone: retry at the
                // slippage-adjusted price.
                (
                    LifecycleState::Repricing {
                        action,
                        limit_price: reprice_spec(
                            action == TradeAction::Buy,
                            limit_price,
                            cfg,
                        ) as u64,
                    },
                    ds,
                    LifecycleAction::PlaceRepriced {
                        is_buy: action == TradeAction::Buy,
                        limit_price: reprice_spec(
                            action == TradeAction::Buy,
                            limit_price,
                            cfg,
                        ) as u64,
                    },
                )
            } else {
                // A failed cancel is read as "already filled".
                (
                    LifecycleState::Filled { action, order_id },
                    DecisionState { last_executed_action: action },
                    LifecycleAction::ReportFilled { order_id },
                )
            }
        },
        (LifecycleState::Repricing { action, .. }, LifecycleEvent::RepriceOutcome { order_id }) => (
            LifecycleState::Idle,
            DecisionState { last_executed_action: action },
            LifecycleAction::ReportRepriceResult { placed: order_id },
        ),
        (LifecycleState::Filled { .. }, LifecycleEvent::Acknowledged) => (
            LifecycleState::Idle,
            ds,
            LifecycleAction::DoNothing,
        ),
        _ => (st, ds, LifecycleAction::DoNothing),
    }
}

/// Drives one resting limit order at a time: place, wait out the grace
/// period, cancel, and either report the fill or retry once at a worse
/// price; a finished opportunity records its action for deduplication.
pub struct OrderLifecycleController {
    pub state: LifecycleState,
    pub decision: DecisionState,
    pub config: LifecycleConfig,
}

impl OrderLifecycleController {
    pub open spec fn wf(self) -> bool {
        &&& self.config.wf()
        &&& state_wf(self.state)
    }

    pub fn new(config: LifecycleConfig) -> (c: OrderLifecycleController)
        requires
            config.wf(),
        ensures
            c.wf(),
            c.state == LifecycleState::Idle,
            c.decision == (DecisionState { last_executed_action: TradeAction::Hold }),
            c.config == config,
    {
        OrderLifecycleController {
            state: LifecycleState::Idle,
            decision: DecisionState { last_executed_action: TradeAction::Hold },
            config,
        }
    }

    pub fn is_idle(&self) -> (b: bool)
        ensures
            b == (self.state is Idle),
    {
        matches!(self.state, LifecycleState::Idle)
    }

    /// One transition of the state machine.
    pub fn on_event(&mut self, event: LifecycleEvent) -> (r: LifecycleAction)
        requires
            old(self).wf(),
            event_wf(event),
        ensures
            final(self).wf(),
            final(self).config == old(self).config,
            (final(self).state, final(self).decision, r) == step_spec(
                old(self).state,
                old(self).decision,
                event,
                old(self).config,
            ),
    {
        match (self.state, event) {
            (LifecycleState::Idle, LifecycleEvent::Signal { action, limit_price }) => {
                if action == TradeAction::Hold || action == self.decision.last_executed_action {
                    LifecycleAction::DoNothing
                } else {
                    self.state = LifecycleState::Placing { action, limit_price };
                    LifecycleAction::PlaceOrder { is_buy: action == TradeAction::Buy, limit_price }
                }
            },
            (
                LifecycleState::Placing { action, limit_price },
                LifecycleEvent::Placement { order_id },
            ) => {
                match order_id {
                    Some(oid) => {
                        self.state = LifecycleState::Resting { action, limit_price, order_id: oid };
                        LifecycleAction::WaitGrace { seconds: self.config.grace_secs }
                    },
                    None => {
                        self.state = LifecycleState::Idle;
                        self.decision = DecisionState { last_executed_action: action };
                        LifecycleAction::DoNothing
                    },
                }
            },
            (
                LifecycleState::Resting { action, limit_price, order_id },
                LifecycleEvent::GraceElapsed,
            ) => {
                self.state = LifecycleState::Cancelling { action, limit_price, order_id };
                LifecycleAction::CancelOrder { order_id }
            },
            (
                LifecycleState::Cancelling { action, limit_price, order_id },
                LifecycleEvent::CancelOutcome { cancelled },
            ) => {
                if cancelled {
                    let is_buy = action == TradeAction::Buy;
                    let new_price = reprice(is_buy, limit_price, &self.config);
                    self.state = LifecycleState::Repricing { action, limit_price: new_price };
                    LifecycleAction::PlaceRepriced { is_buy, limit_price: new_price }
                } else {
                    self.state = LifecycleState::Filled { action, order_id };
                    self.decision = DecisionState { last_executed_action: action };
                    LifecycleAction::ReportFilled { order_id }
                }
            },
            (LifecycleState::Repricing { action, .. }, LifecycleEvent::RepriceOutcome { order_id }) => {
                self.state = LifecycleState::Idle;
                self.decision = DecisionState { last_executed_action: action };
                LifecycleAction::ReportRepriceResult { placed: order_id }
            },
            (LifecycleState::Filled { .. }, LifecycleEvent::Acknowledged) => {
                self.state = LifecycleState::Idle;
                LifecycleAction::DoNothing
            },
            _ => LifecycleAction::DoNothing,
        }
    }
}

/// A signal equal to the last executed action changes nothing and
/// places nothing, whatever state the lifecycle is in: once a buy has
/// been executed, a repeated buy signal cannot trigger a placement
/// until some other action has been executed in between.
pub proof fn lemma_duplicate_signal_suppressed(
    st: LifecycleState,
    ds: DecisionState,
    a: TradeAction,
    p: u64,
    cfg: LifecycleConfig,
)
    requires
        ds.last_executed_action == a,
    ensures
        step_spec(st, ds, LifecycleEvent::Signal { action: a, limit_price: p }, cfg) == (
            st,
            ds,
            LifecycleAction::DoNothing,
        ),
{
}

/// An order is only ever placed out of the idle state, on a fresh
/// non-hold signal that differs from the last executed action.
pub proof fn lemma_placement_needs_fresh_signal(
    st: LifecycleState,
    ds: DecisionState,
    ev: LifecycleEvent,
    cfg: LifecycleConfig,
)
    ensures
        step_spec(st, ds, ev, cfg).2 is PlaceOrder ==> {
            &&& st is Idle
            &&& ev matches LifecycleEvent::Signal { action, .. } && action != TradeAction::Hold
                && action != ds.last_executed_action
        },
{
}

} // verus!
