use tick_engine::action::TradeAction;
use tick_engine::lifecycle::{
    plan_order, reprice, LifecycleAction, LifecycleConfig, LifecycleEvent, LifecycleState,
    OrderLifecycleController,
};
use tick_engine::units::SCALE;

fn config() -> LifecycleConfig {
    LifecycleConfig {
        min_quote: 100 * SCALE,
        min_base: 100 * SCALE,
        slip_num: 1,
        slip_den: 100,
        grace_secs: 30,
    }
}

#[test]
fn test_buy_lifecycle_with_reprice() {
    // Buy signal, placement succeeds, the grace period runs out, the
    // cancel succeeds (the order was still open), so a re-priced buy
    // at limit * 1.01 goes out; afterwards the buy counts as executed.
    let mut ctrl = OrderLifecycleController::new(config());
    let limit = 100 * SCALE;

    let act = ctrl.on_event(LifecycleEvent::Signal { action: TradeAction::Buy, limit_price: limit });
    assert_eq!(act, LifecycleAction::PlaceOrder { is_buy: true, limit_price: limit });

    let act = ctrl.on_event(LifecycleEvent::Placement { order_id: Some(42) });
    assert_eq!(act, LifecycleAction::WaitGrace { seconds: 30 });

    let act = ctrl.on_event(LifecycleEvent::GraceElapsed);
    assert_eq!(act, LifecycleAction::CancelOrder { order_id: 42 });

    let act = ctrl.on_event(LifecycleEvent::CancelOutcome { cancelled: true });
    assert_eq!(
        act,
        LifecycleAction::PlaceRepriced { is_buy: true, limit_price: 101 * SCALE }
    );

    let act = ctrl.on_event(LifecycleEvent::RepriceOutcome { order_id: Some(43) });
    assert_eq!(act, LifecycleAction::ReportRepriceResult { placed: Some(43) });

    assert_eq!(ctrl.state, LifecycleState::Idle);
    assert_eq!(ctrl.decision.last_executed_action, TradeAction::Buy);
}

#[test]
fn test_sell_lifecycle_filled_on_cancel_failure() {
    // Sell signal, placement succeeds, the cancel fails: the order is
    // read as already filled, no second order goes out.
    let mut ctrl = OrderLifecycleController::new(config());
    let limit = 100 * SCALE;

    let act = ctrl.on_event(LifecycleEvent::Signal { action: TradeAction::Sell, limit_price: limit });
    assert_eq!(act, LifecycleAction::PlaceOrder { is_buy: false, limit_price: limit });

    let act = ctrl.on_event(LifecycleEvent::Placement { order_id: Some(7) });
    assert_eq!(act, LifecycleAction::WaitGrace { seconds: 30 });

    let act = ctrl.on_event(LifecycleEvent::GraceElapsed);
    assert_eq!(act, LifecycleAction::CancelOrder { order_id: 7 });

    let act = ctrl.on_event(LifecycleEvent::CancelOutcome { cancelled: false });
    assert_eq!(act, LifecycleAction::ReportFilled { order_id: 7 });
    assert_eq!(
        ctrl.state,
        LifecycleState::Filled { action: TradeAction::Sell, order_id: 7 }
    );
    assert_eq!(ctrl.decision.last_executed_action, TradeAction::Sell);

    let act = ctrl.on_event(LifecycleEvent::Acknowledged);
    assert_eq!(act, LifecycleAction::DoNothing);
    assert_eq!(ctrl.state, LifecycleState::Idle);
    assert_eq!(ctrl.decision.last_executed_action, TradeAction::Sell);
}

#[test]
fn test_insufficient_balance_short_circuit() {
    // A buy whose quote balance sits below the floor: nothing is
    // submitted, yet the buy counts as executed.
    let cfg = config();
    let intent = plan_order(true, 100 * SCALE, 0, 50 * SCALE, &cfg);
    assert_eq!(intent, None);

    let mut ctrl = OrderLifecycleController::new(cfg);
    let act = ctrl.on_event(LifecycleEvent::Signal {
        action: TradeAction::Buy,
        limit_price: 100 * SCALE,
    });
    assert_eq!(
        act,
        LifecycleAction::PlaceOrder { is_buy: true, limit_price: 100 * SCALE }
    );
    let act = ctrl.on_event(LifecycleEvent::Placement { order_id: None });
    assert_eq!(act, LifecycleAction::DoNothing);
    assert_eq!(ctrl.state, LifecycleState::Idle);
    assert_eq!(ctrl.decision.last_executed_action, TradeAction::Buy);
}

#[test]
fn test_duplicate_signal_is_suppressed() {
    // After an executed buy, another buy signal places nothing.
    let mut ctrl = OrderLifecycleController::new(config());
    ctrl.on_event(LifecycleEvent::Signal { action: TradeAction::Buy, limit_price: 100 * SCALE });
    ctrl.on_event(LifecycleEvent::Placement { order_id: None });
    assert_eq!(ctrl.decision.last_executed_action, TradeAction::Buy);

    let act = ctrl.on_event(LifecycleEvent::Signal {
        action: TradeAction::Buy,
        limit_price: 99 * SCALE,
    });
    assert_eq!(act, LifecycleAction::DoNothing);
    assert_eq!(ctrl.state, LifecycleState::Idle);

    // A sell signal still goes through.
    let act = ctrl.on_event(LifecycleEvent::Signal {
        action: TradeAction::Sell,
        limit_price: 99 * SCALE,
    });
    assert_eq!(
        act,
        LifecycleAction::PlaceOrder { is_buy: false, limit_price: 99 * SCALE }
    );
}

#[test]
fn test_reprice_formula() {
    let cfg = config();
    // A re-priced buy pays 1% more, a re-priced sell accepts 1% less.
    assert_eq!(reprice(true, 100 * SCALE, &cfg), 101 * SCALE);
    assert_eq!(reprice(false, 100 * SCALE, &cfg), 99 * SCALE);
    // Rounding half-up to the grid: 3 * 1.01 = 3.03 exactly; an odd
    // price exercises the halfway rounding.
    assert_eq!(reprice(true, 300_000, &cfg), 303_000);
    assert_eq!(reprice(true, 50, &cfg), 51);
}

#[test]
fn test_plan_order_sizing() {
    let cfg = config();
    // Buy: the whole quote balance at the limit price, floored to
    // whole units. 1000.5 quote at price 3 buys 333 units.
    let intent = plan_order(true, 3 * SCALE, 0, 1000 * SCALE + SCALE / 2, &cfg).unwrap();
    assert!(intent.is_buy);
    assert_eq!(intent.limit_price, 3 * SCALE);
    assert_eq!(intent.size, 333 * SCALE);

    // Sell: the whole base balance, floored to whole units.
    let intent = plan_order(false, 3 * SCALE, 250 * SCALE + 70_000, 0, &cfg).unwrap();
    assert!(!intent.is_buy);
    assert_eq!(intent.size, 250 * SCALE);

    // A sell below the base floor is short-circuited.
    assert_eq!(plan_order(false, 3 * SCALE, 50 * SCALE, 0, &cfg), None);
}
