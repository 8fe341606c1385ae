use tick_engine::action::TradeAction;
use tick_engine::queue::PriceQueue;
use tick_engine::units::SCALE;

#[test]
fn test_initialization() {
    let queue = PriceQueue::new(5);
    assert_eq!(queue.capacity, 5);
    assert!(queue.queue.is_empty());
    assert_eq!(queue.current_sum, 0);
    assert_eq!(queue.last_trade, TradeAction::Hold);
}

#[test]
fn test_add_price_and_average() {
    let mut queue = PriceQueue::new(3);
    queue.update_and_decide(100 * SCALE);
    assert_eq!(queue.current_average(), 100 * SCALE);

    queue.update_and_decide(200 * SCALE);
    assert_eq!(queue.current_average(), 150 * SCALE);

    queue.update_and_decide(300 * SCALE);
    assert_eq!(queue.current_average(), 200 * SCALE);
}

#[test]
fn test_capacity_and_rollover() {
    let mut queue = PriceQueue::new(2);
    queue.update_and_decide(100 * SCALE);
    queue.update_and_decide(200 * SCALE);

    // Capacity reached, next addition should remove the oldest price.
    queue.update_and_decide(300 * SCALE);
    assert_eq!(queue.queue.len(), 2);
    assert_eq!(queue.current_average(), 250 * SCALE);
}

#[test]
fn test_decision_logic() {
    let mut queue = PriceQueue::new(3);
    queue.update_and_decide(100 * SCALE);
    queue.update_and_decide(100 * SCALE);

    // A price at the average holds.
    let (_, decision) = queue.update_and_decide(100 * SCALE);
    assert_eq!(queue.last_trade, TradeAction::Hold);
    assert_eq!(decision, TradeAction::Hold);

    // A price above average * 1.001 sells.
    let (_, decision) = queue.update_and_decide(102 * SCALE);
    assert_eq!(queue.last_trade, TradeAction::Sell);
    assert_eq!(decision, TradeAction::Sell);

    // A price below average * 0.999 buys.
    let (_, decision) = queue.update_and_decide(98 * SCALE);
    assert_eq!(queue.last_trade, TradeAction::Buy);
    assert_eq!(decision, TradeAction::Buy);
}

#[test]
fn test_update_and_decide_logic() {
    let mut queue = PriceQueue::new(3);
    // 1.1 in fixed-point units; the first push sets the average to the
    // price itself, so the decision is a hold.
    let (_, decision) = queue.update_and_decide(110_000);
    assert_eq!(decision, TradeAction::Hold);
    assert_eq!(queue.last_trade, TradeAction::Hold);

    // 0.9 lies below the new average times 0.999.
    let (_, decision) = queue.update_and_decide(90_000);
    assert_eq!(decision, TradeAction::Buy);
    assert_eq!(queue.last_trade, TradeAction::Buy);
}

#[test]
fn test_consecutive_buy_signals_suppressed() {
    // Two prices in a row below the buy band: the second raw buy is
    // degraded to a hold because the last emitted decision was a buy.
    let mut queue = PriceQueue::new(5);
    queue.update_and_decide(100 * SCALE);
    let (_, first) = queue.update_and_decide(90 * SCALE);
    assert_eq!(first, TradeAction::Buy);
    let (_, second) = queue.update_and_decide(80 * SCALE);
    assert_eq!(second, TradeAction::Hold);
    assert_eq!(queue.last_trade, TradeAction::Hold);
}

#[test]
fn test_rollover_subtracts_oldest() {
    let mut queue = PriceQueue::new(2);
    queue.update_and_decide(100 * SCALE);
    queue.update_and_decide(200 * SCALE);
    let sum_before = queue.current_sum;
    queue.update_and_decide(300 * SCALE);
    // The oldest price left the running sum before the new one joined.
    assert_eq!(
        queue.current_sum,
        sum_before - (100 * SCALE) as u128 + (300 * SCALE) as u128
    );
    assert_eq!(queue.queue, vec![200 * SCALE, 300 * SCALE]);
}
