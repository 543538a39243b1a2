use paper_trading_core::execution::{ReconciliationHandoff, TradeIntent};
use paper_trading_core::execution_engine::types::handoff_registration_digest;
use paper_trading_core::paired_policy::types::PairStageId;
use paper_trading_core::paired_settlement::{
    finalization_check, pair_lock_allowed, post_check, register_handoff, trade_observation_check,
    Error, HandoffSettlementView, LegSettlementView, RegisteredHandoff, TradeView,
};
use paper_trading_core::risk::types::{OrderExposure, OrderSide, RiskOrderId, TokenKey};

fn stage() -> PairStageId {
    PairStageId([5; 32])
}

fn token(name: &str) -> TokenKey {
    TokenKey { condition_id: "btc".to_owned(), token_id: name.to_owned() }
}

fn handoff(fill: &str, ledger: u8, quantity: i128) -> ReconciliationHandoff {
    ReconciliationHandoff {
        intent: TradeIntent {
            intent_id: [ledger; 32],
            trade_id: fill.to_owned(),
            order_id: "exchange-1".to_owned(),
            token: token("btc-up"),
            side: OrderSide::Buy,
            quantity_micros: quantity,
            consideration_micros: quantity * 4 / 10,
            fee_micros: 0,
            ledger_command_id: [ledger; 32],
        },
        source_sequence: 1,
        placement_policy_digest: [7; 32],
        source_observation_digest: [8; 32],
    }
}

fn confirmed() -> TradeView {
    TradeView { terminal: true, confirmed: true, transaction_hash: Some("0xabc".to_owned()) }
}

fn leg(terminal: bool, handoffs: Vec<HandoffSettlementView>) -> Option<LegSettlementView> {
    Some(LegSettlementView { terminal, handoffs })
}

fn settled(posted: bool, confirmed_trade: bool) -> HandoffSettlementView {
    HandoffSettlementView {
        registered: true,
        trade: Some(TradeView { terminal: true, confirmed: confirmed_trade, transaction_hash: None }),
        posted,
    }
}

fn buy(token_id: &str) -> OrderExposure {
    OrderExposure {
        order_id: RiskOrderId([1; 32]),
        token: token(token_id),
        side: OrderSide::Buy,
        quantity_micros: 100_000,
        partial_fill_micros: 50_000,
        limit_price_micros: 400_000,
        max_fee_micros: 0,
    }
}

#[test]
fn handoffs_register_once_by_ledger_id_and_digest() {
    let order = vec![handoff("fill-a", 1, 40_000), handoff("fill-b", 2, 60_000)];
    let mut registered: Vec<RegisteredHandoff> = Vec::new();
    assert_eq!(register_handoff(stage(), 0, 0, None, &mut registered), Err(Error::Handoff));
    assert_eq!(register_handoff(stage(), 0, 2, Some(&order), &mut registered), Err(Error::Handoff));
    assert_eq!(register_handoff(stage(), 0, 1, Some(&order), &mut registered), Ok(()));
    assert_eq!(registered.len(), 1);
    assert_eq!(registered[0].handoff_index, 1);
    assert_eq!(registered[0].intent, order[1].intent);
    assert!(!registered[0].posted);
    assert_eq!(registered[0].handoff_digest, handoff_registration_digest(&order[1]));
    assert_ne!(handoff_registration_digest(&order[0]), handoff_registration_digest(&order[1]));
    assert_eq!(register_handoff(stage(), 1, 1, Some(&order), &mut registered), Err(Error::Handoff));
    assert_eq!(registered.len(), 1);
}

#[test]
fn trade_observations_need_a_registered_trade_and_no_future_time() {
    let order = vec![handoff("fill-a", 1, 40_000)];
    let mut registered = Vec::new();
    register_handoff(stage(), 0, 0, Some(&order), &mut registered).expect("register");
    assert_eq!(trade_observation_check(&registered, &"fill-a".to_owned(), 10, 10), Ok(()));
    assert_eq!(trade_observation_check(&registered, &"fill-a".to_owned(), 11, 10), Err(Error::Boundary));
    assert_eq!(trade_observation_check(&registered, &"fill-z".to_owned(), 5, 10), Err(Error::Boundary));
}

#[test]
fn confirmed_fills_post_once_with_their_transaction_hash() {
    let order = vec![handoff("fill-a", 1, 40_000)];
    let mut registered = Vec::new();
    register_handoff(stage(), 0, 0, Some(&order), &mut registered).expect("register");
    let record = &registered[0];
    assert_eq!(post_check(Some(record), Some(&confirmed()), Some(&order)), Ok("0xabc".to_owned()));
    assert_eq!(post_check(None, Some(&confirmed()), Some(&order)), Err(Error::Handoff));
    let mut pending = confirmed();
    pending.confirmed = false;
    assert_eq!(post_check(Some(record), Some(&pending), Some(&order)), Err(Error::Confirmation));
    let mut blank = confirmed();
    blank.transaction_hash = Some(String::new());
    assert_eq!(post_check(Some(record), Some(&blank), Some(&order)), Err(Error::Confirmation));
    assert_eq!(post_check(Some(record), None, Some(&order)), Err(Error::Confirmation));
    assert_eq!(post_check(Some(record), Some(&confirmed()), None), Err(Error::Boundary));
    let changed = vec![handoff("fill-a", 1, 41_000)];
    assert_eq!(post_check(Some(record), Some(&confirmed()), Some(&changed)), Err(Error::Handoff));
    let mut posted = record.clone();
    posted.posted = true;
    assert_eq!(post_check(Some(&posted), Some(&confirmed()), Some(&order)), Err(Error::Confirmation));
}

#[test]
fn finalization_needs_settled_terminal_legs_and_releases_only_active_reservations() {
    let legs = [leg(true, vec![settled(true, true)]), leg(true, vec![settled(false, false)])];
    assert_eq!(finalization_check(false, true, true, &legs, [Some(true), Some(false)]), Ok(vec![0]));
    assert_eq!(finalization_check(false, true, true, &legs, [Some(true), Some(true)]), Ok(vec![0, 1]));
    assert_eq!(finalization_check(true, true, true, &legs, [Some(true), Some(true)]), Err(Error::ReconciliationNotCurrent));
    assert_eq!(finalization_check(false, false, true, &legs, [Some(true), Some(true)]), Err(Error::ReconciliationNotCurrent));
    assert_eq!(finalization_check(false, true, false, &legs, [Some(true), Some(true)]), Err(Error::UnsafeFinalization));
    assert_eq!(finalization_check(false, true, true, &legs, [None, Some(true)]), Err(Error::UnsafeFinalization));
    let live = [leg(false, Vec::new()), leg(true, Vec::new())];
    assert_eq!(finalization_check(false, true, true, &live, [Some(true), Some(true)]), Err(Error::UnsafeFinalization));
    let unposted = [leg(true, vec![settled(false, true)]), leg(true, Vec::new())];
    assert_eq!(finalization_check(false, true, true, &unposted, [Some(true), Some(true)]), Err(Error::UnsafeFinalization));
    let missing = [None, leg(true, Vec::new())];
    assert_eq!(finalization_check(false, true, true, &missing, [Some(true), Some(true)]), Err(Error::UnsafeFinalization));
}

#[test]
fn complete_pair_locks_only_what_both_legs_posted() {
    let mut registered = Vec::new();
    let first = vec![handoff("fill-a", 1, 40_000)];
    let second = vec![handoff("fill-b", 2, 30_000)];
    register_handoff(stage(), 0, 0, Some(&first), &mut registered).expect("first");
    register_handoff(stage(), 1, 0, Some(&second), &mut registered).expect("second");
    let up = buy("btc-up");
    let down = buy("btc-down");
    assert_eq!(pair_lock_allowed(10, false, true, Some((&up, &down)), &registered, &stage()), Err(Error::PairLock));
    registered[0].posted = true;
    registered[1].posted = true;
    assert_eq!(pair_lock_allowed(30_000, false, true, Some((&up, &down)), &registered, &stage()), Ok(()));
    assert_eq!(pair_lock_allowed(30_001, false, true, Some((&up, &down)), &registered, &stage()), Err(Error::PairLock));
    assert_eq!(pair_lock_allowed(10, true, true, Some((&up, &down)), &registered, &stage()), Err(Error::PairLock));
    assert_eq!(pair_lock_allowed(10, false, true, Some((&up, &up)), &registered, &stage()), Err(Error::PairLock));
}
