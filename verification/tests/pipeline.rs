use paper_trading_core::execution::{
    ActiveState, ExchangeEvent, ExecutionCommandId, OrderState, ReconciliationHandoff, RetryClass, TradeIntent,
};
use paper_trading_core::execution_engine::types::handoff_registration_digest;
use paper_trading_core::pipeline::{
    derived_policy_id, policy_sync, refresh_reservation_tracking, register_pending_handoff, settle_pending, Error,
    PendingHandoff, PolicySync,
};
use paper_trading_core::risk::types::{OrderSide, RiskOrderId, TokenKey};

fn oid() -> RiskOrderId {
    RiskOrderId([9; 32])
}

fn handoff(fill: &str, ledger: u8) -> ReconciliationHandoff {
    ReconciliationHandoff {
        intent: TradeIntent {
            intent_id: [ledger; 32],
            trade_id: fill.to_owned(),
            order_id: "exchange-1".to_owned(),
            token: TokenKey { condition_id: "btc".to_owned(), token_id: "btc-up".to_owned() },
            side: OrderSide::Buy,
            quantity_micros: 50_000,
            consideration_micros: 20_000,
            fee_micros: 0,
            ledger_command_id: [ledger; 32],
        },
        source_sequence: 3,
        placement_policy_digest: [7; 32],
        source_observation_digest: [8; 32],
    }
}

#[test]
fn observations_tell_the_policy_of_delays_liveness_and_ends_only() {
    let delayed = ExchangeEvent::Delayed { release_at_ns: 200, uncancellable_until_ns: 250 };
    assert_eq!(
        policy_sync(&delayed, Some(oid()), None),
        Some(PolicySync::MarkDelayed { order_id: oid(), release_at_ns: 200, uncancellable_until_ns: 250 })
    );
    assert_eq!(policy_sync(&ExchangeEvent::Live, Some(oid()), None), Some(PolicySync::MarkLive { order_id: oid() }));
    assert_eq!(
        policy_sync(&ExchangeEvent::CancelAccepted, Some(oid()), Some(&OrderState::Canceled)),
        Some(PolicySync::MarkTerminal { order_id: oid() })
    );
    let rejected = ExchangeEvent::Rejected { class: RetryClass::Permanent, code: "E1".to_owned() };
    assert_eq!(
        policy_sync(&rejected, Some(oid()), Some(&OrderState::Rejected { class: RetryClass::Permanent, code: "E1".to_owned() })),
        Some(PolicySync::MarkTerminal { order_id: oid() })
    );
    assert_eq!(
        policy_sync(&ExchangeEvent::Acknowledged, Some(oid()), Some(&OrderState::Active(ActiveState::Acknowledged))),
        None
    );
    assert_eq!(policy_sync(&ExchangeEvent::Live, None, None), None);
}

#[test]
fn policy_sync_ids_hash_the_domain_command_and_decision() {
    let id = derived_policy_id(ExecutionCommandId([1; 32]), [2; 32]);
    let mut bytes = b"paper-runtime-policy-sync-v1".to_vec();
    bytes.extend_from_slice(&[1; 32]);
    bytes.extend_from_slice(&[2; 32]);
    assert_eq!(&id, blake3::hash(&bytes).as_bytes());
    assert_ne!(id, derived_policy_id(ExecutionCommandId([1; 32]), [3; 32]));
}

#[test]
fn handoffs_become_pending_once_per_digest_and_ledger_command() {
    let order = vec![handoff("fill-a", 1), handoff("fill-b", 2)];
    let mut registered = Vec::new();
    let mut pending: Vec<PendingHandoff> = Vec::new();
    assert_eq!(register_pending_handoff(oid(), 0, None, &mut registered, &mut pending), Err(Error::Handoff));
    assert_eq!(register_pending_handoff(oid(), 5, Some(&order), &mut registered, &mut pending), Err(Error::Handoff));
    assert_eq!(register_pending_handoff(oid(), 0, Some(&order), &mut registered, &mut pending), Ok(()));
    assert_eq!(registered, vec![handoff_registration_digest(&order[0])]);
    assert_eq!(pending.len(), 1);
    assert_eq!(pending[0].ledger_command_id, [1; 32]);
    assert_eq!(pending[0].intent, order[0].intent);
    assert_eq!(register_pending_handoff(oid(), 0, Some(&order), &mut registered, &mut pending), Err(Error::Handoff));
    let mut same_ledger = order.clone();
    same_ledger[1].intent.ledger_command_id = [1; 32];
    assert_eq!(register_pending_handoff(oid(), 1, Some(&same_ledger), &mut registered, &mut pending), Err(Error::Handoff));
    assert_eq!(register_pending_handoff(oid(), 1, Some(&order), &mut registered, &mut pending), Ok(()));
    assert_eq!(pending.len(), 2);
}

#[test]
fn reservation_tracking_follows_the_ledger_reservation_state() {
    let mut reserved = vec![RiskOrderId([1; 32])];
    refresh_reservation_tracking(&mut reserved, None, false);
    assert_eq!(reserved, vec![RiskOrderId([1; 32])]);
    refresh_reservation_tracking(&mut reserved, Some([2; 32]), true);
    assert_eq!(reserved, vec![RiskOrderId([1; 32]), RiskOrderId([2; 32])]);
    refresh_reservation_tracking(&mut reserved, Some([2; 32]), true);
    assert_eq!(reserved.len(), 2);
    refresh_reservation_tracking(&mut reserved, Some([1; 32]), false);
    assert_eq!(reserved, vec![RiskOrderId([2; 32])]);
    refresh_reservation_tracking(&mut reserved, Some([3; 32]), false);
    assert_eq!(reserved, vec![RiskOrderId([2; 32])]);
}

#[test]
fn a_confirmed_fill_settles_only_its_own_pending_handoff() {
    let order = vec![handoff("fill-a", 1), handoff("fill-b", 2)];
    let mut registered = Vec::new();
    let mut pending: Vec<PendingHandoff> = Vec::new();
    register_pending_handoff(oid(), 0, Some(&order), &mut registered, &mut pending).expect("first");
    register_pending_handoff(oid(), 1, Some(&order), &mut registered, &mut pending).expect("second");
    settle_pending(&mut pending, &[1; 32]);
    assert_eq!(pending.len(), 1);
    assert_eq!(pending[0].ledger_command_id, [2; 32]);
    settle_pending(&mut pending, &[9; 32]);
    assert_eq!(pending.len(), 1);
    assert_eq!(registered.len(), 2);
}
