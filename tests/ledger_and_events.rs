use lightning_wallet::{
    EventMatcher, EventQueue, LedgerError, NodeEvent, PaymentDirection, PaymentLedger,
    PaymentRecord, PaymentStatus, WaitOutcome,
};

fn record(hash: u8, amount_msat: Option<u64>, direction: PaymentDirection) -> PaymentRecord {
    PaymentRecord { hash: [hash; 32], amount_msat, direction, status: PaymentStatus::Pending }
}

#[test]
fn ledger_records_and_settles_once() {
    let mut ledger = PaymentLedger::new();
    assert_eq!(ledger.record(record(1, Some(5_000), PaymentDirection::Outbound)), Ok(()));
    assert_eq!(
        ledger.record(record(1, Some(9), PaymentDirection::Inbound)),
        Err(LedgerError::DuplicateHash)
    );
    assert_eq!(ledger.find(&[1u8; 32]), Some(0));
    assert_eq!(ledger.find(&[2u8; 32]), None);
    assert_eq!(ledger.settle(&[1u8; 32], PaymentStatus::Failed, None), Ok(()));
    assert_eq!(
        ledger.settle(&[1u8; 32], PaymentStatus::Succeeded, None),
        Err(LedgerError::AlreadySettled)
    );
    assert_eq!(
        ledger.settle(&[3u8; 32], PaymentStatus::Succeeded, None),
        Err(LedgerError::UnknownPayment)
    );
    assert_eq!(ledger.get_payments(), vec![(5_000u64, 1u8, 2u8)]);
}

#[test]
fn listing_skips_absent_and_zero_amounts() {
    let mut ledger = PaymentLedger::new();
    ledger.record(record(1, None, PaymentDirection::Outbound)).unwrap();
    ledger.record(record(2, Some(0), PaymentDirection::Inbound)).unwrap();
    ledger.record(record(3, Some(42), PaymentDirection::Inbound)).unwrap();
    ledger.record(record(4, Some(7), PaymentDirection::Outbound)).unwrap();
    assert_eq!(ledger.get_payments(), vec![(42u64, 0u8, 0u8), (7u64, 1u8, 0u8)]);
    let listed = ledger.list_payments(|p: &PaymentRecord| p.amount_msat.is_some());
    assert_eq!(listed.len(), 3);
    assert!(listed.iter().all(|p| p.amount_msat.is_some()));
    let inbound = ledger.list_payments(|p: &PaymentRecord| p.direction == PaymentDirection::Inbound);
    assert_eq!(inbound.len(), 2);
    assert_eq!(inbound[0].hash, [2u8; 32]);
    assert_eq!(inbound[1].hash, [3u8; 32]);
}

#[test]
fn amountless_invoice_paid_then_listed_as_inbound_success() {
    let hash = [9u8; 32];
    let mut ledger = PaymentLedger::new();
    ledger.record(record(9, None, PaymentDirection::Inbound)).unwrap();
    assert!(ledger.get_payments().is_empty());

    let mut queue = EventQueue::new();
    queue.push(NodeEvent::PaymentReceived { payment_hash: hash, amount_msat: 100_000 }).unwrap();
    let (outcome, skipped) = queue.wait_for(&EventMatcher::PaymentReceivedFor { payment_hash: hash }, 10);
    assert!(skipped.is_empty());
    let event = match outcome {
        WaitOutcome::Matched(q) => q.event,
        _ => panic!("no matching event"),
    };
    assert_eq!(ledger.apply_event(&event), Ok(()));
    assert_eq!(ledger.get_payments(), vec![(100_000u64, 0u8, 1u8)]);
}

#[test]
fn outbound_success_event_settles_entry() {
    let mut ledger = PaymentLedger::new();
    ledger.record(record(4, Some(2_000), PaymentDirection::Outbound)).unwrap();
    let ev = NodeEvent::PaymentSuccessful { payment_hash: [4u8; 32] };
    assert_eq!(ledger.apply_event(&ev), Ok(()));
    assert_eq!(ledger.get_payments(), vec![(2_000u64, 1u8, 1u8)]);
    assert_eq!(ledger.apply_event(&ev), Err(LedgerError::AlreadySettled));
    let other = NodeEvent::ChannelReady { channel_id: [1u8; 32] };
    assert_eq!(ledger.apply_event(&other), Ok(()));
}

#[test]
fn unacknowledged_event_is_redelivered() {
    let mut queue = EventQueue::new();
    assert!(queue.wait_next_event().is_none());
    assert_eq!(queue.push(NodeEvent::ChannelReady { channel_id: [1u8; 32] }), Ok(0));
    let first = queue.wait_next_event().unwrap();
    assert_eq!(queue.push(NodeEvent::ChannelReady { channel_id: [2u8; 32] }), Ok(1));
    let again = queue.wait_next_event().unwrap();
    assert_eq!(first.id, 0);
    assert_eq!(again.id, 0);
    assert_eq!(queue.event_handled(), Some(0));
    let next = queue.wait_next_event().unwrap();
    assert_eq!(next.id, 1);
    assert_eq!(queue.event_handled(), Some(1));
    assert_eq!(queue.event_handled(), None);
    assert!(queue.wait_next_event().is_none());
}

#[test]
fn mismatched_pending_event_is_handed_back_and_match_satisfies() {
    let peer = [3u8; 33];
    let other = [4u8; 33];
    let mut queue = EventQueue::new();
    queue.push(NodeEvent::ChannelPending { channel_id: [1u8; 32], counterparty_node_id: other }).unwrap();
    queue.push(NodeEvent::ChannelPending { channel_id: [2u8; 32], counterparty_node_id: peer }).unwrap();
    queue.push(NodeEvent::ChannelReady { channel_id: [2u8; 32] }).unwrap();
    let m = EventMatcher::ChannelPendingWith { counterparty_node_id: peer };
    let (outcome, skipped) = queue.wait_for(&m, 5);
    assert_eq!(skipped.len(), 1);
    assert_eq!(skipped[0].id, 0);
    match outcome {
        WaitOutcome::Matched(q) => {
            assert_eq!(q.id, 1);
            assert!(matches!(q.event, NodeEvent::ChannelPending { channel_id, .. } if channel_id == [2u8; 32]));
        }
        _ => panic!("expected a match"),
    }
    assert_eq!(queue.wait_next_event().unwrap().id, 2);
}

#[test]
fn wait_stops_at_cap_or_when_drained() {
    let mut queue = EventQueue::new();
    for i in 0..3u8 {
        queue.push(NodeEvent::ChannelClosed { channel_id: [i; 32] }).unwrap();
    }
    let m = EventMatcher::ChannelReadyFor { channel_id: [9u8; 32] };
    let (outcome, skipped) = queue.wait_for(&m, 2);
    assert!(matches!(outcome, WaitOutcome::CapReached));
    assert_eq!(skipped.len(), 2);
    assert_eq!(queue.wait_next_event().unwrap().id, 2);
    let (outcome, skipped) = queue.wait_for(&m, 2);
    assert!(matches!(outcome, WaitOutcome::Drained));
    assert_eq!(skipped.len(), 1);
    assert!(queue.wait_next_event().is_none());
    let (outcome, skipped) = queue.wait_for(&m, 0);
    assert!(matches!(outcome, WaitOutcome::CapReached));
    assert!(skipped.is_empty());
}

#[test]
fn zero_amount_receipt_keeps_entry_listed() {
    let mut ledger = PaymentLedger::new();
    ledger.record(record(5, Some(5), PaymentDirection::Inbound)).unwrap();
    assert_eq!(ledger.get_payments(), vec![(5u64, 0u8, 0u8)]);
    let ev = NodeEvent::PaymentReceived { payment_hash: [5u8; 32], amount_msat: 0 };
    assert_eq!(ledger.apply_event(&ev), Ok(()));
    assert_eq!(ledger.get_payments(), vec![(5u64, 0u8, 1u8)]);
}

#[test]
fn redelivered_success_leaves_one_settled_row() {
    let hash = [6u8; 32];
    let mut ledger = PaymentLedger::new();
    ledger.record(record(6, Some(3_000), PaymentDirection::Outbound)).unwrap();
    let mut queue = EventQueue::new();
    queue.push(NodeEvent::PaymentSuccessful { payment_hash: hash }).unwrap();
    let first = queue.wait_next_event().unwrap();
    assert_eq!(ledger.apply_event(&first.event), Ok(()));
    let again = queue.wait_next_event().unwrap();
    assert_eq!(again.id, first.id);
    assert_eq!(ledger.apply_event(&again.event), Err(LedgerError::AlreadySettled));
    assert_eq!(queue.event_handled(), Some(first.id));
    assert!(queue.wait_next_event().is_none());
    assert_eq!(ledger.get_payments(), vec![(3_000u64, 1u8, 1u8)]);
}
