use breez_ldk::node_api::ChannelState;
use breez_ldk::payments::{
    claim_action, event_action, to_channel_state, to_payment, to_payment_details, to_payment_status, ClaimAction,
    ConfirmationStatus, EventAction, LdkPayment, LdkPaymentStatus, NodeEvent, PaymentDetails, PaymentDirection, PaymentKind,
    PaymentStatus, PaymentType,
};

fn payment(kind: PaymentKind, direction: PaymentDirection) -> LdkPayment {
    LdkPayment {
        id: vec![0xab, 0x01],
        kind,
        direction,
        amount_msat: Some(5000),
        fee_paid_msat: None,
        status: LdkPaymentStatus::Succeeded,
        latest_update_timestamp: 1700000000,
    }
}

#[test]
fn statuses() {
    assert_eq!(to_payment_status(LdkPaymentStatus::Pending), PaymentStatus::Pending);
    assert_eq!(to_payment_status(LdkPaymentStatus::Succeeded), PaymentStatus::Complete);
    assert_eq!(to_payment_status(LdkPaymentStatus::Failed), PaymentStatus::Failed);
    assert_eq!(to_channel_state(ConfirmationStatus::Confirmed), ChannelState::Closed);
    assert_eq!(to_channel_state(ConfirmationStatus::Unconfirmed), ChannelState::PendingClose);
}

#[test]
fn received_bolt11_payment() {
    let p = payment(PaymentKind::Bolt11 { hash: vec![0x12, 0x34], preimage: Some(vec![0xff]) }, PaymentDirection::Inbound);
    let r = to_payment(&p, "node");
    assert_eq!(r.id, "ab01");
    assert_eq!(r.payment_type, PaymentType::Received);
    assert_eq!(r.payment_time, 1700000000);
    assert_eq!((r.amount_msat, r.fee_msat), (5000, 0));
    assert_eq!(r.status, PaymentStatus::Complete);
    assert!(r.error.is_none() && r.description.is_none() && r.metadata.is_none());
    match r.details {
        PaymentDetails::Ln { data } => {
            assert_eq!(data.payment_hash, "1234");
            assert_eq!(data.payment_preimage, "ff");
            assert_eq!(data.destination_pubkey, "node");
            assert!(!data.keysend);
            assert!(data.bolt11.is_empty() && data.label.is_empty() && data.open_channel_bolt11.is_none());
        }
        _ => panic!("not a Lightning payment"),
    }
}

#[test]
fn sent_spontaneous_and_offer_payments() {
    let p = payment(PaymentKind::Spontaneous { hash: vec![1], preimage: None }, PaymentDirection::Outbound);
    match to_payment_details(&p, "node") {
        PaymentDetails::Ln { data } => {
            assert!(data.keysend);
            assert_eq!(data.destination_pubkey, "");
            assert_eq!(data.payment_preimage, "");
            assert_eq!(data.payment_hash, "01");
        }
        _ => panic!("not a Lightning payment"),
    }
    let p = payment(PaymentKind::Bolt12Offer { hash: None, preimage: None, offer_id: vec![0xc0] }, PaymentDirection::Inbound);
    match to_payment_details(&p, "node") {
        PaymentDetails::Ln { data } => {
            assert_eq!(data.payment_hash, "");
            assert_eq!(data.bolt11, "c0");
            assert_eq!(data.destination_pubkey, "");
        }
        _ => panic!("not a Lightning payment"),
    }
    let p = payment(PaymentKind::Bolt11Jit { hash: vec![2], preimage: None }, PaymentDirection::Outbound);
    assert_eq!(to_payment(&p, "n").payment_type, PaymentType::Sent);
}

#[test]
fn onchain_payment_is_a_closed_channel() {
    let p = payment(PaymentKind::Onchain { txid: vec![0xde, 0xad], status: ConfirmationStatus::Unconfirmed }, PaymentDirection::Inbound);
    match to_payment_details(&p, "node") {
        PaymentDetails::ClosedChannel { data } => {
            assert_eq!(data.state, ChannelState::PendingClose);
            assert_eq!(data.closing_txid.as_deref(), Some("dead"));
            assert!(data.funding_txid.is_empty() && data.short_channel_id.is_none());
        }
        _ => panic!("not a closed channel"),
    }
}

#[test]
fn events_decide_actions() {
    match event_action(NodeEvent::PaymentFailed { payment_id: Some(vec![9]), reason: Some("RouteNotFound".to_string()) }) {
        EventAction::ReportPayment { payment_id, error } => {
            assert_eq!(payment_id, vec![9]);
            assert_eq!(error.as_deref(), Some("RouteNotFound"));
        }
        _ => panic!("failure not reported"),
    }
    match event_action(NodeEvent::PaymentReceived { payment_id: Some(vec![1]) }) {
        EventAction::ReportPayment { error, .. } => assert!(error.is_none()),
        _ => panic!("payment not reported"),
    }
    match event_action(NodeEvent::PaymentClaimable { payment_hash: vec![0x0a, 0xbc], claimable_amount_msat: 77 }) {
        EventAction::ClaimOrFail { preimage_key, payment_hash, amount_msat } => {
            assert_eq!(preimage_key, "0abc");
            assert_eq!(payment_hash, vec![0x0a, 0xbc]);
            assert_eq!(amount_msat, 77);
        }
        _ => panic!("claim not asked for"),
    }
    assert!(matches!(event_action(NodeEvent::ChannelReady), EventAction::Nothing));
    assert!(matches!(event_action(NodeEvent::PaymentSuccessful { payment_id: Some(vec![]) }), EventAction::ReportPayment { .. }));
    match claim_action(Some(vec![7; 32])) {
        ClaimAction::Claim { preimage } => assert_eq!(preimage, vec![7; 32]),
        ClaimAction::Fail => panic!("stored preimage ignored"),
    }
    assert!(matches!(claim_action(None), ClaimAction::Fail));
}

#[test]
fn payment_details_are_those_of_the_payment() {
    let p = payment(PaymentKind::Bolt11 { hash: vec![0x0a], preimage: None }, PaymentDirection::Inbound);
    let r = to_payment(&p, "local-node");
    match (r.details, to_payment_details(&p, "local-node")) {
        (PaymentDetails::Ln { data }, PaymentDetails::Ln { data: expected }) => {
            assert_eq!(data.destination_pubkey, "local-node");
            assert_eq!(data.destination_pubkey, expected.destination_pubkey);
            assert_eq!(data.payment_hash, expected.payment_hash);
            assert_eq!(data.payment_hash, "0a");
        }
        _ => panic!("not a Lightning payment"),
    }
}
