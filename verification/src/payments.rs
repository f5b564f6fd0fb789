//! Payments as the SDK shows them, read from plain copies of the Lightning node's payment
//! records, and what the node's payment events ask the SDK to do.
use vstd::prelude::*;
use vstd::utf8::*;
use crate::node_api::{claim_key, preimage_key_view, ChannelState};
use crate::text::{hex, hex_encoding};

verus! {

broadcast use vstd::string::group_string_axioms;

/// Who paid whom.
#[derive(Debug, Clone, Copy, PartialEq, Eq, Structural)]
pub enum PaymentDirection {
    Inbound,
    Outbound,
}

/// The state of a payment as the node reports it.
#[derive(Debug, Clone, Copy, PartialEq, Eq, Structural)]
pub enum LdkPaymentStatus {
    Pending,
    Succeeded,
    Failed,
}

/// Whether an on-chain transaction is confirmed.
#[derive(Debug, Clone, Copy, PartialEq, Eq, Structural)]
pub enum ConfirmationStatus {
    Confirmed,
    Unconfirmed,
}

/// What kind of payment the node made or received, with the hashes it keeps of it.
#[allow(inconsistent_fields)]
pub enum PaymentKind {
    Bolt11 { hash: Vec<u8>, preimage: Option<Vec<u8>> },
    Bolt11Jit { hash: Vec<u8>, preimage: Option<Vec<u8>> },
    Bolt12Offer { hash: Option<Vec<u8>>, preimage: Option<Vec<u8>>, offer_id: Vec<u8> },
    Bolt12Refund,
    Onchain { txid: Vec<u8>, status: ConfirmationStatus },
    Spontaneous { hash: Vec<u8>, preimage: Option<Vec<u8>> },
}

/// What the node reports of one payment.
pub struct LdkPayment {
    pub id: Vec<u8>,
    pub kind: PaymentKind,
    pub direction: PaymentDirection,
    pub amount_msat: Option<u64>,
    pub fee_paid_msat: Option<u64>,
    pub status: LdkPaymentStatus,
    pub latest_update_timestamp: u64,
}

/// Whether the node sent or received a payment, as the SDK shows it.
#[derive(Debug, Clone, Copy, PartialEq, Eq, Structural)]
pub enum PaymentType {
    Sent,
    Received,
}

/// The state of a payment as the SDK shows it.
#[derive(Debug, Clone, Copy, PartialEq, Eq, Structural)]
pub enum PaymentStatus {
    Pending,
    Complete,
    Failed,
}

/// The details of a Lightning payment.
pub struct LnPaymentDetails {
    pub payment_hash: String,
    pub label: String,
    pub destination_pubkey: String,
    pub payment_preimage: String,
    pub keysend: bool,
    pub bolt11: String,
    pub open_channel_bolt11: Option<String>,
}

/// The details of an on-chain payment out of a closed channel.
pub struct ClosedChannelPaymentDetails {
    pub state: ChannelState,
    pub funding_txid: String,
    pub short_channel_id: Option<String>,
    pub closing_txid: Option<String>,
}

/// The details of a payment.
#[allow(inconsistent_fields)]
pub enum PaymentDetails {
    Ln { data: LnPaymentDetails },
    ClosedChannel { data: ClosedChannelPaymentDetails },
}

/// A payment as the SDK shows it.
pub struct Payment {
    pub id: String,
    pub payment_type: PaymentType,
    pub payment_time: i64,
    pub amount_msat: u64,
    pub fee_msat: u64,
    pub status: PaymentStatus,
    pub error: Option<String>,
    pub description: Option<String>,
    pub details: PaymentDetails,
    pub metadata: Option<String>,
}

/// The SDK's state of a payment.
pub fn to_payment_status(status: LdkPaymentStatus) -> (r: PaymentStatus)
    ensures
        r == (match status {
            LdkPaymentStatus::Pending => PaymentStatus::Pending,
            LdkPaymentStatus::Succeeded => PaymentStatus::Complete,
            LdkPaymentStatus::Failed => PaymentStatus::Failed,
        }),
{
    match status {
        LdkPaymentStatus::Pending => PaymentStatus::Pending,
        LdkPaymentStatus::Succeeded => PaymentStatus::Complete,
        LdkPaymentStatus::Failed => PaymentStatus::Failed,
    }
}

/// The state of the channel that an on-chain payment closes.
pub fn to_channel_state(status: ConfirmationStatus) -> (r: ChannelState)
    ensures
        r == (match status {
            ConfirmationStatus::Confirmed => ChannelState::Closed,
            ConfirmationStatus::Unconfirmed => ChannelState::PendingClose,
        }),
{
    match status {
        ConfirmationStatus::Confirmed => ChannelState::Closed,
        ConfirmationStatus::Unconfirmed => ChannelState::PendingClose,
    }
}

/// `s` is the lowercase hex of `b`.
pub open spec fn hex_text(s: Seq<char>, b: Seq<u8>) -> bool {
    encode_utf8(s) == hex_encoding(b)
}

/// `s` is the lowercase hex of `o`, or empty when there is none.
pub open spec fn opt_hex_text(s: Seq<char>, o: Option<Vec<u8>>) -> bool {
    match o {
        Some(b) => hex_text(s, b@),
        None => s.len() == 0,
    }
}

fn opt_hex(o: &Option<Vec<u8>>) -> (r: String)
    ensures
        opt_hex_text(r@, *o),
{
    match o {
        Some(b) => hex(b.as_slice()),
        None => String::new(),
    }
}

/// The details of a Lightning payment whose destination and keysend flag are given.
pub open spec fn ln_details(
    d: LnPaymentDetails,
    hash: Seq<char>,
    destination: Seq<char>,
    preimage: Option<Vec<u8>>,
    keysend: bool,
) -> bool {
    &&& d.payment_hash@ == hash
    &&& d.label@.len() == 0
    &&& d.destination_pubkey@ == destination
    &&& opt_hex_text(d.payment_preimage@, preimage)
    &&& d.keysend == keysend
    &&& d.open_channel_bolt11 is None
}

/// The destination that the SDK shows: this node for a received payment, none for a sent one.
pub open spec fn destination_of(direction: PaymentDirection, local_node_id: Seq<char>) -> Seq<char> {
    match direction {
        PaymentDirection::Inbound => local_node_id,
        PaymentDirection::Outbound => Seq::empty(),
    }
}

/// `d` is how the SDK shows the details of `payment`, for the node `local_node_id`.
pub open spec fn payment_details_view(payment: LdkPayment, local_node_id: Seq<char>, d: PaymentDetails) -> bool {
    let dest = destination_of(payment.direction, local_node_id);
    match (payment.kind, d) {
        (PaymentKind::Bolt11 { hash, preimage }, PaymentDetails::Ln { data })
        | (PaymentKind::Bolt11Jit { hash, preimage }, PaymentDetails::Ln { data }) => {
            &&& hex_text(data.payment_hash@, hash@)
            &&& ln_details(data, data.payment_hash@, dest, preimage, false)
            &&& data.bolt11@.len() == 0
        },
        (PaymentKind::Spontaneous { hash, preimage }, PaymentDetails::Ln { data }) => {
            &&& hex_text(data.payment_hash@, hash@)
            &&& ln_details(data, data.payment_hash@, dest, preimage, true)
            &&& data.bolt11@.len() == 0
        },
        (PaymentKind::Bolt12Offer { hash, preimage, offer_id }, PaymentDetails::Ln { data }) => {
            &&& opt_hex_text(data.payment_hash@, hash)
            &&& ln_details(data, data.payment_hash@, Seq::empty(), preimage, false)
            &&& hex_text(data.bolt11@, offer_id@)
        },
        (PaymentKind::Onchain { txid, status }, PaymentDetails::ClosedChannel { data }) => {
            &&& data.state == (match status {
                ConfirmationStatus::Confirmed => ChannelState::Closed,
                ConfirmationStatus::Unconfirmed => ChannelState::PendingClose,
            })
            &&& data.funding_txid@.len() == 0
            &&& data.short_channel_id is None
            &&& match data.closing_txid {
                Some(t) => hex_text(t@, txid@),
                None => false,
            }
        },
        _ => false,
    }
}

/// The payment hash that a payment of `kind` carries, if it carries one.
pub open spec fn carried_hash(kind: PaymentKind) -> Option<Seq<u8>> {
    match kind {
        PaymentKind::Bolt11 { hash, .. } => Some(hash@),
        PaymentKind::Bolt11Jit { hash, .. } => Some(hash@),
        PaymentKind::Spontaneous { hash, .. } => Some(hash@),
        PaymentKind::Bolt12Offer { hash: Some(h), .. } => Some(h@),
        _ => None,
    }
}

/// The preimage that a payment of `kind` carries, if it carries one.
pub open spec fn carried_preimage(kind: PaymentKind) -> Option<Seq<u8>> {
    match kind {
        PaymentKind::Bolt11 { preimage: Some(p), .. } => Some(p@),
        PaymentKind::Bolt11Jit { preimage: Some(p), .. } => Some(p@),
        PaymentKind::Spontaneous { preimage: Some(p), .. } => Some(p@),
        PaymentKind::Bolt12Offer { preimage: Some(p), .. } => Some(p@),
        _ => None,
    }
}

/// `s` is the lowercase hex of `o`, or empty when there is nothing to show.
pub open spec fn hex_or_empty(s: Seq<char>, o: Option<Seq<u8>>) -> bool {
    match o {
        Some(b) => hex_text(s, b),
        None => s.len() == 0,
    }
}

/// What the shown details of `payment` say, field by field: an on-chain payment is shown
/// as the channel it closed, by its transaction, and every other payment as a Lightning
/// payment that shows the hash and preimage it carries in hex, is keysend exactly when it
/// was spontaneous, names this node as destination exactly when it received an invoice
/// payment, and shows an offer's id in place of an invoice.
pub open spec fn shows_payment(payment: LdkPayment, local_node_id: Seq<char>, d: PaymentDetails) -> bool {
    match d {
        PaymentDetails::Ln { data } => {
            &&& !(payment.kind is Onchain)
            &&& hex_or_empty(data.payment_hash@, carried_hash(payment.kind))
            &&& hex_or_empty(data.payment_preimage@, carried_preimage(payment.kind))
            &&& (data.keysend <==> payment.kind is Spontaneous)
            &&& data.destination_pubkey@ == (if payment.direction == PaymentDirection::Inbound
                && !(payment.kind is Bolt12Offer) {
                local_node_id
            } else {
                Seq::<char>::empty()
            })
            &&& hex_or_empty(data.bolt11@, match payment.kind {
                PaymentKind::Bolt12Offer { offer_id, .. } => Some(offer_id@),
                _ => None,
            })
            &&& data.label@.len() == 0
            &&& data.open_channel_bolt11 is None
        },
        PaymentDetails::ClosedChannel { data } => match payment.kind {
            PaymentKind::Onchain { txid, status } => {
                &&& hex_or_empty(
                    match data.closing_txid {
                        Some(t) => t@,
                        None => Seq::<char>::empty(),
                    },
                    Some(txid@),
                )
                &&& data.closing_txid is Some
                &&& (data.state == ChannelState::Closed <==> status == ConfirmationStatus::Confirmed)
                &&& (data.state == ChannelState::PendingClose <==> status == ConfirmationStatus::Unconfirmed)
                &&& data.funding_txid@.len() == 0
                &&& data.short_channel_id is None
            },
            _ => false,
        },
    }
}

/// The details shown of a payment are those of that payment: every payment that carries a
/// payment hash (an invoice, JIT, spontaneous or offer payment) is shown with that hash in
/// hex, and likewise its preimage, keysend flag, destination and offer id; an on-chain
/// payment is shown as the channel its transaction closed.
pub proof fn lemma_details_show_the_payment(payment: LdkPayment, local_node_id: Seq<char>, d: PaymentDetails)
    requires
        !(payment.kind is Bolt12Refund),
        payment_details_view(payment, local_node_id, d),
    ensures
        shows_payment(payment, local_node_id, d),
{
}

/// The details of a payment as the SDK shows them.
pub fn to_payment_details(payment: &LdkPayment, local_node_id: &str) -> (r: PaymentDetails)
    requires
        !(payment.kind is Bolt12Refund),
    ensures
        payment_details_view(*payment, local_node_id@, r),
        shows_payment(*payment, local_node_id@, r),
{
    let destination_pubkey = match payment.direction {
        PaymentDirection::Inbound => local_node_id.to_string(),
        PaymentDirection::Outbound => String::new(),
    };
    match &payment.kind {
        PaymentKind::Bolt11 { hash, preimage } | PaymentKind::Bolt11Jit { hash, preimage } => {
            PaymentDetails::Ln {
                data: LnPaymentDetails {
                    payment_hash: hex(hash.as_slice()),
                    label: String::new(),
                    destination_pubkey,
                    payment_preimage: opt_hex(preimage),
                    keysend: false,
                    bolt11: String::new(),
                    open_channel_bolt11: None,
                },
            }
        },
        PaymentKind::Bolt12Offer { hash, preimage, offer_id } => PaymentDetails::Ln {
            data: LnPaymentDetails {
                payment_hash: opt_hex(hash),
                label: String::new(),
                destination_pubkey: String::new(),
                payment_preimage: opt_hex(preimage),
                keysend: false,
                bolt11: hex(offer_id.as_slice()),
                open_channel_bolt11: None,
            },
        },
        PaymentKind::Onchain { txid, status } => PaymentDetails::ClosedChannel {
            data: ClosedChannelPaymentDetails {
                state: to_channel_state(*status),
                funding_txid: String::new(),
                short_channel_id: None,
                closing_txid: Some(hex(txid.as_slice())),
            },
        },
        PaymentKind::Spontaneous { hash, preimage } => PaymentDetails::Ln {
            data: LnPaymentDetails {
                payment_hash: hex(hash.as_slice()),
                label: String::new(),
                destination_pubkey,
                payment_preimage: opt_hex(preimage),
                keysend: true,
                bolt11: String::new(),
                open_channel_bolt11: None,
            },
        },
        PaymentKind::Bolt12Refund => unreached(),
    }
}

/// A payment as the SDK shows it.
pub fn to_payment(payment: &LdkPayment, local_node_id: &str) -> (r: Payment)
    requires
        !(payment.kind is Bolt12Refund),
    ensures
        hex_text(r.id@, payment.id@),
        r.payment_type == (match payment.direction {
            PaymentDirection::Inbound => PaymentType::Received,
            PaymentDirection::Outbound => PaymentType::Sent,
        }),
        r.payment_time == payment.latest_update_timestamp as i64,
        r.amount_msat == (match payment.amount_msat {
            Some(a) => a,
            None => 0u64,
        }),
        r.fee_msat == (match payment.fee_paid_msat {
            Some(f) => f,
            None => 0u64,
        }),
        r.status == (match payment.status {
            LdkPaymentStatus::Pending => PaymentStatus::Pending,
            LdkPaymentStatus::Succeeded => PaymentStatus::Complete,
            LdkPaymentStatus::Failed => PaymentStatus::Failed,
        }),
        r.error is None,
        r.description is None,
        r.metadata is None,
        payment_details_view(*payment, local_node_id@, r.details),
        shows_payment(*payment, local_node_id@, r.details),
{
    let payment_type = match payment.direction {
        PaymentDirection::Inbound => PaymentType::Received,
        PaymentDirection::Outbound => PaymentType::Sent,
    };
    Payment {
        id: hex(payment.id.as_slice()),
        payment_type,
        payment_time: payment.latest_update_timestamp as i64,
        amount_msat: match payment.amount_msat {
            Some(a) => a,
            None => 0,
        },
        fee_msat: match payment.fee_paid_msat {
            Some(f) => f,
            None => 0,
        },
        status: to_payment_status(payment.status),
        error: None,
        description: None,
        details: to_payment_details(payment, local_node_id),
        metadata: None,
    }
}

/// An event that the Lightning node reports.
pub enum NodeEvent {
    PaymentReceived { payment_id: Option<Vec<u8>> },
    PaymentSuccessful { payment_id: Option<Vec<u8>> },
    PaymentFailed { payment_id: Option<Vec<u8>>, reason: Option<String> },
    PaymentClaimable { payment_hash: Vec<u8>, claimable_amount_msat: u64 },
    PaymentForwarded,
    ChannelPending,
    ChannelReady,
    ChannelClosed,
}

/// What the SDK does about an event.
pub enum EventAction {
    /// Look the payment up and report it, with the failure reason if there is one.
    ReportPayment { payment_id: Vec<u8>, error: Option<String> },
    /// Look up the preimage stored under `preimage_key`, then claim the payment with it, or
    /// fail the payment when there is none.
    ClaimOrFail { preimage_key: String, payment_hash: Vec<u8>, amount_msat: u64 },
    /// Nothing beyond acknowledging the event.
    Nothing,
}

/// Payment events carry the id of their payment.
pub open spec fn event_well_formed(event: NodeEvent) -> bool {
    match event {
        NodeEvent::PaymentReceived { payment_id } => payment_id is Some,
        NodeEvent::PaymentSuccessful { payment_id } => payment_id is Some,
        NodeEvent::PaymentFailed { payment_id, .. } => payment_id is Some,
        _ => true,
    }
}

/// What the SDK does about an event of the node.
pub fn event_action(event: NodeEvent) -> (r: EventAction)
    requires
        event_well_formed(event),
    ensures
        match event {
            NodeEvent::PaymentReceived { payment_id } | NodeEvent::PaymentSuccessful { payment_id } => match r {
                EventAction::ReportPayment { payment_id: id, error } => Some(id) == payment_id && error is None,
                _ => false,
            },
            NodeEvent::PaymentFailed { payment_id, reason } => match r {
                EventAction::ReportPayment { payment_id: id, error } => Some(id) == payment_id && error == reason,
                _ => false,
            },
            NodeEvent::PaymentClaimable { payment_hash, claimable_amount_msat } => match r {
                EventAction::ClaimOrFail { preimage_key, payment_hash: h, amount_msat } => {
                    &&& preimage_key@ == preimage_key_view(payment_hash@)
                    &&& h == payment_hash
                    &&& amount_msat == claimable_amount_msat
                },
                _ => false,
            },
            _ => r is Nothing,
        },
{
    match event {
        NodeEvent::PaymentReceived { payment_id } => EventAction::ReportPayment {
            payment_id: payment_id.unwrap(),
            error: None,
        },
        NodeEvent::PaymentSuccessful { payment_id } => EventAction::ReportPayment {
            payment_id: payment_id.unwrap(),
            error: None,
        },
        NodeEvent::PaymentFailed { payment_id, reason } => EventAction::ReportPayment {
            payment_id: payment_id.unwrap(),
            error: reason,
        },
        NodeEvent::PaymentClaimable { payment_hash, claimable_amount_msat } => {
            let key = claim_key(payment_hash.as_slice());
            EventAction::ClaimOrFail {
                preimage_key: key,
                payment_hash,
                amount_msat: claimable_amount_msat,
            }
        },
        _ => EventAction::Nothing,
    }
}

/// What becomes of a claimable payment once its preimage was looked up.
pub enum ClaimAction {
    /// Claim the payment with this preimage, then forget the stored preimage.
    Claim { preimage: Vec<u8> },
    /// Fail the payment: no preimage is stored for it.
    Fail,
}

/// Claims a payment whose preimage is stored, fails one whose preimage is not.
pub fn claim_action(stored_preimage: Option<Vec<u8>>) -> (r: ClaimAction)
    ensures
        match stored_preimage {
            Some(p) => match r {
                ClaimAction::Claim { preimage } => preimage@ == p@,
                ClaimAction::Fail => false,
            },
            None => r is Fail,
        },
{
    match stored_preimage {
        Some(preimage) => ClaimAction::Claim { preimage },
        None => ClaimAction::Fail,
    }
}

} // verus!
