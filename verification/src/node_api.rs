//! The node's view of the SDK: networks, balances, channels, payments and the events the
//! Lightning node reports, read from plain copies of the node's own records.
use vstd::prelude::*;
use vstd::utf8::*;
use crate::backup_transport::{seed_hash, seed_hash_view, store_id};
use crate::config::Config;
use crate::digest::{sha256, sha256_digest};
use crate::text::{
    decimal, decimal_string, hex, hex_encoding, lemma_ascii_valid_utf8, lemma_hex_encoding_facts,
    lemma_hex_injective,
};

verus! {

broadcast use vstd::string::group_string_axioms;

/// The networks that the SDK knows.
#[derive(Debug, Clone, Copy, PartialEq, Eq, Structural)]
pub enum Network {
    Bitcoin,
    Testnet,
    Signet,
    Regtest,
}

/// The networks that the Lightning node knows.
#[derive(Debug, Clone, Copy, PartialEq, Eq, Structural)]
pub enum LdkNetwork {
    Bitcoin,
    Testnet,
    Testnet4,
    Signet,
    Regtest,
}

/// The node's network for a network of the SDK.
pub fn to_ldk_network(network: Network) -> (r: LdkNetwork)
    ensures
        r == (match network {
            Network::Bitcoin => LdkNetwork::Bitcoin,
            Network::Testnet => LdkNetwork::Testnet,
            Network::Signet => LdkNetwork::Signet,
            Network::Regtest => LdkNetwork::Regtest,
        }),
{
    match network {
        Network::Bitcoin => LdkNetwork::Bitcoin,
        Network::Testnet => LdkNetwork::Testnet,
        Network::Signet => LdkNetwork::Signet,
        Network::Regtest => LdkNetwork::Regtest,
    }
}

/// The SDK's network for a network of the node: both test networks are the SDK's testnet.
pub fn from_ldk_network(network: LdkNetwork) -> (r: Network)
    ensures
        r == (match network {
            LdkNetwork::Bitcoin => Network::Bitcoin,
            LdkNetwork::Testnet => Network::Testnet,
            LdkNetwork::Testnet4 => Network::Testnet,
            LdkNetwork::Signet => Network::Signet,
            LdkNetwork::Regtest => Network::Regtest,
        }),
{
    match network {
        LdkNetwork::Bitcoin => Network::Bitcoin,
        LdkNetwork::Testnet => Network::Testnet,
        LdkNetwork::Testnet4 => Network::Testnet,
        LdkNetwork::Signet => Network::Signet,
        LdkNetwork::Regtest => Network::Regtest,
    }
}

/// Going to the node's network and back gives the network itself.
pub proof fn lemma_network_round_trip(network: Network)
    ensures
        (match (match network {
            Network::Bitcoin => LdkNetwork::Bitcoin,
            Network::Testnet => LdkNetwork::Testnet,
            Network::Signet => LdkNetwork::Signet,
            Network::Regtest => LdkNetwork::Regtest,
        }) {
            LdkNetwork::Bitcoin => Network::Bitcoin,
            LdkNetwork::Testnet => Network::Testnet,
            LdkNetwork::Testnet4 => Network::Testnet,
            LdkNetwork::Signet => Network::Signet,
            LdkNetwork::Regtest => Network::Regtest,
        }) == network,
{
}

/// The endpoints of a supported network: those of mainnet for Bitcoin, those of regtest for
/// regtest.
pub fn node_config(network: Network) -> (c: Config)
    requires
        network == Network::Bitcoin || network == Network::Regtest,
    ensures
        network == Network::Bitcoin ==> {
            &&& c.esplora_url@ == "https://blockstream.info/api"@
            &&& c.rgs_url@ == "https://rapidsync.lightningdevkit.org/snapshot/v2"@
            &&& c.vss_url@ == "http://localhost:4080/vss"@
            &&& c.lsps2_id@ == "038a9e56512ec98da2b5789761f7af8f280baf98a09282360cd6ff1381b5e889bf"@
            &&& c.lsps2_address@ == "64.23.162.51:9735"@
        },
        network == Network::Regtest ==> {
            &&& c.esplora_url@ == "http://localhost:30000"@
            &&& c.rgs_url@ == "http://localhost:8011/v2"@
            &&& c.vss_url@ == "http://localhost:3080/vss"@
            &&& c.lsps2_id@ == "02b49b94e068e05c04c2ac98e096a06202d04920daec25d82f7898e21901f15d81"@
            &&& c.lsps2_address@ == "localhost:9735"@
        },
{
    match network {
        Network::Bitcoin => Config::mainnet(),
        _ => Config::regtest(),
    }
}

/// The id of the store that keeps the node's state for the seed.
pub fn ldk_store_id(seed: &[u8]) -> (r: String)
    ensures
        r@ == seed_hash_view(seed@) + seq!['/'] + "ldk_node"@,
{
    let h = seed_hash(seed);
    store_id(h.as_str(), "ldk_node")
}

/// How long an invoice stays payable when the request names no expiry, in seconds.
pub const DEFAULT_INVOICE_EXPIRY_SECS: u32 = 3600;

/// The largest amount a single payment may carry, in millisatoshis.
pub const MAX_PAYMENT_AMOUNT_MSAT: u64 = 4294967000;

/// The expiry of an invoice.
pub fn invoice_expiry(expiry: Option<u32>) -> (r: u32)
    ensures
        r == (match expiry {
            Some(e) => e,
            None => DEFAULT_INVOICE_EXPIRY_SECS,
        }),
{
    match expiry {
        Some(e) => e,
        None => DEFAULT_INVOICE_EXPIRY_SECS,
    }
}

/// The store key of a payment's preimage: the hex of the payment hash.
pub open spec fn preimage_key_view(payment_hash: Seq<u8>) -> Seq<char> {
    decode_utf8(hex_encoding(payment_hash))
}

/// The store key under which an invoice's preimage is kept: the hex of its payment hash,
/// which is the SHA-256 digest of the preimage.
pub fn preimage_key(preimage: &[u8]) -> (r: String)
    ensures
        r@ == preimage_key_view(sha256_digest(preimage@)),
{
    let payment_hash = sha256(preimage);
    let r = hex(payment_hash.as_slice());
    proof {
        encode_utf8_decode_utf8(r@);
    }
    r
}

/// The store key that a claimable payment's preimage is looked up under.
pub fn claim_key(payment_hash: &[u8]) -> (r: String)
    ensures
        r@ == preimage_key_view(payment_hash@),
{
    let r = hex(payment_hash);
    proof {
        encode_utf8_decode_utf8(r@);
    }
    r
}

/// A claim only ever finds the preimage stored for its own payment hash: different payment
/// hashes are looked up under different store keys.
pub proof fn lemma_preimage_keys_distinct(h1: Seq<u8>, h2: Seq<u8>)
    requires
        h1 != h2,
    ensures
        preimage_key_view(h1) != preimage_key_view(h2),
{
    lemma_hex_encoding_facts(h1);
    lemma_hex_encoding_facts(h2);
    lemma_ascii_valid_utf8(hex_encoding(h1));
    lemma_ascii_valid_utf8(hex_encoding(h2));
    decode_utf8_encode_utf8(hex_encoding(h1));
    decode_utf8_encode_utf8(hex_encoding(h2));
    if preimage_key_view(h1) == preimage_key_view(h2) {
        lemma_hex_injective(h1, h2);
    }
}

/// A balance that waits to be swept on chain after a channel closed.
pub enum PendingSweepBalance {
    PendingBroadcast { amount_satoshis: u64 },
    BroadcastAwaitingConfirmation { amount_satoshis: u64 },
    AwaitingThresholdConfirmations { amount_satoshis: u64 },
}

pub open spec fn balance_amount(b: PendingSweepBalance) -> u64 {
    match b {
        PendingSweepBalance::PendingBroadcast { amount_satoshis } => amount_satoshis,
        PendingSweepBalance::BroadcastAwaitingConfirmation { amount_satoshis } => amount_satoshis,
        PendingSweepBalance::AwaitingThresholdConfirmations { amount_satoshis } => amount_satoshis,
    }
}

/// The amount of a balance that waits to be swept.
pub fn get_balance(balance: &PendingSweepBalance) -> (r: u64)
    ensures
        r == balance_amount(*balance),
{
    match balance {
        PendingSweepBalance::PendingBroadcast { amount_satoshis } => *amount_satoshis,
        PendingSweepBalance::BroadcastAwaitingConfirmation { amount_satoshis } => *amount_satoshis,
        PendingSweepBalance::AwaitingThresholdConfirmations { amount_satoshis } => *amount_satoshis,
    }
}

/// The sum of the balances that wait to be swept.
pub open spec fn pending_total(bs: Seq<PendingSweepBalance>) -> nat
    decreases bs.len(),
{
    if bs.len() == 0 {
        0
    } else {
        pending_total(bs.drop_last()) + balance_amount(bs.last()) as nat
    }
}

proof fn lemma_pending_total_prefix(bs: Seq<PendingSweepBalance>, k: int)
    requires
        0 <= k <= bs.len(),
    ensures
        pending_total(bs.subrange(0, k)) <= pending_total(bs),
    decreases bs.len(),
{
    if k < bs.len() {
        lemma_pending_total_prefix(bs.drop_last(), k);
        assert(bs.drop_last().subrange(0, k) =~= bs.subrange(0, k));
    } else {
        assert(bs.subrange(0, k) =~= bs);
    }
}

/// The sum, in satoshis, of the balances that wait to be swept; none when it overflows.
pub fn pending_onchain_balance_sats(balances: &Vec<PendingSweepBalance>) -> (r: Option<u64>)
    ensures
        pending_total(balances@) <= u64::MAX ==> r == Some(pending_total(balances@) as u64),
        pending_total(balances@) > u64::MAX ==> r is None,
{
    let mut total: u64 = 0;
    let mut i: usize = 0;
    assert(balances@.subrange(0, 0) =~= Seq::<PendingSweepBalance>::empty());
    while i < balances.len()
        invariant
            i <= balances@.len(),
            total == pending_total(balances@.subrange(0, i as int)),
        decreases balances@.len() - i,
    {
        let amount = get_balance(&balances[i]);
        let ghost p = balances@.subrange(0, i + 1);
        assert(p.drop_last() =~= balances@.subrange(0, i as int));
        match total.checked_add(amount) {
            Some(t) => total = t,
            None => {
                proof {
                    lemma_pending_total_prefix(balances@, i + 1);
                }
                return None;
            },
        }
        i = i + 1;
    }
    assert(balances@.subrange(0, i as int) =~= balances@);
    Some(total)
}

/// An amount in satoshis as millisatoshis; none when it overflows.
pub fn sats_to_msat(sats: u64) -> (r: Option<u64>)
    ensures
        sats * 1000 <= u64::MAX ==> r == Some((sats * 1000) as u64),
        sats * 1000 > u64::MAX ==> r is None,
{
    sats.checked_mul(1000)
}

/// The funding output of a channel.
pub struct OutPoint {
    pub txid: String,
    pub vout: u32,
}

/// What the node reports of one channel.
pub struct ChannelDetails {
    pub user_channel_id: u128,
    pub counterparty_node_id: String,
    pub funding_txo: Option<OutPoint>,
    pub short_channel_id: Option<u64>,
    pub outbound_scid_alias: Option<u64>,
    pub inbound_scid_alias: Option<u64>,
    pub is_channel_ready: bool,
    pub is_usable: bool,
    pub outbound_capacity_msat: u64,
    pub inbound_capacity_msat: u64,
    pub unspendable_punishment_reserve: Option<u64>,
    pub inbound_htlc_maximum_msat: Option<u64>,
}

/// The state of a channel as the SDK shows it.
#[derive(Debug, Clone, Copy, PartialEq, Eq, Structural)]
pub enum ChannelState {
    PendingOpen,
    Opened,
    PendingClose,
    Closed,
}

/// A channel as the SDK shows it.
pub struct Channel {
    pub funding_txid: String,
    pub short_channel_id: Option<String>,
    pub state: ChannelState,
    pub spendable_msat: u64,
    pub local_balance_msat: u64,
    pub receivable_msat: u64,
    pub closed_at: Option<u64>,
    pub funding_outnum: Option<u32>,
    pub alias_local: Option<String>,
    pub alias_remote: Option<String>,
    pub closing_txid: Option<String>,
}

/// The decimal writing of a short channel id.
pub fn format_scid(id: u64) -> (r: String)
    ensures
        encode_utf8(r@) == decimal(id as nat),
{
    decimal_string(id)
}

/// `s` is the decimal writing of the short channel id `id`, if there is one.
pub open spec fn scid_text(s: Option<String>, id: Option<u64>) -> bool {
    match (s, id) {
        (Some(t), Some(n)) => encode_utf8(t@) == decimal(n as nat),
        (None, None) => true,
        _ => false,
    }
}

fn format_opt_scid(id: Option<u64>) -> (r: Option<String>)
    ensures
        scid_text(r, id),
{
    match id {
        Some(n) => Some(format_scid(n)),
        None => None,
    }
}

/// The balance that the SDK shows as this side's: the outbound capacity plus the reserve
/// that cannot be spent.
pub open spec fn local_balance(channel: ChannelDetails) -> int {
    channel.outbound_capacity_msat + match channel.unspendable_punishment_reserve {
        Some(r) => r as int,
        None => 0,
    }
}

/// A channel as the SDK shows it; none for a channel without a funding output.
pub fn map_channel(channel: ChannelDetails) -> (r: Option<Channel>)
    requires
        channel.funding_txo is Some ==> local_balance(channel) <= u64::MAX,
    ensures
        match channel.funding_txo {
            None => r is None,
            Some(txo) => match r {
                Some(c) => {
                    &&& c.funding_txid@ == txo.txid@
                    &&& c.funding_outnum == Some(txo.vout)
                    &&& scid_text(c.short_channel_id, channel.short_channel_id)
                    &&& c.state == (if channel.is_channel_ready {
                        ChannelState::Opened
                    } else {
                        ChannelState::PendingOpen
                    })
                    &&& c.spendable_msat == channel.outbound_capacity_msat
                    &&& c.local_balance_msat == local_balance(channel)
                    &&& c.receivable_msat == channel.inbound_capacity_msat
                    &&& c.closed_at is None
                    &&& c.closing_txid is None
                    &&& scid_text(c.alias_local, channel.outbound_scid_alias)
                    &&& scid_text(c.alias_remote, channel.inbound_scid_alias)
                },
                None => false,
            },
        },
{
    let ChannelDetails {
        user_channel_id: _,
        counterparty_node_id: _,
        funding_txo,
        short_channel_id,
        outbound_scid_alias,
        inbound_scid_alias,
        is_channel_ready,
        is_usable: _,
        outbound_capacity_msat,
        inbound_capacity_msat,
        unspendable_punishment_reserve,
        inbound_htlc_maximum_msat: _,
    } = channel;
    let txo = match funding_txo {
        Some(t) => t,
        None => return None,
    };
    let state = if is_channel_ready {
        ChannelState::Opened
    } else {
        ChannelState::PendingOpen
    };
    let reserve = match unspendable_punishment_reserve {
        Some(r) => r,
        None => 0,
    };
    Some(
        Channel {
            funding_txid: txo.txid,
            short_channel_id: format_opt_scid(short_channel_id),
            state,
            spendable_msat: outbound_capacity_msat,
            local_balance_msat: outbound_capacity_msat + reserve,
            receivable_msat: inbound_capacity_msat,
            closed_at: None,
            funding_outnum: Some(txo.vout),
            alias_local: format_opt_scid(outbound_scid_alias),
            alias_remote: format_opt_scid(inbound_scid_alias),
            closing_txid: None,
        },
    )
}

/// The sum of the largest inbound HTLCs of the channels that report one.
pub open spec fn inbound_htlc_total(cs: Seq<ChannelDetails>) -> nat
    decreases cs.len(),
{
    if cs.len() == 0 {
        0
    } else {
        inbound_htlc_total(cs.drop_last()) + match cs.last().inbound_htlc_maximum_msat {
            Some(m) => m as nat,
            None => 0,
        }
    }
}

proof fn lemma_inbound_htlc_total_prefix(cs: Seq<ChannelDetails>, k: int)
    requires
        0 <= k <= cs.len(),
    ensures
        inbound_htlc_total(cs.subrange(0, k)) <= inbound_htlc_total(cs),
    decreases cs.len(),
{
    if k < cs.len() {
        lemma_inbound_htlc_total_prefix(cs.drop_last(), k);
        assert(cs.drop_last().subrange(0, k) =~= cs.subrange(0, k));
    } else {
        assert(cs.subrange(0, k) =~= cs);
    }
}

/// The largest single payment the channels can receive: the sum of their largest inbound
/// HTLCs; none when it overflows.
pub fn max_receivable_single_payment_msat(channels: &Vec<ChannelDetails>) -> (r: Option<u64>)
    ensures
        inbound_htlc_total(channels@) <= u64::MAX ==> r == Some(inbound_htlc_total(channels@) as u64),
        inbound_htlc_total(channels@) > u64::MAX ==> r is None,
{
    let mut total: u64 = 0;
    let mut i: usize = 0;
    assert(channels@.subrange(0, 0) =~= Seq::<ChannelDetails>::empty());
    while i < channels.len()
        invariant
            i <= channels@.len(),
            total == inbound_htlc_total(channels@.subrange(0, i as int)),
        decreases channels@.len() - i,
    {
        let amount = match channels[i].inbound_htlc_maximum_msat {
            Some(m) => m,
            None => 0,
        };
        let ghost p = channels@.subrange(0, i + 1);
        assert(p.drop_last() =~= channels@.subrange(0, i as int));
        match total.checked_add(amount) {
            Some(t) => total = t,
            None => {
                proof {
                    lemma_inbound_htlc_total_prefix(channels@, i + 1);
                }
                return None;
            },
        }
        i = i + 1;
    }
    assert(channels@.subrange(0, i as int) =~= channels@);
    Some(total)
}

/// The channels that a close of the peer's channels closes: those with the peer that are
/// ready, by their user channel id, in order.
pub open spec fn closable(cs: Seq<ChannelDetails>, node_id: Seq<char>) -> Seq<u128>
    decreases cs.len(),
{
    if cs.len() == 0 {
        seq![]
    } else {
        let rest = closable(cs.drop_last(), node_id);
        if cs.last().counterparty_node_id@ == node_id && cs.last().is_channel_ready {
            rest.push(cs.last().user_channel_id)
        } else {
            rest
        }
    }
}

/// A close of the peer `node_id`'s channels closes `c`: it is with that peer and ready.
pub open spec fn closes(c: ChannelDetails, node_id: Seq<char>) -> bool {
    c.counterparty_node_id@ == node_id && c.is_channel_ready
}

/// `r` lists the channels of `cs` at the positions `at`, by user channel id: each position
/// holds a channel that the close closes, the positions rise strictly, and every channel
/// that the close closes is at one of them.
pub open spec fn lists_closed(cs: Seq<ChannelDetails>, node_id: Seq<char>, r: Seq<u128>, at: Seq<int>) -> bool {
    &&& at.len() == r.len()
    &&& forall|j: int| 0 <= j < at.len() ==> 0 <= #[trigger] at[j] < cs.len()
    &&& forall|j: int| 0 <= j < at.len() ==> closes(cs[#[trigger] at[j]], node_id)
    &&& forall|j: int| 0 <= j < at.len() ==> r[j] == cs[#[trigger] at[j]].user_channel_id
    &&& forall|j: int, k: int| 0 <= j < k < at.len() ==> #[trigger] at[j] < #[trigger] at[k]
    &&& forall|i: int| 0 <= i < cs.len() && #[trigger] closes(cs[i], node_id) ==> exists|j: int|
        0 <= j < at.len() && at[j] == i
}

/// A close of a peer's channels closes exactly its ready channels with that peer, each
/// once, in the order the node lists them: the ids it gives are those of the channels at
/// strictly rising positions, each of them ready and with the peer, and no ready channel
/// with the peer is left out.
pub proof fn lemma_closes_every_ready_channel_of_the_peer(cs: Seq<ChannelDetails>, node_id: Seq<char>) -> (at: Seq<int>)
    ensures
        lists_closed(cs, node_id, closable(cs, node_id), at),
    decreases cs.len(),
{
    if cs.len() == 0 {
        seq![]
    } else {
        let init = cs.drop_last();
        let at0 = lemma_closes_every_ready_channel_of_the_peer(init, node_id);
        let r0 = closable(init, node_id);
        let n = cs.len() - 1;
        assert forall|j: int| 0 <= j < at0.len() implies cs[at0[j]] == init[at0[j]] by {}
        if closes(cs.last(), node_id) {
            let at = at0.push(n);
            let r = r0.push(cs.last().user_channel_id);
            assert(closable(cs, node_id) == r);
            assert forall|j: int| 0 <= j < at.len() implies 0 <= #[trigger] at[j] < cs.len() by {
                if j < at0.len() {
                    assert(at[j] == at0[j]);
                }
            }
            assert forall|j: int| 0 <= j < at.len() implies closes(cs[#[trigger] at[j]], node_id) by {
                if j < at0.len() {
                    assert(at[j] == at0[j]);
                }
            }
            assert forall|j: int| 0 <= j < at.len() implies r[j] == cs[#[trigger] at[j]].user_channel_id by {
                if j < at0.len() {
                    assert(at[j] == at0[j]);
                }
            }
            assert forall|j: int, k: int| 0 <= j < k < at.len() implies #[trigger] at[j] < #[trigger] at[k] by {
                assert(at[j] == at0[j]);
                if k < at0.len() {
                    assert(at[k] == at0[k]);
                }
            }
            assert forall|i: int| 0 <= i < cs.len() && #[trigger] closes(cs[i], node_id) implies exists|j: int|
                0 <= j < at.len() && at[j] == i by {
                if i < n {
                    assert(cs[i] == init[i]);
                    assert(closes(init[i], node_id));
                    let j = choose|j: int| 0 <= j < at0.len() && at0[j] == i;
                    assert(at[j] == i);
                } else {
                    assert(at[at0.len() as int] == i);
                }
            }
            at
        } else {
            assert(closable(cs, node_id) == r0);
            assert forall|i: int| 0 <= i < cs.len() && #[trigger] closes(cs[i], node_id) implies exists|j: int|
                0 <= j < at0.len() && at0[j] == i by {
                assert(i < n);
                assert(cs[i] == init[i]);
                assert(closes(init[i], node_id));
            }
            at0
        }
    }
}

/// The user channel ids of the ready channels with the peer `node_id`.
pub fn channels_to_close(channels: &Vec<ChannelDetails>, node_id: &str) -> (r: Vec<u128>)
    ensures
        r@ == closable(channels@, node_id@),
        exists|at: Seq<int>| lists_closed(channels@, node_id@, r@, at),
{
    let node = node_id.to_string();
    let mut out: Vec<u128> = Vec::new();
    let mut i: usize = 0;
    assert(channels@.subrange(0, 0) =~= Seq::<ChannelDetails>::empty());
    while i < channels.len()
        invariant
            i <= channels@.len(),
            out@ == closable(channels@.subrange(0, i as int), node_id@),
            node@ == node_id@,
        decreases channels@.len() - i,
    {
        let c = &channels[i];
        let ghost p = channels@.subrange(0, i + 1);
        assert(p.drop_last() =~= channels@.subrange(0, i as int));
        if c.counterparty_node_id == node && c.is_channel_ready {
            out.push(c.user_channel_id);
        }
        i = i + 1;
    }
    assert(channels@.subrange(0, i as int) =~= channels@);
    proof {
        let at = lemma_closes_every_ready_channel_of_the_peer(channels@, node_id@);
        assert(lists_closed(channels@, node_id@, out@, at));
    }
    out
}

/// A peer of the node, and whether it is connected.
pub struct PeerInfo {
    pub node_id: String,
    pub is_connected: bool,
}

/// The ids of the connected peers, in order.
pub open spec fn connected(ps: Seq<PeerInfo>) -> Seq<Seq<char>>
    decreases ps.len(),
{
    if ps.len() == 0 {
        seq![]
    } else {
        let rest = connected(ps.drop_last());
        if ps.last().is_connected {
            rest.push(ps.last().node_id@)
        } else {
            rest
        }
    }
}

/// The ids of the connected peers, in order.
pub fn connected_peers(peers: Vec<PeerInfo>) -> (r: Vec<String>)
    ensures
        r@.map_values(|s: String| s@) == connected(peers@),
{
    let ghost all = peers@;
    let mut out: Vec<String> = Vec::new();
    let mut i: usize = 0;
    assert(all.subrange(0, 0) =~= Seq::<PeerInfo>::empty());
    while i < peers.len()
        invariant
            i <= all.len(),
            peers@ == all,
            out@.map_values(|s: String| s@) == connected(all.subrange(0, i as int)),
        decreases all.len() - i,
    {
        let p = &peers[i];
        let ghost q = all.subrange(0, i + 1);
        assert(q.drop_last() =~= all.subrange(0, i as int));
        if p.is_connected {
            let ghost before = out@;
            out.push(p.node_id.clone());
            assert(out@.map_values(|s: String| s@) =~= before.map_values(|s: String| s@).push(
                all[i as int].node_id@,
            ));
        }
        i = i + 1;
    }
    assert(all.subrange(0, i as int) =~= all);
    out
}

/// The node's state as the SDK shows it.
pub struct NodeState {
    pub id: String,
    pub block_height: u32,
    pub channels_balance_msat: u64,
    pub onchain_balance_msat: u64,
    pub pending_onchain_balance_msat: u64,
    pub max_payable_msat: u64,
    pub max_receivable_msat: u64,
    pub max_single_payment_amount_msat: u64,
    pub max_chan_reserve_msats: u64,
    pub connected_peers: Vec<String>,
    pub max_receivable_single_payment_amount_msat: u64,
    pub total_inbound_liquidity_msats: u64,
}

/// The node's state from its id, best block, balances (in satoshis), peers and channels;
/// none when an amount overflows.
pub fn node_state(
    id: String,
    block_height: u32,
    total_lightning_balance_sats: u64,
    total_onchain_balance_sats: u64,
    pending_balances: &Vec<PendingSweepBalance>,
    peers: Vec<PeerInfo>,
    channels: &Vec<ChannelDetails>,
) -> (r: Option<NodeState>)
    ensures
        ({
            let fits = total_lightning_balance_sats * 1000 <= u64::MAX
                && total_onchain_balance_sats * 1000 <= u64::MAX
                && pending_total(pending_balances@) * 1000 <= u64::MAX
                && inbound_htlc_total(channels@) <= u64::MAX;
            &&& !fits ==> r is None
            &&& fits ==> match r {
                Some(s) => {
                    &&& s.id@ == id@
                    &&& s.block_height == block_height
                    &&& s.channels_balance_msat == total_lightning_balance_sats * 1000
                    &&& s.onchain_balance_msat == total_onchain_balance_sats * 1000
                    &&& s.pending_onchain_balance_msat == pending_total(pending_balances@) * 1000
                    &&& s.max_payable_msat == 0
                    &&& s.max_receivable_msat == MAX_PAYMENT_AMOUNT_MSAT
                    &&& s.max_single_payment_amount_msat == MAX_PAYMENT_AMOUNT_MSAT
                    &&& s.max_chan_reserve_msats == 0
                    &&& s.connected_peers@.map_values(|p: String| p@) == connected(peers@)
                    &&& s.max_receivable_single_payment_amount_msat == inbound_htlc_total(channels@)
                    &&& s.total_inbound_liquidity_msats == 0
                },
                None => false,
            }
        }),
{
    let lightning = sats_to_msat(total_lightning_balance_sats);
    let onchain = sats_to_msat(total_onchain_balance_sats);
    let pending_sats = pending_onchain_balance_sats(pending_balances);
    let max_single = max_receivable_single_payment_msat(channels);
    if lightning.is_none() || onchain.is_none() || pending_sats.is_none() || max_single.is_none() {
        return None;
    }
    let pending = sats_to_msat(pending_sats.unwrap());
    if pending.is_none() {
        return None;
    }
    Some(
        NodeState {
            id,
            block_height,
            channels_balance_msat: lightning.unwrap(),
            onchain_balance_msat: onchain.unwrap(),
            pending_onchain_balance_msat: pending.unwrap(),
            max_payable_msat: 0,
            max_receivable_msat: MAX_PAYMENT_AMOUNT_MSAT,
            max_single_payment_amount_msat: MAX_PAYMENT_AMOUNT_MSAT,
            max_chan_reserve_msats: 0,
            connected_peers: connected_peers(peers),
            max_receivable_single_payment_amount_msat: max_single.unwrap(),
            total_inbound_liquidity_msats: 0,
        },
    )
}

} // verus!
