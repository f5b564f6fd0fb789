use breez_ldk::backup_transport::{backup_key, backup_state_from, backup_store_id, push_version, pushed_generation, seed_hash, store_id};
use breez_ldk::config::Config;
use breez_ldk::logger::{to_log_level, LdkLogLevel, LogLevel};
use breez_ldk::node_api::{
    channels_to_close, claim_key, connected_peers, format_scid, from_ldk_network, get_balance, invoice_expiry,
    ldk_store_id, map_channel, max_receivable_single_payment_msat, node_config, node_state, pending_onchain_balance_sats,
    preimage_key, sats_to_msat, to_ldk_network, ChannelDetails, ChannelState, LdkNetwork, Network, OutPoint, PeerInfo,
    PendingSweepBalance, MAX_PAYMENT_AMOUNT_MSAT,
};
use breez_ldk::text::{decimal_string, hex, hex_decode};

const EMPTY_SHA256: &str = "e3b0c44298fc1c149afbf4c8996fb92427ae41e4649b934ca495991b7852b855";

#[test]
fn configs_hold_the_endpoints() {
    let c = Config::mainnet();
    assert_eq!(c.esplora_url, "https://blockstream.info/api");
    assert_eq!(c.rgs_url, "https://rapidsync.lightningdevkit.org/snapshot/v2");
    assert_eq!(c.vss_url, "http://localhost:4080/vss");
    assert_eq!(c.lsps2_id, "038a9e56512ec98da2b5789761f7af8f280baf98a09282360cd6ff1381b5e889bf");
    assert_eq!(c.lsps2_address, "64.23.162.51:9735");
    let c = Config::regtest();
    assert_eq!(c.esplora_url, "http://localhost:30000");
    assert_eq!(c.rgs_url, "http://localhost:8011/v2");
    assert_eq!(c.vss_url, "http://localhost:3080/vss");
    assert_eq!(c.lsps2_id, "02b49b94e068e05c04c2ac98e096a06202d04920daec25d82f7898e21901f15d81");
    assert_eq!(c.lsps2_address, "localhost:9735");
    assert_eq!(node_config(Network::Bitcoin).vss_url, "http://localhost:4080/vss");
    assert_eq!(node_config(Network::Regtest).vss_url, "http://localhost:3080/vss");
}

#[test]
fn store_ids_are_named_after_the_seed_hash() {
    assert_eq!(seed_hash(b""), EMPTY_SHA256);
    assert_eq!(backup_store_id(b""), format!("{EMPTY_SHA256}/backups"));
    assert_eq!(ldk_store_id(b""), format!("{EMPTY_SHA256}/ldk_node"));
    assert_eq!(seed_hash(b"abc"), "ba7816bf8f01cfea414140de5dae2223b00361a396177a9cb410ff61f20015ad");
    assert_eq!(store_id("h", "n"), "h/n");
    assert_eq!(backup_key(), "backup");
}

#[test]
fn preimage_is_found_by_payment_hash() {
    let preimage = [0u8; 32];
    let key = preimage_key(&preimage);
    assert_eq!(key, "66687aadf862bd776c8fc18b8e9f8e20089714856ee233b3902a591d0d5f2925");
    let hash = [
        0x66, 0x68, 0x7a, 0xad, 0xf8, 0x62, 0xbd, 0x77, 0x6c, 0x8f, 0xc1, 0x8b, 0x8e, 0x9f, 0x8e, 0x20, 0x08, 0x97,
        0x14, 0x85, 0x6e, 0xe2, 0x33, 0xb3, 0x90, 0x2a, 0x59, 0x1d, 0x0d, 0x5f, 0x29, 0x25,
    ];
    assert_eq!(claim_key(&hash), key);
}

#[test]
fn backup_generations() {
    let b = backup_state_from(Some((b"data".to_vec(), 7))).unwrap();
    assert_eq!((b.generation, b.data.as_slice()), (7, &b"data"[..]));
    assert!(backup_state_from(None).is_none());
    assert_eq!(backup_state_from(Some((Vec::new(), -1))).unwrap().generation, u64::MAX);
    assert_eq!(push_version(None), 0);
    assert_eq!(push_version(Some(4)), 4);
    assert_eq!(pushed_generation(push_version(Some(4))), 5);
    assert_eq!(push_version(Some(u64::MAX)), -1);
}

#[test]
fn log_levels() {
    assert_eq!(to_log_level(LdkLogLevel::Gossip), LogLevel::Trace);
    assert_eq!(to_log_level(LdkLogLevel::Trace), LogLevel::Trace);
    assert_eq!(to_log_level(LdkLogLevel::Debug), LogLevel::Debug);
    assert_eq!(to_log_level(LdkLogLevel::Info), LogLevel::Info);
    assert_eq!(to_log_level(LdkLogLevel::Warn), LogLevel::Warn);
    assert_eq!(to_log_level(LdkLogLevel::Error), LogLevel::Error);
}

#[test]
fn networks() {
    for n in [Network::Bitcoin, Network::Testnet, Network::Signet, Network::Regtest] {
        assert_eq!(from_ldk_network(to_ldk_network(n)), n);
    }
    assert_eq!(from_ldk_network(LdkNetwork::Testnet4), Network::Testnet);
    assert_eq!(to_ldk_network(Network::Signet), LdkNetwork::Signet);
}

#[test]
fn text_helpers() {
    assert_eq!(hex(&[0x00, 0x0f, 0xa0, 0xff]), "000fa0ff");
    assert_eq!(hex(&[]), "");
    assert_eq!(decimal_string(0), "0");
    assert_eq!(decimal_string(u64::MAX), "18446744073709551615");
    assert_eq!(format_scid(2531830), "2531830");
    assert_eq!(invoice_expiry(None), 3600);
    assert_eq!(invoice_expiry(Some(60)), 60);
}

fn channel(ready: bool, funded: bool, peer: &str, id: u128) -> ChannelDetails {
    ChannelDetails {
        user_channel_id: id,
        counterparty_node_id: peer.to_string(),
        funding_txo: if funded { Some(OutPoint { txid: "ab".repeat(32), vout: 1 }) } else { None },
        short_channel_id: Some(42),
        outbound_scid_alias: None,
        inbound_scid_alias: Some(7),
        is_channel_ready: ready,
        is_usable: ready,
        outbound_capacity_msat: 1000,
        inbound_capacity_msat: 2000,
        unspendable_punishment_reserve: Some(5),
        inbound_htlc_maximum_msat: Some(300),
    }
}

#[test]
fn channels_are_mapped() {
    let c = map_channel(channel(true, true, "p", 1)).unwrap();
    assert_eq!(c.funding_txid, "ab".repeat(32));
    assert_eq!(c.funding_outnum, Some(1));
    assert_eq!(c.short_channel_id.as_deref(), Some("42"));
    assert_eq!(c.state, ChannelState::Opened);
    assert_eq!((c.spendable_msat, c.local_balance_msat, c.receivable_msat), (1000, 1005, 2000));
    assert_eq!(c.alias_local, None);
    assert_eq!(c.alias_remote.as_deref(), Some("7"));
    assert!(c.closed_at.is_none() && c.closing_txid.is_none());
    assert_eq!(map_channel(channel(false, true, "p", 1)).unwrap().state, ChannelState::PendingOpen);
    assert!(map_channel(channel(true, false, "p", 1)).is_none());
}

#[test]
fn channel_sums_and_closing() {
    let cs = vec![channel(true, true, "p", 1), channel(false, true, "p", 2), channel(true, true, "q", 3)];
    assert_eq!(max_receivable_single_payment_msat(&cs), Some(900));
    assert_eq!(channels_to_close(&cs, "p"), vec![1]);
    assert_eq!(channels_to_close(&cs, "q"), vec![3]);
    assert!(channels_to_close(&cs, "r").is_empty());
    let mut big = channel(true, true, "p", 4);
    big.inbound_htlc_maximum_msat = Some(u64::MAX);
    assert_eq!(max_receivable_single_payment_msat(&vec![channel(true, true, "p", 1), big]), None);
}

#[test]
fn balances_are_summed() {
    let bs = vec![
        PendingSweepBalance::PendingBroadcast { amount_satoshis: 1 },
        PendingSweepBalance::BroadcastAwaitingConfirmation { amount_satoshis: 20 },
        PendingSweepBalance::AwaitingThresholdConfirmations { amount_satoshis: 300 },
    ];
    assert_eq!(get_balance(&bs[2]), 300);
    assert_eq!(pending_onchain_balance_sats(&bs), Some(321));
    assert_eq!(pending_onchain_balance_sats(&Vec::new()), Some(0));
    let over = vec![
        PendingSweepBalance::PendingBroadcast { amount_satoshis: u64::MAX },
        PendingSweepBalance::PendingBroadcast { amount_satoshis: 1 },
    ];
    assert_eq!(pending_onchain_balance_sats(&over), None);
    assert_eq!(sats_to_msat(3), Some(3000));
    assert_eq!(sats_to_msat(u64::MAX / 100), None);
}

#[test]
fn node_state_is_assembled() {
    let bs = vec![PendingSweepBalance::PendingBroadcast { amount_satoshis: 2 }];
    let peers = vec![
        PeerInfo { node_id: "x".to_string(), is_connected: true },
        PeerInfo { node_id: "y".to_string(), is_connected: false },
        PeerInfo { node_id: "z".to_string(), is_connected: true },
    ];
    let cs = vec![channel(true, true, "p", 1)];
    let s = node_state("me".to_string(), 800, 5, 6, &bs, peers, &cs).unwrap();
    assert_eq!(s.id, "me");
    assert_eq!(s.block_height, 800);
    assert_eq!((s.channels_balance_msat, s.onchain_balance_msat, s.pending_onchain_balance_msat), (5000, 6000, 2000));
    assert_eq!(s.connected_peers, vec!["x".to_string(), "z".to_string()]);
    assert_eq!(s.max_receivable_msat, MAX_PAYMENT_AMOUNT_MSAT);
    assert_eq!(s.max_single_payment_amount_msat, 4294967000);
    assert_eq!(s.max_receivable_single_payment_amount_msat, 300);
    assert_eq!((s.max_payable_msat, s.max_chan_reserve_msats, s.total_inbound_liquidity_msats), (0, 0, 0));
    assert!(node_state("me".to_string(), 1, u64::MAX, 0, &Vec::new(), Vec::new(), &Vec::new()).is_none());
    let peers = vec![PeerInfo { node_id: "a".to_string(), is_connected: false }];
    assert!(connected_peers(peers).is_empty());
}

#[test]
fn pushed_generation_is_what_a_pull_reports() {
    let version = push_version(Some(41));
    let generation = pushed_generation(version);
    assert_eq!(generation, 42);
    let pulled = backup_state_from(Some((b"backup".to_vec(), version + 1))).unwrap();
    assert_eq!(pulled.generation, generation);
}

#[test]
fn different_payment_hashes_have_different_preimage_keys() {
    assert_ne!(claim_key(&[0x01, 0x02]), claim_key(&[0x01, 0x03]));
    assert_ne!(claim_key(&[0x12]), claim_key(&[0x01, 0x02]));
    assert_ne!(preimage_key(&[1u8; 32]), preimage_key(&[2u8; 32]));
}

#[test]
fn hex_decoding_reads_back_hex_writing() {
    assert_eq!(hex_decode("00ff10ab"), Some(vec![0x00, 0xff, 0x10, 0xab]));
    assert_eq!(hex_decode("ABcd"), Some(vec![0xab, 0xcd]));
    assert_eq!(hex_decode(""), Some(Vec::new()));
    assert_eq!(hex_decode("abc"), None);
    assert_eq!(hex_decode("zz"), None);
    assert_eq!(hex_decode("0g"), None);
    let bytes: Vec<u8> = (0u8..=255).collect();
    assert_eq!(hex_decode(&hex(&bytes)), Some(bytes));
}
