use lava_relay::cli::Creds;
use lava_relay::crypto::signing_key_from_hex;
use lava_relay::dispatch::{build_relay_private_data, prepare_relay};
use lava_relay::relay_session::generate_content_hash;
use lava_relay::session_context::ProviderSession;

const KEY_ONE_HEX: &str = "0000000000000000000000000000000000000000000000000000000000000001";

#[test]
fn baseline_private_data_wraps_the_payload() {
    let d = build_relay_private_data(vec![1, 2, 3]);
    assert_eq!(d.connection_type, "POST");
    assert_eq!(d.api_url, "");
    assert_eq!(d.data, vec![1, 2, 3]);
    assert_eq!(d.request_block, -1);
    assert_eq!(d.api_interface, "jsonrpc");
    assert!(d.salt.is_empty());
    assert!(d.metadata.is_empty());
    assert_eq!(d.addon, "");
    assert!(d.extensions.is_empty());
    assert_eq!(d.seen_block, 0);
}

#[test]
fn prepared_relay_carries_the_session_and_a_signature() {
    let key = signing_key_from_hex(KEY_ONE_HEX).ok().unwrap();
    let session = ProviderSession { session_id: 77, cu_sum: 20, relay_num: 3 };
    let payload = b"{\"method\":\"eth_blockNumber\"}".to_vec();
    let signed = prepare_relay(payload.clone(), "lava@prov".to_string(), &session, 42, &key)
        .ok()
        .unwrap();

    let rs = &signed.relay_session;
    assert_eq!(rs.spec_id, "ETH1");
    assert_eq!(rs.lava_chain_id, "lava-testnet-2");
    assert_eq!(rs.provider, "lava@prov");
    assert_eq!(rs.session_id, 77);
    assert_eq!(rs.cu_sum, 20);
    assert_eq!(rs.relay_num, 3);
    assert_eq!(rs.epoch, 42);
    assert!(rs.qos_report.is_none());
    assert!(rs.unresponsive_providers.is_empty());
    assert!(rs.badge.is_none());
    assert!(rs.qos_excellence_report.is_none());
    assert_eq!(rs.content_hash, generate_content_hash(&signed.relay_data));
    assert_eq!(rs.sig.len(), 65);
    assert!(rs.sig[0] >= 27 && rs.sig[0] <= 30);
    assert_eq!(signed.relay_data.data, payload);
}

#[test]
fn prepared_relay_signature_is_deterministic_per_input() {
    let key = signing_key_from_hex(KEY_ONE_HEX).ok().unwrap();
    let session = ProviderSession { session_id: 1, cu_sum: 0, relay_num: 1 };
    let a = prepare_relay(b"x".to_vec(), "lava@p".to_string(), &session, 1, &key).ok().unwrap();
    let b = prepare_relay(b"x".to_vec(), "lava@p".to_string(), &session, 1, &key).ok().unwrap();
    assert_eq!(a.relay_session.sig, b.relay_session.sig);
    let c = prepare_relay(b"y".to_vec(), "lava@p".to_string(), &session, 1, &key).ok().unwrap();
    assert_ne!(a.relay_session.sig, c.relay_session.sig);
}

#[test]
fn creds_normalization_strips_an_optional_prefix() {
    let mut with_prefix = Creds { secret_key: "0xabcd".to_string() };
    with_prefix.normalize();
    assert_eq!(with_prefix.secret_key, "abcd");

    let mut bare = Creds { secret_key: "abcd".to_string() };
    bare.normalize();
    assert_eq!(bare.secret_key, "abcd");

    let mut short = Creds { secret_key: "0".to_string() };
    short.normalize();
    assert_eq!(short.secret_key, "0");
}
