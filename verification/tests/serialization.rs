use sha2::Digest;
use lava_relay::relay_session::{
    generate_content_hash, i64_to_string, serialize_key_value, serialize_qos_report,
    serialize_relay_session, serialize_reported_provider, u64_as_i64, u64_to_string, Metadata,
    QualityOfServiceReport, RelayPrivateData, RelaySession, ReportedProvider, Value,
};
use lava_relay::utils::{byte_array_to_string, encode_uint64};

fn base_session() -> RelaySession {
    RelaySession {
        spec_id: "ETH1".to_string(),
        content_hash: vec![0x01, 0x41, 0x0a],
        session_id: 7,
        cu_sum: 5,
        provider: "lava@prov".to_string(),
        relay_num: 2,
        qos_report: Some(QualityOfServiceReport {
            latency: "1".to_string(),
            availability: "2".to_string(),
            sync: "3".to_string(),
        }),
        epoch: 42,
        unresponsive_providers: vec![ReportedProvider {
            address: "bad".to_string(),
            disconnections: 1,
            errors: 0,
            timestamp_s: -5,
        }],
        lava_chain_id: "lava-testnet-2".to_string(),
        sig: vec![],
        badge: None,
        qos_excellence_report: None,
    }
}

#[test]
fn full_descriptor_serializes_byte_exact() {
    let out = serialize_relay_session(&base_session());
    let text = String::from_utf8(out).unwrap();
    assert_eq!(
        text,
        "spec_id:\"ETH1\" content_hash:\"\\001A\\n\" session_id:7 cu_sum:5 \
         provider:\"lava@prov\" relay_num:2 \
         qos_report:<latency:\"1\" availability:\"2\" sync:\"3\"> epoch:42 \
         unresponsive_providers:<address:\"bad\" disconnections:1 errors:0 timestamp_s:-5> \
         lava_chain_id:\"lava-testnet-2\" "
    );
}

#[test]
fn zero_and_empty_fields_are_omitted() {
    let mut s = base_session();
    s.cu_sum = 0;
    s.relay_num = 0;
    s.session_id = 0;
    s.spec_id = String::new();
    s.qos_report = None;
    s.unresponsive_providers = vec![];
    let text = String::from_utf8(serialize_relay_session(&s)).unwrap();
    assert!(!text.contains("cu_sum:"));
    assert!(!text.contains("relay_num:"));
    assert!(!text.contains("session_id:"));
    assert!(!text.contains("spec_id:"));
    assert!(!text.contains("qos_report:"));
    assert!(!text.contains("unresponsive_providers:"));
    assert!(text.contains("epoch:42"));
}

#[test]
fn nonzero_cu_sum_segment_is_present() {
    let text = String::from_utf8(serialize_relay_session(&base_session())).unwrap();
    assert!(text.contains("cu_sum:5 "));
}

#[test]
fn field_key_order_is_fixed_regardless_of_values() {
    let mut other = base_session();
    other.session_id = 909090;
    other.provider = "lava@other".to_string();
    other.epoch = -3;
    other.cu_sum = 123456;
    let keys = |bytes: Vec<u8>| -> Vec<String> {
        let text = String::from_utf8(bytes).unwrap();
        let mut found: Vec<(usize, String)> = Vec::new();
        for key in [
            "spec_id:",
            "content_hash:",
            "session_id:",
            "cu_sum:",
            "provider:",
            "relay_num:",
            "qos_report:",
            "epoch:",
            "unresponsive_providers:",
            "lava_chain_id:",
        ] {
            if let Some(pos) = text.find(key) {
                found.push((pos, key.to_string()));
            }
        }
        found.sort();
        found.into_iter().map(|p| p.1).collect()
    };
    let a = keys(serialize_relay_session(&base_session()));
    let b = keys(serialize_relay_session(&other));
    assert_eq!(a, b);
}

#[test]
fn byte_escaping_matches_the_wire_rules() {
    assert_eq!(byte_array_to_string(&[0x09, 0x0a, 0x0d, 0x5c], false), "\\t\\n\\r\\\\");
    assert_eq!(byte_array_to_string(&[0x41, 0x7e, 0x20], false), "A~ ");
    assert_eq!(byte_array_to_string(&[0x00, 0x07, 0xff], false), "\\000\\007\\377");
    assert_eq!(byte_array_to_string(&[0x22], false), "\"");
    assert_eq!(byte_array_to_string(&[0x22], true), "\\\"");
}

#[test]
fn decimal_renderings_are_exact() {
    assert_eq!(u64_to_string(0), "0");
    assert_eq!(u64_to_string(18446744073709551615), "18446744073709551615");
    assert_eq!(i64_to_string(-12), "-12");
    assert_eq!(i64_to_string(i64::MIN), "-9223372036854775808");
    assert_eq!(u64_as_i64(u64::MAX), -1);
    assert_eq!(u64_as_i64(5), 5);
}

#[test]
fn key_value_segments_render_each_kind() {
    assert_eq!(serialize_key_value("k", &Value::String(String::new())), "");
    assert_eq!(serialize_key_value("k", &Value::Number(0)), "");
    assert_eq!(serialize_key_value("k", &Value::Number(-7)), "k:-7 ");
    assert_eq!(serialize_key_value("k", &Value::String("v".to_string())), "k:\"v\" ");
    assert_eq!(serialize_key_value("k", &Value::Bytes(vec![0x0a])), "k:\"\\n\" ");
    let qos = QualityOfServiceReport {
        latency: "1".to_string(),
        availability: "0.5".to_string(),
        sync: "1".to_string(),
    };
    assert_eq!(serialize_qos_report(&qos), "latency:\"1\" availability:\"0.5\" sync:\"1\"");
    assert_eq!(
        serialize_key_value("q", &Value::QoSReport(qos)),
        "q:<latency:\"1\" availability:\"0.5\" sync:\"1\"> "
    );
    let rp = ReportedProvider {
        address: "a".to_string(),
        disconnections: 2,
        errors: 3,
        timestamp_s: 4,
    };
    assert_eq!(
        serialize_reported_provider(&rp),
        "address:\"a\" disconnections:2 errors:3 timestamp_s:4"
    );
}

#[test]
fn encode_uint64_is_little_endian() {
    assert_eq!(encode_uint64(0x0102030405060708), vec![8, 7, 6, 5, 4, 3, 2, 1]);
    assert_eq!(encode_uint64(0), vec![0; 8]);
    assert_eq!(encode_uint64(u64::MAX), vec![0xff; 8]);
}

fn sample_private_data() -> RelayPrivateData {
    RelayPrivateData {
        connection_type: "CT".to_string(),
        api_url: "URL".to_string(),
        data: vec![1, 2, 3],
        request_block: -1,
        api_interface: "IF".to_string(),
        salt: vec![9],
        metadata: vec![
            Metadata { name: "n1".to_string(), value: "v1".to_string() },
            Metadata { name: "n2".to_string(), value: "v2".to_string() },
        ],
        addon: "AD".to_string(),
        extensions: vec!["e1".to_string(), "e2".to_string()],
        seen_block: 5,
    }
}

#[test]
fn content_hash_is_sha256_of_the_canonical_concatenation() {
    let mut expected: Vec<u8> = Vec::new();
    expected.extend_from_slice(b"n1v1n2v2");
    expected.extend_from_slice(b"e1e2");
    expected.extend_from_slice(b"AD");
    expected.extend_from_slice(b"IF");
    expected.extend_from_slice(b"CT");
    expected.extend_from_slice(b"URL");
    expected.extend_from_slice(&[1, 2, 3]);
    expected.extend_from_slice(&u64::MAX.to_le_bytes());
    expected.extend_from_slice(&5u64.to_le_bytes());
    expected.extend_from_slice(&[9]);
    let digest = sha2::Sha256::digest(&expected).to_vec();
    assert_eq!(generate_content_hash(&sample_private_data()), digest);
}

#[test]
fn content_hash_is_deterministic_and_input_sensitive() {
    let d = sample_private_data();
    let h1 = generate_content_hash(&d);
    let h2 = generate_content_hash(&sample_private_data());
    assert_eq!(h1, h2);
    assert_eq!(h1.len(), 32);
    let mut changed = sample_private_data();
    changed.data[0] ^= 1;
    assert_ne!(generate_content_hash(&changed), h1);
}
