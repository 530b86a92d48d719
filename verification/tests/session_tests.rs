use lava_relay::crypto::signing_key_from_hex;
use lava_relay::pairing::{Provider, RankedProvider};
use lava_relay::session_context::{str_eq, ConsumerSessionContext};

const KEY_ONE_HEX: &str = "0000000000000000000000000000000000000000000000000000000000000001";

fn context() -> ConsumerSessionContext {
    ConsumerSessionContext::new(signing_key_from_hex(KEY_ONE_HEX).ok().unwrap())
}

fn ranked(address: &str, latency_micros: u64) -> RankedProvider {
    RankedProvider {
        provider: Provider {
            address: address.to_string(),
            stake: 1,
            endpoints: vec!["host:443".to_string()],
            latest_block: 1,
        },
        latency_micros,
    }
}

#[test]
fn str_eq_compares_characters() {
    assert!(str_eq("abc", "abc"));
    assert!(!str_eq("abc", "abd"));
    assert!(!str_eq("abc", "ab"));
    assert!(str_eq("", ""));
}

#[test]
fn fresh_sessions_start_at_one_with_no_compute_units() {
    let mut ctx = context();
    let s = ctx.get_or_create_session("lava@prov");
    assert_eq!(s.cu_sum, 0);
    assert_eq!(s.relay_num, 1);
    assert!(s.session_id <= u32::MAX as u64);
}

#[test]
fn session_creation_is_idempotent() {
    let mut ctx = context();
    let first = ctx.get_or_create_session("lava@prov");
    let second = ctx.get_or_create_session("lava@prov");
    assert_eq!(first.session_id, second.session_id);
    assert_eq!(second.cu_sum, 0);
    assert_eq!(second.relay_num, 1);
}

#[test]
fn distinct_addresses_get_distinct_sessions() {
    let mut ctx = context();
    let a = ctx.get_or_create_session("lava@a");
    let b = ctx.get_or_create_session("lava@b");
    assert_eq!(a.cu_sum, 0);
    assert_eq!(b.cu_sum, 0);
    let a_again = ctx.get_or_create_session("lava@a");
    assert_eq!(a.session_id, a_again.session_id);
}

#[test]
fn session_counters_grow_monotonically() {
    let mut ctx = context();
    let fresh = ctx.get_or_create_session("lava@prov");
    let n = 3;
    for _ in 0..n {
        ctx.update_session("lava@prov");
    }
    let after = ctx.get_or_create_session("lava@prov");
    assert_eq!(after.session_id, fresh.session_id);
    assert_eq!(after.cu_sum, 10 * n);
    assert_eq!(after.relay_num, 1 + n);
}

#[test]
fn updating_an_unknown_address_is_a_no_op() {
    let mut ctx = context();
    ctx.update_session("lava@nobody");
    let s = ctx.get_or_create_session("lava@nobody");
    assert_eq!(s.cu_sum, 0);
    assert_eq!(s.relay_num, 1);
}

#[test]
fn top_provider_is_none_without_any_ranking() {
    let mut ctx = context();
    assert!(ctx.get_top_provider(vec![]).is_none());
}

#[test]
fn top_provider_adopts_a_fetched_ranking_and_falls_back_to_it() {
    let mut ctx = context();
    let fetched = vec![ranked("lava@fast", 10), ranked("lava@slow", 30)];
    let top = ctx.get_top_provider(fetched).unwrap();
    assert_eq!(top.provider.address, "lava@fast");
    // While a refresh has published nothing, the held ranking serves.
    let still = ctx.get_top_provider(vec![]).unwrap();
    assert_eq!(still.provider.address, "lava@fast");
}

#[test]
fn top_provider_follows_the_latest_published_ranking() {
    let mut ctx = context();
    let first = vec![ranked("lava@old", 10)];
    assert_eq!(ctx.get_top_provider(first).unwrap().provider.address, "lava@old");
    // A refresh publishes a new ranking; dispatch selects from it, not from
    // the one adopted earlier.
    let newer = vec![ranked("lava@new", 20), ranked("lava@old", 25)];
    assert_eq!(ctx.get_top_provider(newer).unwrap().provider.address, "lava@new");
}
