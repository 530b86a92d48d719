use lava_relay::pairing::{
    get_ranked_providers, get_sdk_pairing_params, next_sleep_seconds, parse_i64, parse_provider,
    parse_providers, parse_sdk_pairing_params, parse_u64, probe_verdict, rank_providers,
    scheduler_step, Provider, RankedProvider, RawPairingParams, RawProvider, RefreshData,
    SDKPairingParams, SDKPairingState, SchedulerAction, SchedulerEvent,
};

fn provider(address: &str, stake: u64) -> Provider {
    Provider {
        address: address.to_string(),
        stake,
        endpoints: vec![format!("{}.example:443", address)],
        latest_block: 100,
    }
}

fn raw_provider(address: &str, stake: &str, block: &str) -> RawProvider {
    RawProvider {
        address: Some(address.to_string()),
        stake: Some(stake.to_string()),
        endpoints: Some(vec!["host:443".to_string()]),
        latest_block: Some(block.to_string()),
    }
}

#[test]
fn decimal_parsers_match_the_standard_ones() {
    for s in ["0", "42", "+42", "18446744073709551615", "", "x", "1x", "-1", "+",
        "18446744073709551616"] {
        assert_eq!(parse_u64(s), s.parse::<u64>().ok(), "u64 input {:?}", s);
    }
    for s in ["0", "-42", "+42", "9223372036854775807", "-9223372036854775808",
        "-9223372036854775809", "9223372036854775808", "", "-", "7x"] {
        assert_eq!(parse_i64(s), s.parse::<i64>().ok(), "i64 input {:?}", s);
    }
}

#[test]
fn pairing_params_parse_defensively() {
    let raw = RawPairingParams {
        current_epoch: Some("120".to_string()),
        time_left_to_next_pairing: Some("55".to_string()),
        spec_last_updated_block: Some("not a number".to_string()),
        block_of_next_pairing: None,
        downtime_duration: Some("10s".to_string()),
        epoch_duration: None,
    };
    let p = parse_sdk_pairing_params(&raw);
    assert_eq!(p.current_epoch, 120);
    assert_eq!(p.time_left_to_next_pairing, 55);
    assert_eq!(p.spec_last_updated_block, 0);
    assert_eq!(p.block_of_next_pairing, 0);
    assert_eq!(p.downtime_duration, "10s");
    assert_eq!(p.epoch_duration, "");
}

#[test]
fn provider_entries_parse_or_are_skipped() {
    let good = raw_provider("lava@a", "500", "77");
    let parsed = parse_provider(&good).unwrap();
    assert_eq!(parsed.address, "lava@a");
    assert_eq!(parsed.stake, 500);
    assert_eq!(parsed.latest_block, 77);
    assert_eq!(parsed.endpoints, vec!["host:443".to_string()]);

    let mut no_address = raw_provider("lava@a", "500", "77");
    no_address.address = None;
    assert!(parse_provider(&no_address).is_none());

    let bad_stake = raw_provider("lava@a", "lots", "77");
    assert!(parse_provider(&bad_stake).is_none());

    let mut no_block = raw_provider("lava@a", "500", "77");
    no_block.latest_block = None;
    assert!(parse_provider(&no_block).is_none());

    // An entry without an endpoints list is rejected outright; one with an
    // empty list is kept.
    let mut no_endpoints = raw_provider("lava@a", "500", "77");
    no_endpoints.endpoints = None;
    assert!(parse_provider(&no_endpoints).is_none());
    let mut empty_endpoints = raw_provider("lava@a", "500", "77");
    empty_endpoints.endpoints = Some(vec![]);
    let kept = parse_provider(&empty_endpoints).unwrap();
    assert!(kept.endpoints.is_empty());
}

#[test]
fn providers_filter_to_the_ten_highest_stakes() {
    let mut raws: Vec<RawProvider> = Vec::new();
    for i in 0..12u64 {
        raws.push(raw_provider(&format!("lava@p{}", i), &format!("{}", 100 + i), "5"));
    }
    raws.push(RawProvider {
        address: None,
        stake: Some("9999".to_string()),
        endpoints: Some(vec![]),
        latest_block: Some("1".to_string()),
    });
    let top = parse_providers(&raws);
    assert_eq!(top.len(), 10);
    for w in top.windows(2) {
        assert!(w[0].stake >= w[1].stake);
    }
    assert_eq!(top[0].stake, 111);
    assert_eq!(top[9].stake, 102);
}

#[test]
fn few_providers_survive_whole_and_sorted() {
    let raws = vec![
        raw_provider("lava@low", "10", "1"),
        raw_provider("lava@high", "30", "1"),
        raw_provider("lava@mid", "20", "1"),
    ];
    let top = parse_providers(&raws);
    assert_eq!(top.len(), 3);
    assert_eq!(top[0].address, "lava@high");
    assert_eq!(top[1].address, "lava@mid");
    assert_eq!(top[2].address, "lava@low");
}

#[test]
fn equal_stakes_keep_arrival_order_at_the_cut() {
    // Eleven equal-stake entries: the first ten (by arrival) survive the
    // top-ten cut, in arrival order.
    let mut raws: Vec<RawProvider> = Vec::new();
    for i in 0..11u64 {
        raws.push(raw_provider(&format!("lava@e{}", i), "500", "5"));
    }
    let top = parse_providers(&raws);
    assert_eq!(top.len(), 10);
    for (i, p) in top.iter().enumerate() {
        assert_eq!(p.address, format!("lava@e{}", i));
    }
}

#[test]
fn equal_latencies_keep_arrival_order() {
    let results = vec![
        (RankedProvider { provider: provider("lava@first", 1), latency_micros: 20 }, true),
        (RankedProvider { provider: provider("lava@second", 1), latency_micros: 20 }, true),
        (RankedProvider { provider: provider("lava@third", 1), latency_micros: 10 }, true),
    ];
    let ranked = rank_providers(results);
    assert_eq!(ranked[0].provider.address, "lava@third");
    assert_eq!(ranked[1].provider.address, "lava@first");
    assert_eq!(ranked[2].provider.address, "lava@second");
}

#[test]
fn ranking_keeps_exactly_the_successful_probes_in_latency_order() {
    let results = vec![
        (RankedProvider { provider: provider("lava@slow", 1), latency_micros: 50_000 }, false),
        (RankedProvider { provider: provider("lava@fast", 1), latency_micros: 10_000 }, true),
        (RankedProvider { provider: provider("lava@ok", 1), latency_micros: 30_000 }, true),
    ];
    let ranked = rank_providers(results);
    assert_eq!(ranked.len(), 2);
    assert_eq!(ranked[0].provider.address, "lava@fast");
    assert_eq!(ranked[0].latency_micros, 10_000);
    assert_eq!(ranked[1].provider.address, "lava@ok");
    assert_eq!(ranked[1].latency_micros, 30_000);
}

#[test]
fn all_probes_failing_yields_an_empty_ranking() {
    let results = vec![
        (RankedProvider { provider: provider("lava@a", 1), latency_micros: 1 }, false),
        (RankedProvider { provider: provider("lava@b", 1), latency_micros: 2 }, false),
    ];
    assert!(rank_providers(results).is_empty());
}

#[test]
fn probe_verdict_requires_connection_call_and_time() {
    assert!(probe_verdict(false, true, true));
    assert!(!probe_verdict(true, true, true));
    assert!(!probe_verdict(false, false, true));
    assert!(!probe_verdict(false, true, false));
}

#[test]
fn scheduler_refreshes_on_timer_and_stops_on_shutdown() {
    assert_eq!(scheduler_step(&SchedulerEvent::TimerExpired), SchedulerAction::BeginRefresh);
    assert_eq!(scheduler_step(&SchedulerEvent::ShutdownSignal), SchedulerAction::Stop);
}

#[test]
fn clamp_sets_a_one_second_retry_and_nothing_else() {
    let mut state = SDKPairingState::new(50);
    assert_eq!(state.last_updated, 50);
    state.params.time_left_to_next_pairing = 600;
    state.params.current_epoch = 9;
    state.clamp_retry();
    assert_eq!(state.params.time_left_to_next_pairing, 1);
    assert_eq!(state.params.current_epoch, 9);
    assert_eq!(state.last_updated, 50);
    assert_eq!(next_sleep_seconds(&state), 1);
}

#[test]
fn refresh_commit_replaces_all_four_fields_together() {
    let mut state = SDKPairingState::new(100);
    state.params.current_epoch = 1;
    state.providers = vec![provider("lava@old", 5)];

    let new_params = SDKPairingParams {
        current_epoch: 2,
        time_left_to_next_pairing: 300,
        spec_last_updated_block: 11,
        block_of_next_pairing: 12,
        downtime_duration: "10s".to_string(),
        epoch_duration: "30s".to_string(),
    };
    let data = RefreshData {
        params: new_params,
        providers: vec![provider("lava@new", 7)],
        ranked_providers: vec![RankedProvider {
            provider: provider("lava@new", 7),
            latency_micros: 123,
        }],
        now: 200,
    };
    state.commit_refresh(data);

    // A snapshot taken afterwards observes every field from the new cycle.
    let params = get_sdk_pairing_params(&state);
    let ranked = get_ranked_providers(&state);
    assert_eq!(params.current_epoch, 2);
    assert_eq!(params.time_left_to_next_pairing, 300);
    assert_eq!(state.providers.len(), 1);
    assert_eq!(state.providers[0].address, "lava@new");
    assert_eq!(ranked.len(), 1);
    assert_eq!(ranked[0].provider.address, "lava@new");
    assert_eq!(ranked[0].latency_micros, 123);
    assert_eq!(state.last_updated, 200);
}
