use vitality::channel::{ChannelState, GossipRecord, Htlc, PeerChannel, ShortChannelId};
use vitality::channelwatch::{
    check_slackers, inspect, inspect_channel, judge_announcements, network_gossip_floor,
    status_line_findings,
};
use vitality::gossip::{get_gossip_map, GossipIndex};
use vitality::report::SlackerReport;
use vitality::structs::Config;

fn channel(peer: &str) -> PeerChannel {
    PeerChannel {
        peer_id: peer.to_string(),
        short_channel_id: Some(ShortChannelId::from_parts(700_000, 12, 1)),
        state: Some(ChannelState::ChanneldNormal),
        peer_connected: true,
        private: false,
        status: Vec::new(),
        htlcs: Vec::new(),
        lost_state: false,
    }
}

fn quiet_config() -> Config {
    let mut config = Config::new();
    config.watch_channels = false;
    config
}

fn findings(report: &SlackerReport) -> Vec<(String, Vec<String>)> {
    (0..report.len())
        .map(|i| (report.entry(i).peer.clone(), report.entry(i).findings.clone()))
        .collect()
}

fn big_index(extra: &[GossipRecord]) -> GossipIndex {
    let mut records: Vec<GossipRecord> = (0..50_000u64)
        .map(|i| GossipRecord {
            short_channel_id: ShortChannelId::from_u64((1u64 << 40) + i),
            active: true,
            public: true,
        })
        .collect();
    records.extend_from_slice(extra);
    get_gossip_map(&records)
}

#[test]
fn disconnected_peer_without_reconnect_is_reported() {
    let mut chan = channel("P");
    chan.peer_connected = false;
    chan.status = vec!["foo".to_string()];
    let config = Config::new();
    assert!(config.watch_channels);
    let report = inspect(&vec![chan], &config, 100, "bitcoin", &None);
    assert_eq!(
        findings(&report),
        vec![(
            "P".to_string(),
            vec![
                "Found disconnected peer that does not want to reconnect. Status instead is: foo"
                    .to_string()
            ]
        )]
    );
}

#[test]
fn disconnected_peer_lists_all_status_lines() {
    let mut chan = channel("P");
    chan.peer_connected = false;
    chan.status = vec!["foo".to_string(), "bar".to_string()];
    let report = inspect(&vec![chan], &Config::new(), 100, "bitcoin", &None);
    assert_eq!(
        report.entry(0).findings,
        vec![
            "Found disconnected peer that does not want to reconnect. Status instead is: foo\nbar"
                .to_string()
        ]
    );
}

#[test]
fn announced_reconnect_suppresses_the_disconnection_finding() {
    let mut chan = channel("P");
    chan.peer_connected = false;
    chan.status = vec!["Peer connection lost, Will attempt RECONNECT in 8 seconds".to_string()];
    let report = inspect(&vec![chan], &Config::new(), 100, "bitcoin", &None);
    assert!(report.is_empty());
}

#[test]
fn status_watch_off_silences_status_and_disconnection_rules() {
    let mut chan = channel("P");
    chan.peer_connected = false;
    chan.status = vec!["some error".to_string()];
    let report = inspect(&vec![chan], &quiet_config(), 100, "bitcoin", &None);
    assert!(report.is_empty());
}

#[test]
fn error_status_is_found_in_any_case() {
    let mut chan = channel("P");
    chan.status = vec!["Internal ERROR happened".to_string(), "fine".to_string()];
    let report = inspect(&vec![chan], &Config::new(), 100, "bitcoin", &None);
    assert_eq!(
        report.entry(0).findings,
        vec![
            "Found peer with error in status but not in closing state. Status: Internal ERROR happened"
                .to_string()
        ]
    );
}

#[test]
fn specific_finding_suppresses_the_disconnection_finding() {
    let mut chan = channel("P");
    chan.peer_connected = false;
    chan.status = vec!["error: bad".to_string()];
    let report = inspect(&vec![chan], &Config::new(), 100, "bitcoin", &None);
    assert_eq!(report.entry(0).findings.len(), 1);
    assert!(report.entry(0).findings[0].starts_with("Found peer with error"));
}

#[test]
fn detail_findings_need_the_gossip_watch() {
    let line = "Bad Update_Fee and HTLC error";
    let lowered = line.to_lowercase();
    assert_eq!(
        status_line_findings(line, &lowered, false),
        vec![
            "Found peer with error in status but not in closing state. Status: Bad Update_Fee and HTLC error"
                .to_string()
        ]
    );
    assert_eq!(
        status_line_findings(line, &lowered, true),
        vec![
            "Found peer with error in status but not in closing state. Status: Bad Update_Fee and HTLC error"
                .to_string(),
            "Can't agree on fee. Status: Bad Update_Fee and HTLC error".to_string(),
            "Status: Bad Update_Fee and HTLC error".to_string(),
        ]
    );
    assert!(status_line_findings("all good", "all good", true).is_empty());
}

#[test]
fn lost_state_is_reported_with_detail_only() {
    let mut chan = channel("P");
    chan.lost_state = true;
    let mut config = Config::new();
    assert!(inspect(&vec![channel("P")], &config, 100, "bitcoin", &None).is_empty());
    let plain = inspect_channel(&chan, &config, 100, "bitcoin", &None);
    assert!(plain.is_empty());
    config.watch_gossip = true;
    let detailed = inspect_channel(&chan, &config, 100, "bitcoin", &None);
    assert_eq!(
        detailed,
        vec!["Lost state. Status: we are fallen behind i.e. lost some channel state".to_string()]
    );
}

#[test]
fn expiring_htlc_names_the_blocks_left() {
    let mut chan = channel("P");
    chan.short_channel_id = Some(ShortChannelId::from_parts(1, 2, 3));
    chan.htlcs = vec![Htlc { expiry: 100 }];
    let mut config = quiet_config();
    config.expiring_htlcs = 10;
    let report = inspect(&vec![chan], &config, 95, "bitcoin", &None);
    assert_eq!(
        findings(&report),
        vec![(
            "P".to_string(),
            vec!["Found channel 1x2x3 with close to expiry htlc: 5 blocks".to_string()]
        )]
    );
}

#[test]
fn one_finding_for_each_expiring_htlc_and_none_for_the_others() {
    let mut chan = channel("P");
    chan.short_channel_id = Some(ShortChannelId::from_parts(1, 2, 3));
    chan.htlcs = vec![
        Htlc { expiry: 104 },
        Htlc { expiry: 105 },
        Htlc { expiry: 1000 },
        Htlc { expiry: 96 },
        Htlc { expiry: 95 },
        Htlc { expiry: 90 },
    ];
    let mut config = quiet_config();
    config.expiring_htlcs = 10;
    let found = inspect_channel(&chan, &config, 95, "bitcoin", &None);
    assert_eq!(
        found,
        vec![
            "Found channel 1x2x3 with close to expiry htlc: 9 blocks".to_string(),
            "Found channel 1x2x3 with close to expiry htlc: 1 blocks".to_string(),
            "Found channel 1x2x3 with close to expiry htlc: 0 blocks".to_string(),
            "Found channel 1x2x3 with close to expiry htlc: 0 blocks".to_string(),
        ]
    );
}

#[test]
fn expiry_rule_is_off_at_threshold_zero() {
    let mut chan = channel("P");
    chan.htlcs = vec![Htlc { expiry: 1 }];
    let found = inspect_channel(&chan, &quiet_config(), 95, "bitcoin", &None);
    assert!(found.is_empty());
}

#[test]
fn expiry_far_above_height_does_not_wrap() {
    let mut chan = channel("P");
    chan.htlcs = vec![Htlc { expiry: u32::MAX }, Htlc { expiry: 0 }];
    let mut config = quiet_config();
    config.expiring_htlcs = u32::MAX;
    let found = inspect_channel(&chan, &config, u32::MAX, "bitcoin", &None);
    assert_eq!(found.len(), 2);
    let found = inspect_channel(&chan, &config, 0, "bitcoin", &None);
    assert_eq!(found, vec!["Found channel 700000x12x1 with close to expiry htlc: 0 blocks"]);
}

#[test]
fn channels_in_other_states_give_nothing() {
    let states = [
        None,
        Some(ChannelState::Openingd),
        Some(ChannelState::ChanneldAwaitingLockin),
        Some(ChannelState::ChanneldShuttingDown),
        Some(ChannelState::ClosingdSigexchange),
        Some(ChannelState::ClosingdComplete),
        Some(ChannelState::AwaitingUnilateral),
        Some(ChannelState::FundingSpendSeen),
        Some(ChannelState::Onchain),
        Some(ChannelState::DualopendOpenInit),
        Some(ChannelState::DualopendAwaitingLockin),
        Some(ChannelState::DualopendOpenCommitted),
        Some(ChannelState::DualopendOpenCommitReady),
    ];
    let mut config = Config::new();
    config.watch_gossip = true;
    config.expiring_htlcs = 1000;
    let index = Some(get_gossip_map(&Vec::new()));
    for state in states {
        let mut chan = channel("P");
        chan.state = state;
        chan.peer_connected = false;
        chan.lost_state = true;
        chan.status = vec!["error htlc update_fee".to_string()];
        chan.htlcs = vec![Htlc { expiry: 1 }];
        assert!(inspect(&vec![chan], &config, 100, "regtest", &index).is_empty());
    }
    let mut splice = channel("P");
    splice.state = Some(ChannelState::ChanneldAwaitingSplice);
    splice.lost_state = true;
    assert_eq!(inspect(&vec![splice], &config, 100, "regtest", &index).len(), 1);
}

#[test]
fn warm_index_with_two_good_records_gives_no_gossip_finding() {
    let chan = channel("P");
    let id = chan.short_channel_id.unwrap();
    let good = GossipRecord { short_channel_id: id, active: true, public: true };
    let index = big_index(&[good, good]);
    assert_eq!(index.len(), 50_001);
    let mut config = quiet_config();
    config.watch_gossip = true;
    let report = inspect(&vec![chan], &config, 100, "bitcoin", &Some(index));
    assert!(report.is_empty());
}

#[test]
fn cold_index_gives_no_gossip_finding() {
    let chan = channel("P");
    let mut config = quiet_config();
    config.watch_gossip = true;
    let mut records: Vec<GossipRecord> = (0..20_000u64)
        .map(|i| GossipRecord {
            short_channel_id: ShortChannelId::from_u64(i),
            active: false,
            public: false,
        })
        .collect();
    let cold = Some(get_gossip_map(&records));
    assert!(inspect_channel(&chan, &config, 100, "bitcoin", &cold).is_empty());
    assert_eq!(
        inspect_channel(&chan, &config, 100, "testnet", &cold),
        vec!["Found channel 700000x12x1 with no gossip".to_string()]
    );
    records.push(GossipRecord {
        short_channel_id: ShortChannelId::from_u64(20_000),
        active: false,
        public: false,
    });
    let warm = Some(get_gossip_map(&records));
    assert_eq!(
        inspect_channel(&chan, &config, 100, "bitcoin", &warm),
        vec!["Found channel 700000x12x1 with no gossip".to_string()]
    );
    let empty = Some(get_gossip_map(&Vec::new()));
    assert!(inspect_channel(&chan, &config, 100, "signet", &empty).is_empty());
    assert_eq!(inspect_channel(&chan, &config, 100, "regtest", &empty).len(), 1);
}

#[test]
fn gossip_floor_by_network() {
    assert_eq!(network_gossip_floor("bitcoin"), Some(20_000));
    assert_eq!(network_gossip_floor("regtest"), None);
    assert_eq!(network_gossip_floor("testnet"), Some(100));
    assert_eq!(network_gossip_floor("signet"), Some(100));
}

#[test]
fn gossip_rule_needs_watch_index_and_connection() {
    let chan = channel("P");
    let empty = Some(get_gossip_map(&Vec::new()));
    let mut config = quiet_config();
    assert!(inspect_channel(&chan, &config, 100, "regtest", &empty).is_empty());
    config.watch_gossip = true;
    assert!(inspect_channel(&chan, &config, 100, "regtest", &None).is_empty());
    let mut away = channel("P");
    away.peer_connected = false;
    assert!(inspect_channel(&away, &config, 100, "regtest", &empty).is_empty());
}

#[test]
fn gossip_findings_by_number_of_records() {
    let id = ShortChannelId::from_parts(5, 6, 7);
    let rec = |active, public| GossipRecord { short_channel_id: id, active, public };
    assert_eq!(
        judge_announcements("5x6x7", false, &vec![]),
        vec!["Found channel 5x6x7 with no gossip".to_string()]
    );
    assert_eq!(
        judge_announcements("5x6x7", false, &vec![rec(false, false)]),
        vec!["Found connected channel 5x6x7 with one-sided gossip".to_string()]
    );
    assert!(judge_announcements("5x6x7", false, &vec![rec(true, true), rec(true, true)])
        .is_empty());
    assert_eq!(
        judge_announcements("5x6x7", false, &vec![rec(false, false), rec(true, false)]),
        vec![
            "Found connected channel 5x6x7 with inactive gossip".to_string(),
            "Found public channel 5x6x7 with non-public gossip".to_string(),
            "Found public channel 5x6x7 with non-public gossip".to_string(),
        ]
    );
    assert_eq!(
        judge_announcements("5x6x7", true, &vec![rec(false, false), rec(false, false)]),
        vec![
            "Found connected channel 5x6x7 with inactive gossip".to_string(),
            "Found connected channel 5x6x7 with inactive gossip".to_string(),
        ]
    );
}

#[test]
fn channel_without_identifier_has_its_htlcs_watched_but_not_its_gossip() {
    let mut chan = channel("P");
    chan.short_channel_id = None;
    chan.htlcs = vec![Htlc { expiry: 96 }];
    let mut config = quiet_config();
    config.watch_gossip = true;
    config.expiring_htlcs = 5;
    let empty = Some(get_gossip_map(&Vec::new()));
    assert_eq!(
        inspect_channel(&chan, &config, 95, "regtest", &empty),
        vec!["Found channel (unannounced) with close to expiry htlc: 1 blocks".to_string()]
    );
}

#[test]
fn findings_accumulate_per_peer_in_order_of_discovery() {
    let mut a1 = channel("A");
    a1.status = vec!["error one".to_string()];
    let mut b = channel("B");
    b.lost_state = true;
    b.status = vec!["htlc stuck".to_string()];
    let mut a2 = channel("A");
    a2.htlcs = vec![Htlc { expiry: 101 }];
    a2.status = vec!["error one".to_string()];
    let mut config = Config::new();
    config.watch_gossip = true;
    config.expiring_htlcs = 3;
    let mut report = SlackerReport::new();
    check_slackers(&vec![a1, b, a2], &config, &mut report, 100, "bitcoin", &None);
    assert_eq!(
        findings(&report),
        vec![
            (
                "A".to_string(),
                vec![
                    "Found peer with error in status but not in closing state. Status: error one"
                        .to_string(),
                    "Found peer with error in status but not in closing state. Status: error one"
                        .to_string(),
                    "Found channel 700000x12x1 with close to expiry htlc: 1 blocks".to_string(),
                ]
            ),
            (
                "B".to_string(),
                vec![
                    "Status: htlc stuck".to_string(),
                    "Lost state. Status: we are fallen behind i.e. lost some channel state"
                        .to_string(),
                ]
            ),
        ]
    );
}
