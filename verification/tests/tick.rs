use orc_core::engine::{apply_report, map_state, stats_from_json, EngineReport, EngineStats};
use orc_core::heartbeat::{bytes_per_second, heartbeat_sample, push_sample};
use orc_core::ingest::{build_record, EngineAddResponse, EngineFile};
use orc_core::json::JsonValue;
use orc_core::model::{
    ConnectionType, KillSwitchState, TorrentState, VpnPostureState, VpnSignals, VpnStatus,
};
use orc_core::record::TorrentRecord;
use orc_core::requests::{AddTorrentRequest, PatchFilePriorityRequest, PatchKillSwitchRequest};
use orc_core::state::{
    force_checking, force_checking_at, get_content, get_kill_switch, get_policy, get_row_snapshot,
    get_status, get_torrent, integrate_added_torrent_with, mark_announce, mark_announce_at,
    new_state_at, patch_kill_switch_at, set_file_priority, set_running, tick, tick_at,
    trackers_for, OrcState,
};

fn request() -> AddTorrentRequest {
    AddTorrentRequest {
        magnet: Some("magnet:?tr=x://one&tr=x://two".to_string()),
        torrent_b64: None,
        name_hint: None,
        save_path: None,
    }
}

fn response(engine_id: usize, files: &[(&str, u64)]) -> EngineAddResponse {
    EngineAddResponse {
        id: Some(engine_id),
        info_hash: format!("{:040x}", engine_id),
        name: None,
        output_folder: "/d".to_string(),
        files: Some(files.iter().map(|(n, l)| EngineFile { name: n.to_string(), length: *l }).collect()),
    }
}

fn record(files: &[(&str, u64)]) -> TorrentRecord {
    build_record("id".to_string(), 1000, &request(), 1, response(1, files))
}

fn state_with(ids: &[&str]) -> OrcState {
    let mut state = new_state_at("/d".to_string(), 0);
    for (i, id) in ids.iter().enumerate() {
        integrate_added_torrent_with(&mut state, &request(), response(i, &[("a", 1000), ("b", 500)]), id.to_string(), 1000)
            .unwrap();
    }
    state
}

fn vpn(connected: bool) -> VpnStatus {
    VpnStatus {
        posture: if connected { VpnPostureState::Connected } else { VpnPostureState::Disconnected },
        interface_name: None,
        default_route_interface: None,
        dns_servers: vec![],
        signals: VpnSignals {
            adapter_match: connected,
            default_route_match: connected,
            dns_match: false,
            public_ip_match: None,
        },
        last_check_ms: 0,
        connection_type: if connected { ConnectionType::Vpn } else { ConnectionType::NonVpn },
        public_ip: None,
        detected: Some(connected),
        interface_name_legacy: None,
    }
}

fn stats(total: u64, progress: u64, uploaded: u64, state: &str, finished: bool) -> EngineStats {
    EngineStats {
        total_bytes: total,
        progress_bytes: progress,
        uploaded_bytes: uploaded,
        finished,
        state: state.to_string(),
        error: None,
        file_progress: None,
    }
}

fn enable_switch(state: &mut OrcState) {
    patch_kill_switch_at(
        state,
        PatchKillSwitchRequest { enabled: Some(true), scope: None, grace_period_sec: None, triggers: None },
        &vpn(true),
        1,
    );
}

#[test]
fn rate_is_bytes_over_seconds() {
    assert_eq!(bytes_per_second(1000, 1000), 1000);
    assert_eq!(bytes_per_second(1000, 500), 2000);
    assert_eq!(bytes_per_second(1000, 3000), 333);
    assert_eq!(bytes_per_second(1, 1001), 0);
    assert_eq!(bytes_per_second(0, 10), 0);
    assert_eq!(bytes_per_second(5, 0), 0);
    assert_eq!(bytes_per_second(u64::MAX, 1), u64::MAX);
    assert_eq!(bytes_per_second(u64::MAX, 1000), u64::MAX);
    assert_eq!(bytes_per_second(u64::MAX, 2000), u64::MAX / 2);
}

#[test]
fn heartbeat_history_drops_the_oldest_sample() {
    let mut ring: Vec<u64> = Vec::new();
    for i in 0..120u64 {
        push_sample(&mut ring, i);
    }
    assert_eq!(ring.len(), 120);
    assert_eq!(ring[0], 0);
    push_sample(&mut ring, 120);
    assert_eq!(ring.len(), 120);
    assert_eq!(ring[0], 1);
    assert_eq!(ring[119], 120);
    for i in 121..500u64 {
        push_sample(&mut ring, i);
        assert_eq!(ring.len(), 120);
    }
    let expected: Vec<u64> = (380..500).collect();
    assert_eq!(ring, expected);
}

#[test]
fn heartbeat_waits_for_its_interval() {
    let mut rec = record(&[("a", 10_000)]);
    heartbeat_sample(&mut rec.runtime, 1199);
    assert!(rec.runtime.heartbeat_samples.is_empty());
    assert_eq!(rec.runtime.heartbeat_last_sample_ms, 1000);
    heartbeat_sample(&mut rec.runtime, 999);
    assert!(rec.runtime.heartbeat_samples.is_empty());
    heartbeat_sample(&mut rec.runtime, 1200);
    assert_eq!(rec.runtime.heartbeat_samples, vec![0]);
    assert_eq!(rec.runtime.heartbeat_last_sample_ms, 1200);
}

#[test]
fn heartbeat_samples_the_download_rate() {
    let mut rec = record(&[("a", 10_000)]);
    rec.runtime.downloaded_bytes = 500;
    heartbeat_sample(&mut rec.runtime, 1250);
    assert_eq!(rec.runtime.heartbeat_samples, vec![2000]);
    assert_eq!(rec.runtime.heartbeat_last_bytes, 500);
    rec.runtime.downloaded_bytes = 400;
    heartbeat_sample(&mut rec.runtime, 2250);
    assert_eq!(rec.runtime.heartbeat_samples, vec![2000, 0]);
    assert_eq!(rec.runtime.heartbeat_last_bytes, 400);
}

#[test]
fn heartbeat_of_a_stopped_torrent_is_zero() {
    let mut rec = record(&[("a", 10_000)]);
    rec.runtime.running = false;
    rec.runtime.downloaded_bytes = 500;
    heartbeat_sample(&mut rec.runtime, 2000);
    assert_eq!(rec.runtime.heartbeat_samples, vec![0]);
    assert_eq!(rec.runtime.heartbeat_last_sample_ms, 2000);
    assert_eq!(rec.runtime.heartbeat_last_bytes, 0);
}

#[test]
fn heartbeat_history_stays_within_its_bound_over_many_ticks() {
    let mut state = state_with(&["a"]);
    let mut now = 1000;
    for _ in 0..300 {
        now += 250;
        tick_at(&mut state, &vpn(true), vec![], now);
    }
    let row = get_row_snapshot(&state, "a").unwrap();
    assert_eq!(row.heartbeat_samples.len(), 120);
}

#[test]
fn engine_states_are_mapped() {
    assert_eq!(map_state("paused", false), TorrentState::Stopped);
    assert_eq!(map_state("paused", true), TorrentState::Stopped);
    assert_eq!(map_state("initializing", false), TorrentState::Checking);
    assert_eq!(map_state("error", true), TorrentState::Error);
    assert_eq!(map_state("live", false), TorrentState::Downloading);
    assert_eq!(map_state("live", true), TorrentState::Seeding);
    assert_eq!(map_state("something new", false), TorrentState::Downloading);
    assert_eq!(map_state("something new", true), TorrentState::Seeding);
    assert_eq!(map_state("", false), TorrentState::Downloading);
    assert_eq!(map_state("Paused", false), TorrentState::Downloading);
}

#[test]
fn statistics_update_totals_and_rates() {
    let mut state = state_with(&["a"]);
    tick_at(&mut state, &vpn(true), vec![EngineReport::Stats(stats(2000, 500, 100, "live", false))], 1500);
    let s = get_status(&state, "a").unwrap();
    assert_eq!(s.total_bytes, 2000);
    assert_eq!(s.downloaded_bytes, 500);
    assert_eq!(s.down_rate_bps, 1000);
    assert_eq!(s.up_rate_bps, 200);
    assert_eq!(s.progress_ppm, 250_000);
    assert_eq!(s.eta_sec, 1);
    assert_eq!(s.state, TorrentState::Downloading);
    assert_eq!(s.error, None);
    assert!(get_torrent(&state, "a").unwrap().running);
    tick_at(&mut state, &vpn(true), vec![EngineReport::Stats(stats(2000, 2000, 50, "live", true))], 2500);
    let s = get_status(&state, "a").unwrap();
    assert_eq!(s.down_rate_bps, 1500);
    assert_eq!(s.up_rate_bps, 0);
    assert_eq!(s.progress_ppm, 1_000_000);
    assert_eq!(s.eta_sec, 0);
    assert_eq!(s.state, TorrentState::Seeding);
}

#[test]
fn rate_interval_is_at_least_one_millisecond() {
    let mut rec = record(&[("a", 10_000)]);
    apply_report(&mut rec, EngineReport::Stats(stats(10_000, 7, 3, "live", false)), 1000);
    assert_eq!(rec.runtime.down_rate_bps, 7000);
    assert_eq!(rec.runtime.up_rate_bps, 3000);
    apply_report(&mut rec, EngineReport::Stats(stats(10_000, 9, 3, "live", false)), 10);
    assert_eq!(rec.runtime.down_rate_bps, 2000);
    assert_eq!(rec.runtime.last_sample_ms, 10);
}

#[test]
fn paused_and_failed_torrents_do_not_run() {
    let mut state = state_with(&["a", "b"]);
    tick_at(
        &mut state,
        &vpn(true),
        vec![
            EngineReport::Stats(stats(10, 0, 0, "paused", false)),
            EngineReport::Stats(EngineStats {
                error: Some("disk full".to_string()),
                ..stats(10, 0, 0, "error", false)
            }),
        ],
        2000,
    );
    assert_eq!(get_status(&state, "a").unwrap().state, TorrentState::Stopped);
    assert!(!get_torrent(&state, "a").unwrap().running);
    let b = get_status(&state, "b").unwrap();
    assert_eq!(b.state, TorrentState::Error);
    assert_eq!(b.error, Some("disk full".to_string()));
    assert!(!get_torrent(&state, "b").unwrap().running);
}

#[test]
fn failure_of_one_torrent_leaves_the_others_alone() {
    let mut state = state_with(&["a", "b", "c"]);
    tick_at(
        &mut state,
        &vpn(true),
        vec![
            EngineReport::Stats(stats(100, 10, 0, "live", false)),
            EngineReport::Failed("engine gone".to_string()),
            EngineReport::Stats(stats(100, 20, 0, "live", false)),
        ],
        2000,
    );
    assert_eq!(get_status(&state, "a").unwrap().downloaded_bytes, 10);
    let b = get_status(&state, "b").unwrap();
    assert_eq!(b.state, TorrentState::Error);
    assert_eq!(b.error, Some("engine gone".to_string()));
    assert_eq!(b.down_rate_bps, 0);
    assert_eq!(b.up_rate_bps, 0);
    assert_eq!(b.total_bytes, 1500);
    assert!(get_torrent(&state, "b").unwrap().running);
    assert_eq!(get_status(&state, "c").unwrap().downloaded_bytes, 20);
    tick_at(
        &mut state,
        &vpn(true),
        vec![
            EngineReport::Unreadable,
            EngineReport::Stats(stats(100, 30, 0, "live", false)),
            EngineReport::Unreadable,
        ],
        3000,
    );
    let b = get_status(&state, "b").unwrap();
    assert_eq!(b.state, TorrentState::Downloading);
    assert_eq!(b.error, None);
    assert_eq!(b.downloaded_bytes, 30);
    assert_eq!(get_status(&state, "a").unwrap().downloaded_bytes, 10);
}

#[test]
fn torrents_without_report_are_left_alone() {
    let mut state = state_with(&["a", "b"]);
    tick_at(&mut state, &vpn(true), vec![EngineReport::Stats(stats(100, 10, 0, "live", false))], 2000);
    assert_eq!(get_status(&state, "a").unwrap().state, TorrentState::Downloading);
    assert_eq!(get_status(&state, "b").unwrap().state, TorrentState::Checking);
    tick_at(
        &mut state,
        &vpn(true),
        vec![
            EngineReport::Unreadable,
            EngineReport::Stats(stats(100, 10, 0, "paused", false)),
            EngineReport::Failed("too many".to_string()),
        ],
        3000,
    );
    assert_eq!(get_status(&state, "a").unwrap().state, TorrentState::Downloading);
    assert_eq!(get_status(&state, "b").unwrap().state, TorrentState::Stopped);
}

#[test]
fn forced_checking_shows_until_it_expires() {
    let mut state = state_with(&["a"]);
    force_checking_at(&mut state, "a", 10_000).unwrap();
    tick_at(&mut state, &vpn(true), vec![EngineReport::Stats(stats(100, 10, 0, "live", false))], 11_000);
    assert_eq!(get_status(&state, "a").unwrap().state, TorrentState::Checking);
    assert!(get_torrent(&state, "a").unwrap().running);
    tick_at(&mut state, &vpn(true), vec![EngineReport::Stats(stats(100, 10, 0, "paused", false))], 13_999);
    assert_eq!(get_status(&state, "a").unwrap().state, TorrentState::Checking);
    tick_at(&mut state, &vpn(true), vec![EngineReport::Stats(stats(100, 10, 0, "live", false))], 14_000);
    assert_eq!(get_status(&state, "a").unwrap().state, TorrentState::Downloading);
    tick_at(&mut state, &vpn(true), vec![EngineReport::Stats(stats(100, 10, 0, "live", false))], 12_000);
    assert_eq!(get_status(&state, "a").unwrap().state, TorrentState::Downloading);
}

#[test]
fn forced_checking_starts_now() {
    let mut state = state_with(&["a"]);
    force_checking(&mut state, "a").unwrap();
    tick(&mut state, &vpn(true), vec![EngineReport::Stats(stats(100, 10, 0, "live", false))]);
    assert_eq!(get_status(&state, "a").unwrap().state, TorrentState::Checking);
}

#[test]
fn files_follow_the_progress_per_file() {
    let mut state = state_with(&["a"]);
    set_file_priority(
        &mut state,
        "a",
        PatchFilePriorityRequest { paths: vec![vec!["b".to_string()]], priority: "skip".to_string() },
    )
    .unwrap();
    let report = EngineStats { file_progress: Some(vec![1000, 500, 7]), ..stats(1500, 1500, 0, "live", true) };
    tick_at(&mut state, &vpn(true), vec![EngineReport::Stats(report)], 2000);
    let files = get_content(&state, "a").unwrap().files;
    assert!(files[0].downloaded);
    assert!(!files[1].downloaded);
    let report = EngineStats { file_progress: Some(vec![999]), ..stats(1500, 999, 0, "live", false) };
    tick_at(&mut state, &vpn(true), vec![EngineReport::Stats(report)], 3000);
    let files = get_content(&state, "a").unwrap().files;
    assert!(!files[0].downloaded);
    assert!(!files[1].downloaded);
}

#[test]
fn finished_torrent_without_file_progress_has_all_wanted_files() {
    let mut state = state_with(&["a"]);
    set_file_priority(
        &mut state,
        "a",
        PatchFilePriorityRequest { paths: vec![vec!["a".to_string()]], priority: "skip".to_string() },
    )
    .unwrap();
    tick_at(&mut state, &vpn(true), vec![EngineReport::Stats(stats(1500, 100, 0, "live", false))], 2000);
    assert!(get_content(&state, "a").unwrap().files.iter().all(|f| !f.downloaded));
    tick_at(&mut state, &vpn(true), vec![EngineReport::Stats(stats(1500, 1500, 0, "live", true))], 3000);
    let files = get_content(&state, "a").unwrap().files;
    assert!(!files[0].downloaded);
    assert!(files[1].downloaded);
}

#[test]
fn statistics_are_read_from_json() {
    let v = JsonValue::Object(vec![
        ("total_bytes".to_string(), JsonValue::UInt(100)),
        ("downloaded_bytes".to_string(), JsonValue::UInt(40)),
        ("uploaded_bytes".to_string(), JsonValue::NegInt(-5)),
        ("finished".to_string(), JsonValue::Bool(true)),
        ("state".to_string(), JsonValue::Text("live".to_string())),
        ("error".to_string(), JsonValue::Text("oops".to_string())),
        (
            "file_progress".to_string(),
            JsonValue::Array(vec![JsonValue::UInt(3), JsonValue::Null, JsonValue::Real(2_500_000), JsonValue::UInt(9)]),
        ),
    ]);
    let s = stats_from_json(&v);
    assert_eq!(s.total_bytes, 100);
    assert_eq!(s.progress_bytes, 40);
    assert_eq!(s.uploaded_bytes, 0);
    assert!(s.finished);
    assert_eq!(s.state, "live");
    assert_eq!(s.error, Some("oops".to_string()));
    assert_eq!(s.file_progress, Some(vec![3, 0, 0, 9]));
}

#[test]
fn statistics_default_when_fields_are_missing() {
    let s = stats_from_json(&JsonValue::Object(vec![
        ("progress_bytes".to_string(), JsonValue::Text("7".to_string())),
        ("downloaded_bytes".to_string(), JsonValue::UInt(8)),
        ("finished".to_string(), JsonValue::UInt(1)),
        ("error".to_string(), JsonValue::Null),
    ]));
    assert_eq!(s.total_bytes, 0);
    assert_eq!(s.progress_bytes, 8);
    assert_eq!(s.uploaded_bytes, 0);
    assert!(!s.finished);
    assert_eq!(s.state, "error");
    assert_eq!(s.error, None);
    assert_eq!(s.file_progress, None);
    let s = stats_from_json(&JsonValue::Null);
    assert_eq!(s.state, "error");
    assert_eq!(s.total_bytes, 0);
    let s = stats_from_json(&JsonValue::Object(vec![
        ("progress_bytes".to_string(), JsonValue::UInt(1)),
        ("downloaded_bytes".to_string(), JsonValue::UInt(2)),
    ]));
    assert_eq!(s.progress_bytes, 1);
}

#[test]
fn kill_switch_engages_and_stops_every_running_torrent() {
    let mut state = state_with(&["a", "b", "c"]);
    set_running(&mut state, "b", false).unwrap();
    enable_switch(&mut state);
    tick_at(&mut state, &vpn(true), vec![], 2000);
    assert_eq!(get_kill_switch(&state).enforcement_state, KillSwitchState::Armed);
    assert!(get_torrent(&state, "a").unwrap().running);
    tick_at(&mut state, &vpn(false), vec![], 3000);
    let ks = get_kill_switch(&state);
    assert_eq!(ks.enforcement_state, KillSwitchState::Engaged);
    assert_eq!(ks.last_enforcement_ms, Some(3000));
    for id in ["a", "b", "c"] {
        let s = get_status(&state, id).unwrap();
        assert_eq!(s.state, TorrentState::Stopped);
        assert_eq!(s.down_rate_bps, 0);
        assert_eq!(s.up_rate_bps, 0);
        assert!(!get_torrent(&state, id).unwrap().running);
    }
    assert!(!get_policy(&state).effective.network_allowed);
    tick_at(&mut state, &vpn(false), vec![], 4000);
    assert_eq!(get_kill_switch(&state).enforcement_state, KillSwitchState::Engaged);
    assert_eq!(get_kill_switch(&state).last_enforcement_ms, Some(3000));
    tick_at(&mut state, &vpn(true), vec![], 5000);
    let ks = get_kill_switch(&state);
    assert_eq!(ks.enforcement_state, KillSwitchState::Armed);
    assert_eq!(ks.last_enforcement_ms, Some(5000));
    assert!(get_policy(&state).effective.network_allowed);
    for id in ["a", "b", "c"] {
        assert_eq!(get_status(&state, id).unwrap().state, TorrentState::Stopped);
        assert!(!get_torrent(&state, id).unwrap().running);
    }
}

#[test]
fn kill_switch_enabled_without_the_vpn_waits_for_it() {
    let mut state = state_with(&["a"]);
    let ks = patch_kill_switch_at(
        &mut state,
        PatchKillSwitchRequest { enabled: Some(true), scope: None, grace_period_sec: None, triggers: None },
        &vpn(false),
        1500,
    );
    assert!(ks.enabled);
    assert_eq!(ks.enforcement_state, KillSwitchState::Disarmed);
    tick_at(&mut state, &vpn(false), vec![], 2000);
    let ks = get_kill_switch(&state);
    assert_eq!(ks.enforcement_state, KillSwitchState::Disarmed);
    assert_eq!(ks.last_enforcement_ms, Some(1500));
    assert!(get_torrent(&state, "a").unwrap().running);
    assert!(!get_policy(&state).effective.network_allowed);
    tick_at(&mut state, &vpn(true), vec![], 3000);
    let ks = get_kill_switch(&state);
    assert_eq!(ks.enforcement_state, KillSwitchState::Armed);
    assert_eq!(ks.last_enforcement_ms, Some(3000));
    assert!(get_policy(&state).effective.network_allowed);
    tick_at(&mut state, &vpn(false), vec![], 4000);
    assert_eq!(get_kill_switch(&state).enforcement_state, KillSwitchState::Engaged);
    assert!(!get_torrent(&state, "a").unwrap().running);
}

#[test]
fn disabled_kill_switch_stops_nothing() {
    let mut state = state_with(&["a"]);
    tick_at(&mut state, &vpn(false), vec![], 2000);
    assert_eq!(get_kill_switch(&state).enforcement_state, KillSwitchState::Disarmed);
    assert!(get_torrent(&state, "a").unwrap().running);
    assert!(get_policy(&state).effective.network_allowed);
    assert_eq!(get_policy(&state).version, 1);
}

#[test]
fn network_gate_follows_the_vpn() {
    let mut state = state_with(&[]);
    enable_switch(&mut state);
    tick_at(&mut state, &vpn(false), vec![], 2000);
    let p = get_policy(&state);
    assert!(!p.effective.network_allowed);
    assert_eq!(p.version, 2);
    assert_eq!(p.last_updated_ms, 2000);
    tick_at(&mut state, &vpn(false), vec![], 3000);
    assert_eq!(get_policy(&state).version, 2);
    patch_kill_switch_at(
        &mut state,
        PatchKillSwitchRequest { enabled: Some(false), scope: None, grace_period_sec: None, triggers: None },
        &vpn(false),
        3500,
    );
    tick_at(&mut state, &vpn(false), vec![], 4000);
    let p = get_policy(&state);
    assert!(p.effective.network_allowed);
    assert_eq!(p.version, 3);
    assert_eq!(get_kill_switch(&state).enforcement_state, KillSwitchState::Disarmed);
}

#[test]
fn announce_is_counted_and_scheduled() {
    let mut state = state_with(&["a"]);
    mark_announce_at(&mut state, "a", 5000).unwrap();
    mark_announce_at(&mut state, "a", 6000).unwrap();
    let rows = trackers_for(&state, "a").unwrap().trackers;
    assert_eq!(rows.len(), 5);
    for row in &rows[..3] {
        assert_eq!(row.tier, Some(0));
        assert_eq!(row.status, "working");
        assert_eq!(row.announce_count, None);
        assert_eq!(row.last_announce_ms, None);
    }
    assert_eq!(rows[3].url, "x://one");
    assert_eq!(rows[3].tier, Some(0));
    assert_eq!(rows[4].url, "x://two");
    assert_eq!(rows[4].tier, Some(1));
    for row in &rows[3..] {
        assert_eq!(row.status, "updating");
        assert_eq!(row.last_announce_ms, Some(6000));
        assert_eq!(row.next_announce_ms, Some(6000 + 30 * 60 * 1000));
        assert_eq!(row.announce_count, Some(2));
        assert_eq!(row.scrape_count, Some(0));
        assert_eq!(row.error, None);
        assert_eq!(row.seeders, None);
        assert_eq!(row.leechers, None);
    }
}

#[test]
fn announce_is_stamped_with_the_current_time() {
    let mut state = state_with(&["a"]);
    mark_announce(&mut state, "a").unwrap();
    let rows = trackers_for(&state, "a").unwrap().trackers;
    assert!(rows[3].last_announce_ms.unwrap() > 1_600_000_000_000);
    assert_eq!(rows[3].announce_count, Some(1));
}

#[test]
fn trackers_of_a_stopped_torrent_are_disabled() {
    let mut state = state_with(&["a"]);
    set_running(&mut state, "a", false).unwrap();
    let rows = trackers_for(&state, "a").unwrap().trackers;
    assert!(rows.iter().all(|r| r.status == "disabled"));
}

#[test]
fn tracker_with_error_is_not_working() {
    let mut rec = record(&[]);
    rec.runtime.tracker_state[1].last_error = Some("timeout".to_string());
    rec.runtime.tracker_state[1].scrape_count = 4;
    let rows = orc_core::trackers::record_trackers(&rec.runtime).trackers;
    assert_eq!(rows[3].status, "updating");
    assert_eq!(rows[4].status, "not_working");
    assert_eq!(rows[4].error, Some("timeout".to_string()));
    assert_eq!(rows[4].scrape_count, Some(4));
    rec.runtime.state = TorrentState::Error;
    let rows = orc_core::trackers::record_trackers(&rec.runtime).trackers;
    assert_eq!(rows[0].status, "disabled");
    assert_eq!(rows[3].status, "disabled");
    assert_eq!(rows[4].status, "not_working");
}

#[test]
fn tracker_without_kept_state_counts_as_never_announced_to() {
    let mut rec = record(&[]);
    rec.runtime.tracker_state.truncate(1);
    let rows = orc_core::trackers::record_trackers(&rec.runtime).trackers;
    assert_eq!(rows.len(), 5);
    assert_eq!(rows[4].url, "x://two");
    assert_eq!(rows[4].status, "updating");
    assert_eq!(rows[4].announce_count, Some(0));
    assert_eq!(rows[4].scrape_count, Some(0));
    assert_eq!(rows[4].last_announce_ms, None);
    assert_eq!(rows[4].error, None);
}

#[test]
fn schedule_stops_at_the_largest_time() {
    let mut state = state_with(&["a"]);
    mark_announce_at(&mut state, "a", u64::MAX - 5).unwrap();
    let rows = trackers_for(&state, "a").unwrap().trackers;
    assert_eq!(rows[3].last_announce_ms, Some(u64::MAX - 5));
    assert_eq!(rows[3].next_announce_ms, Some(u64::MAX));
    force_checking_at(&mut state, "a", u64::MAX - 5).unwrap();
    tick_at(&mut state, &vpn(true), vec![EngineReport::Stats(stats(100, 10, 0, "live", false))], u64::MAX - 1);
    assert_eq!(get_status(&state, "a").unwrap().state, TorrentState::Checking);
}
