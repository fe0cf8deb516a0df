use orc_core::error::{InputError, OrcError};
use orc_core::ids::validate_torrent_id;
use orc_core::ingest::{
    estimate_pieces, is_file_exists_error, resolve_name, EngineAddResponse, EngineFile,
};
use orc_core::model::{
    ConnectionType, KillSwitchScope, KillSwitchState, NetPostureState, TorrentMode, TorrentProfile,
    TorrentState, VpnPostureState, VpnSignals, VpnStatus,
};
use orc_core::requests::{
    AddTorrentInput, AddTorrentRequest, PatchFilePriorityRequest, PatchKillSwitchRequest,
};
use orc_core::state::{
    check_network_allowed, engine_ids, find_torrent_by_info_hash, get_content, get_kill_switch,
    get_policy, get_row_snapshot, get_status, get_torrent, health, health_at,
    integrate_added_torrent, integrate_added_torrent_with, list_torrents, net_posture_at,
    new_state, new_state_at, only_files_for, patch_kill_switch, patch_kill_switch_at,
    patch_policy_at, plan_add,
    remove_torrent, rqbit_id_for, set_file_priority, set_profile, set_running, AddPlan, OrcState,
};

const HASH_A: &str = "aaaaaaaaaaaaaaaaaaaaaaaaaaaaaaaaaaaaaaaa";
const HASH_B: &str = "bbbbbbbbbbbbbbbbbbbbbbbbbbbbbbbbbbbbbbbb";

fn magnet_request(hash: &str) -> AddTorrentRequest {
    AddTorrentRequest {
        magnet: Some(format!("magnet:?xt=urn:btih:{}&tr=http%3A%2F%2Ft.test%2Fa&tr=udp://u.test:1&tr=udp://u.test:1", hash)),
        torrent_b64: None,
        name_hint: None,
        save_path: None,
    }
}

fn response(engine_id: usize, hash: &str, files: &[(&str, u64)]) -> EngineAddResponse {
    EngineAddResponse {
        id: Some(engine_id),
        info_hash: hash.to_string(),
        name: Some("engine name".to_string()),
        output_folder: format!("/downloads/{}", hash),
        files: Some(
            files
                .iter()
                .map(|(n, l)| EngineFile { name: n.to_string(), length: *l })
                .collect(),
        ),
    }
}

fn add(state: &mut OrcState, id: &str, engine_id: usize, hash: &str, files: &[(&str, u64)]) {
    let out = integrate_added_torrent_with(
        state,
        &magnet_request(hash),
        response(engine_id, hash, files),
        id.to_string(),
        1000,
    )
    .unwrap();
    assert_eq!(out.id, id);
}

fn vpn(connected: bool) -> VpnStatus {
    VpnStatus {
        posture: if connected { VpnPostureState::Connected } else { VpnPostureState::Disconnected },
        interface_name: None,
        default_route_interface: None,
        dns_servers: vec![],
        signals: VpnSignals {
            adapter_match: connected,
            default_route_match: connected,
            dns_match: false,
            public_ip_match: None,
        },
        last_check_ms: 0,
        connection_type: if connected { ConnectionType::Vpn } else { ConnectionType::NonVpn },
        public_ip: None,
        detected: Some(connected),
        interface_name_legacy: None,
    }
}

#[test]
fn fresh_state_is_empty() {
    let state = new_state_at("/downloads".to_string(), 42);
    assert!(list_torrents(&state).items.is_empty());
    assert_eq!(state.download_dir_path(), "/downloads");
    let ks = get_kill_switch(&state);
    assert!(!ks.enabled);
    assert_eq!(ks.scope, KillSwitchScope::TorrentOnly);
    assert!(ks.vpn_source.auto_detect);
    assert!(ks.vpn_source.allowed_adapters.is_empty());
    assert_eq!(ks.grace_period_sec, 10);
    assert!(ks.triggers.pause_all_torrents);
    assert!(!ks.triggers.stop_seeding && !ks.triggers.disable_dht_pex_lpd && !ks.triggers.block_outbound);
    assert_eq!(ks.enforcement_state, KillSwitchState::Disarmed);
    assert_eq!(ks.last_enforcement_ms, None);
    let p = get_policy(&state);
    assert_eq!(p.version, 1);
    assert_eq!(p.last_updated_ms, 42);
    assert!(p.effective.network_allowed);
    assert!(p.warnings.is_empty());
    assert_eq!(p.disabled.len(), 18);
}

#[test]
fn fresh_state_starts_now() {
    let state = new_state("/d".to_string());
    let p = get_policy(&state);
    assert!(p.last_updated_ms > 1_600_000_000_000);
    assert!(health(&state).ok);
    assert!(health(&state).uptime_sec < 60);
}

#[test]
fn health_counts_whole_seconds() {
    let state = new_state_at("/d".to_string(), 10_000);
    assert_eq!(health_at(&state, 10_999).uptime_sec, 0);
    assert_eq!(health_at(&state, 13_500).uptime_sec, 3);
    assert_eq!(health_at(&state, 5).uptime_sec, 0);
    assert!(health_at(&state, 5).ok);
}

#[test]
fn added_torrent_is_recorded() {
    let mut state = new_state_at("/d".to_string(), 0);
    add(&mut state, "id-1", 7, HASH_A, &[("dir/a.txt", 30), ("dir/../b?.bin", 12)]);
    let t = get_torrent(&state, "id-1").unwrap();
    assert_eq!(t.id, "id-1");
    assert_eq!(t.name, "engine name");
    assert_eq!(t.added_at_ms, 1000);
    assert!(t.running);
    assert_eq!(t.profile, TorrentProfile { mode: TorrentMode::Standard, hops: 0 });
    assert_eq!(t.info_hash_hex, Some(HASH_A.to_string()));
    assert_eq!(t.save_path, Some(format!("/downloads/{}", HASH_A)));
    let s = get_status(&state, "id-1").unwrap();
    assert_eq!(s.id, "id-1");
    assert_eq!(s.state, TorrentState::Checking);
    assert_eq!(s.total_bytes, 42);
    assert_eq!(s.downloaded_bytes, 0);
    assert_eq!(s.progress_ppm, 0);
    assert_eq!(s.down_rate_bps, 0);
    assert_eq!(s.up_rate_bps, 0);
    assert_eq!(s.eta_sec, 0);
    assert_eq!(s.peers_seen, 0);
    assert_eq!(s.error, None);
    let c = get_content(&state, "id-1").unwrap();
    assert_eq!(c.files.len(), 2);
    assert_eq!(c.files[0].path, vec!["dir".to_string(), "a.txt".to_string()]);
    assert_eq!(c.files[0].size, 30);
    assert_eq!(c.files[0].priority, "normal");
    assert!(!c.files[0].downloaded);
    assert_eq!(c.files[1].path, vec!["dir".to_string(), "b.bin".to_string()]);
    assert_eq!(rqbit_id_for(&state, "id-1"), Some(7));
    let trackers = orc_core::state::trackers_for(&state, "id-1").unwrap().trackers;
    assert_eq!(trackers.len(), 5);
    assert_eq!(trackers[3].url, "http://t.test/a");
    assert_eq!(trackers[4].url, "udp://u.test:1");
}

#[test]
fn torrent_name_is_resolved_in_order() {
    assert_eq!(resolve_name(&Some("hint".to_string()), &Some("engine".to_string()), HASH_A), "hint");
    assert_eq!(resolve_name(&Some("  ".to_string()), &Some("engine".to_string()), HASH_A), "engine");
    assert_eq!(resolve_name(&None, &Some("engine".to_string()), HASH_A), "engine");
    assert_eq!(resolve_name(&None, &Some("\t".to_string()), HASH_A), "torrent-aaaaaaaa");
    assert_eq!(resolve_name(&None, &None, "0123456789abcdef"), "torrent-01234567");
    assert_eq!(resolve_name(&None, &None, "abc"), "torrent-abc");
    assert_eq!(resolve_name(&Some(String::new()), &None, ""), "torrent-");
}

#[test]
fn pieces_are_estimated_by_size() {
    let mib = 1024 * 1024;
    assert_eq!(estimate_pieces(0), 1);
    assert_eq!(estimate_pieces(100), 1);
    assert_eq!(estimate_pieces(256 * 1024), 1);
    assert_eq!(estimate_pieces(50 * mib), 200);
    assert_eq!(estimate_pieces(50 * mib + 1), 100);
    assert_eq!(estimate_pieces(500 * mib), 1000);
    assert_eq!(estimate_pieces(500 * mib + 1), 250);
    assert_eq!(estimate_pieces(4096 * mib), 2048);
    assert_eq!(estimate_pieces(4096 * mib + 1), 1024);
    assert_eq!(estimate_pieces(u64::MAX), u32::MAX);
}

#[test]
fn torrent_without_engine_id_is_refused() {
    let mut state = new_state_at("/d".to_string(), 0);
    let mut resp = response(1, HASH_A, &[]);
    resp.id = None;
    let r = integrate_added_torrent_with(&mut state, &magnet_request(HASH_A), resp, "x".to_string(), 1);
    assert!(matches!(r, Err(OrcError::EngineFailure)));
    assert!(list_torrents(&state).items.is_empty());
}

#[test]
fn full_registry_takes_no_torrent() {
    let mut state = new_state_at("/d".to_string(), 0);
    let req = AddTorrentRequest {
        magnet: Some("magnet:?x".to_string()),
        torrent_b64: None,
        name_hint: None,
        save_path: None,
    };
    for i in 0..10000usize {
        let r = integrate_added_torrent_with(
            &mut state,
            &req,
            response(i, HASH_A, &[]),
            format!("id-{}", i),
            1,
        );
        assert!(r.is_ok());
    }
    assert_eq!(list_torrents(&state).items.len(), 10000);
    let r = integrate_added_torrent_with(&mut state, &req, response(1, HASH_A, &[]), "one more".to_string(), 1);
    assert!(matches!(r, Err(OrcError::CapacityExceeded)));
    assert_eq!(list_torrents(&state).items.len(), 10000);
    assert!(get_torrent(&state, "one more").is_none());
}

#[test]
fn same_id_takes_the_place_of_the_old_record() {
    let mut state = new_state_at("/d".to_string(), 0);
    add(&mut state, "id-1", 1, HASH_A, &[("a", 1)]);
    add(&mut state, "id-2", 2, HASH_B, &[("b", 2)]);
    add(&mut state, "id-1", 3, HASH_B, &[("c", 3)]);
    let items = list_torrents(&state).items;
    assert_eq!(items.len(), 2);
    assert_eq!(items[0].id, "id-1");
    assert_eq!(items[0].info_hash_hex, Some(HASH_B.to_string()));
    assert_eq!(items[1].id, "id-2");
    assert_eq!(rqbit_id_for(&state, "id-1"), Some(3));
}

#[test]
fn random_ids_have_the_shape_of_an_id() {
    let mut state = new_state_at("/d".to_string(), 0);
    let a = integrate_added_torrent(&mut state, &magnet_request(HASH_A), response(1, HASH_A, &[])).unwrap();
    let b = integrate_added_torrent(&mut state, &magnet_request(HASH_B), response(2, HASH_B, &[])).unwrap();
    assert_eq!(a.id.len(), 36);
    assert!(validate_torrent_id(&a.id));
    assert!(validate_torrent_id(&b.id));
    assert_ne!(a.id, b.id);
    assert_eq!(list_torrents(&state).items.len(), 2);
    let t = get_torrent(&state, &a.id).unwrap();
    assert!(t.added_at_ms > 1_600_000_000_000);
}

#[test]
fn stopping_zeroes_the_rates() {
    let mut state = new_state_at("/d".to_string(), 0);
    add(&mut state, "id-1", 1, HASH_A, &[("a", 100)]);
    assert_eq!(set_running(&mut state, "id-1", false), Ok(()));
    let s = get_status(&state, "id-1").unwrap();
    assert_eq!(s.down_rate_bps, 0);
    assert_eq!(s.up_rate_bps, 0);
    assert_eq!(s.state, TorrentState::Stopped);
    assert!(!get_torrent(&state, "id-1").unwrap().running);
}

#[test]
fn starting_infers_the_state_from_the_progress() {
    let mut state = new_state_at("/d".to_string(), 0);
    add(&mut state, "partial", 1, HASH_A, &[("a", 100)]);
    add(&mut state, "empty", 2, HASH_B, &[]);
    assert_eq!(set_running(&mut state, "partial", true), Ok(()));
    assert_eq!(get_status(&state, "partial").unwrap().state, TorrentState::Downloading);
    assert_eq!(set_running(&mut state, "empty", true), Ok(()));
    assert_eq!(get_status(&state, "empty").unwrap().state, TorrentState::Seeding);
    assert!(get_torrent(&state, "empty").unwrap().running);
}

#[test]
fn unknown_id_is_not_found() {
    let mut state = new_state_at("/d".to_string(), 0);
    add(&mut state, "id-1", 1, HASH_A, &[]);
    assert_eq!(set_running(&mut state, "nope", true), Err(OrcError::NotFound));
    assert_eq!(remove_torrent(&mut state, "nope"), Err(OrcError::NotFound));
    assert!(matches!(
        set_profile(&mut state, "nope", TorrentProfile { mode: TorrentMode::Private, hops: 1 }),
        Err(OrcError::NotFound)
    ));
    let req = PatchFilePriorityRequest { paths: vec![], priority: "skip".to_string() };
    assert_eq!(set_file_priority(&mut state, "nope", req), Err(OrcError::NotFound));
    assert_eq!(orc_core::state::force_checking_at(&mut state, "nope", 1), Err(OrcError::NotFound));
    assert_eq!(orc_core::state::mark_announce_at(&mut state, "nope", 1), Err(OrcError::NotFound));
    assert!(matches!(orc_core::state::trackers_for(&state, "nope"), Err(OrcError::NotFound)));
    assert!(get_torrent(&state, "nope").is_none());
    assert!(get_status(&state, "nope").is_none());
    assert!(get_content(&state, "nope").is_none());
    assert!(get_row_snapshot(&state, "nope").is_none());
    assert!(rqbit_id_for(&state, "nope").is_none());
    assert!(only_files_for(&state, "nope").is_none());
    assert_eq!(list_torrents(&state).items.len(), 1);
}

#[test]
fn removed_torrent_is_gone() {
    let mut state = new_state_at("/d".to_string(), 0);
    add(&mut state, "id-1", 1, HASH_A, &[]);
    add(&mut state, "id-2", 2, HASH_B, &[]);
    add(&mut state, "id-3", 3, HASH_B, &[]);
    assert_eq!(remove_torrent(&mut state, "id-2"), Ok(()));
    let ids: Vec<String> = list_torrents(&state).items.into_iter().map(|t| t.id).collect();
    assert_eq!(ids, vec!["id-1".to_string(), "id-3".to_string()]);
    assert_eq!(engine_ids(&state), vec![1, 3]);
    assert_eq!(remove_torrent(&mut state, "id-2"), Err(OrcError::NotFound));
}

#[test]
fn profile_is_replaced() {
    let mut state = new_state_at("/d".to_string(), 0);
    add(&mut state, "id-1", 1, HASH_A, &[]);
    let profile = TorrentProfile { mode: TorrentMode::TorAssist, hops: 3 };
    let t = set_profile(&mut state, "id-1", profile).unwrap();
    assert_eq!(t.profile, profile);
    assert_eq!(t.id, "id-1");
    assert_eq!(get_torrent(&state, "id-1").unwrap().profile, profile);
}

#[test]
fn file_priority_is_set_by_path() {
    let mut state = new_state_at("/d".to_string(), 0);
    add(&mut state, "id-1", 1, HASH_A, &[("a/x", 1), ("a/y", 2), ("b", 3)]);
    let req = PatchFilePriorityRequest {
        paths: vec![vec!["a".to_string(), "y".to_string()], vec!["b".to_string()], vec!["zz".to_string()]],
        priority: "skip".to_string(),
    };
    assert_eq!(set_file_priority(&mut state, "id-1", req), Ok(()));
    let files = get_content(&state, "id-1").unwrap().files;
    assert_eq!(files[0].priority, "normal");
    assert_eq!(files[1].priority, "skip");
    assert_eq!(files[2].priority, "skip");
    assert_eq!(only_files_for(&state, "id-1"), Some(vec![0]));
    let req = PatchFilePriorityRequest { paths: vec![vec!["b".to_string()]], priority: "high".to_string() };
    assert_eq!(set_file_priority(&mut state, "id-1", req), Ok(()));
    assert_eq!(only_files_for(&state, "id-1"), Some(vec![0, 2]));
    assert_eq!(get_content(&state, "id-1").unwrap().files[2].priority, "high");
}

#[test]
fn torrent_without_files_takes_any_priority_request() {
    let mut state = new_state_at("/d".to_string(), 0);
    add(&mut state, "id-1", 1, HASH_A, &[]);
    let req = PatchFilePriorityRequest { paths: vec![vec!["a".to_string()]], priority: "low".to_string() };
    assert_eq!(set_file_priority(&mut state, "id-1", req), Ok(()));
    assert_eq!(only_files_for(&state, "id-1"), Some(vec![]));
}

#[test]
fn torrent_is_found_by_info_hash_in_any_case() {
    let mut state = new_state_at("/d".to_string(), 0);
    add(&mut state, "id-1", 1, HASH_A, &[("a", 10)]);
    add(&mut state, "id-2", 2, "0123456789abcdef0123456789ABCDEF01234567", &[]);
    assert_eq!(
        find_torrent_by_info_hash(&state, &HASH_A.to_uppercase()),
        Some(("id-1".to_string(), false, true))
    );
    assert_eq!(
        find_torrent_by_info_hash(&state, "0123456789ABCDEF0123456789abcdef01234567"),
        Some(("id-2".to_string(), false, true))
    );
    assert_eq!(find_torrent_by_info_hash(&state, HASH_B), None);
    assert_eq!(find_torrent_by_info_hash(&state, ""), None);
    set_running(&mut state, "id-1", false).unwrap();
    assert_eq!(find_torrent_by_info_hash(&state, HASH_A), Some(("id-1".to_string(), false, false)));
}

#[test]
fn second_add_of_the_same_torrent_yields_no_second_record() {
    let mut state = new_state_at("/d".to_string(), 0);
    let first = magnet_request(&HASH_A.to_uppercase());
    match plan_add(&state, &first) {
        Ok(AddPlan::Fresh { input: AddTorrentInput::Url(u), info_hash }) => {
            assert_eq!(Some(u), first.magnet);
            assert_eq!(info_hash, Some(HASH_A.to_string()));
        }
        _ => panic!("first add is not fresh"),
    }
    add(&mut state, "id-1", 5, HASH_A, &[("a", 10)]);
    let second = AddTorrentRequest {
        magnet: Some(format!("magnet:?dn=other&xt=urn:btih:{}", HASH_A)),
        torrent_b64: None,
        name_hint: Some("other".to_string()),
        save_path: None,
    };
    match plan_add(&state, &second) {
        Ok(AddPlan::Existing { id, rqbit_id, start }) => {
            assert_eq!(id, "id-1");
            assert_eq!(rqbit_id, 5);
            assert!(!start);
        }
        _ => panic!("second add is not deduplicated"),
    }
    assert_eq!(list_torrents(&state).items.len(), 1);
    set_running(&mut state, "id-1", false).unwrap();
    match plan_add(&state, &second) {
        Ok(AddPlan::Existing { id, start, .. }) => {
            assert_eq!(id, "id-1");
            assert!(start);
        }
        _ => panic!("stopped torrent is not deduplicated"),
    }
    set_running(&mut state, "id-1", true).unwrap();
    assert!(get_torrent(&state, "id-1").unwrap().running);
    assert_eq!(list_torrents(&state).items.len(), 1);
}

#[test]
fn torrent_file_is_deduplicated_by_its_info_hash() {
    let mut state = new_state_at("/d".to_string(), 0);
    add(&mut state, "id-1", 5, "600CCD1B71569232D01D110BC63E906BEAB04D8C", &[]);
    let req = AddTorrentRequest {
        magnet: None,
        torrent_b64: Some("ZDQ6aW5mb2RlZQ==".to_string()),
        name_hint: None,
        save_path: None,
    };
    assert!(matches!(plan_add(&state, &req), Ok(AddPlan::Existing { id, .. }) if id == "id-1"));
    remove_torrent(&mut state, "id-1").unwrap();
    match plan_add(&state, &req) {
        Ok(AddPlan::Fresh { input: AddTorrentInput::TorrentBytes(b), info_hash }) => {
            assert_eq!(b, b"d4:infodee".to_vec());
            assert_eq!(info_hash, Some("600ccd1b71569232d01d110bc63e906beab04d8c".to_string()));
        }
        _ => panic!("not fresh"),
    }
}

#[test]
fn magnet_without_hash_is_always_fresh() {
    let mut state = new_state_at("/d".to_string(), 0);
    add(&mut state, "id-1", 5, HASH_A, &[]);
    let req = AddTorrentRequest {
        magnet: Some("magnet:?dn=x".to_string()),
        torrent_b64: None,
        name_hint: None,
        save_path: None,
    };
    assert!(matches!(plan_add(&state, &req), Ok(AddPlan::Fresh { info_hash: None, .. })));
}

#[test]
fn unacceptable_request_is_not_planned() {
    let state = new_state_at("/d".to_string(), 0);
    let none = AddTorrentRequest { magnet: None, torrent_b64: None, name_hint: None, save_path: None };
    assert!(matches!(plan_add(&state, &none), Err(OrcError::InvalidInput(InputError::MissingSource))));
    let bad = AddTorrentRequest {
        magnet: Some("http://x".to_string()),
        torrent_b64: None,
        name_hint: None,
        save_path: None,
    };
    assert!(matches!(plan_add(&state, &bad), Err(OrcError::InvalidInput(InputError::InvalidMagnet))));
}

#[test]
fn trackers_come_from_magnet_and_torrent_file() {
    let mut state = new_state_at("/d".to_string(), 0);
    let req = AddTorrentRequest {
        magnet: Some("magnet:?tr=x://one&tr=x://two".to_string()),
        torrent_b64: Some("ZDg6YW5ub3VuY2U3Ong6Ly90d28xMzphbm5vdW5jZS1saXN0bGw5Ong6Ly90aHJlZWVlZQ==".to_string()),
        name_hint: Some("hinted".to_string()),
        save_path: None,
    };
    integrate_added_torrent_with(&mut state, &req, response(1, HASH_A, &[]), "id".to_string(), 5).unwrap();
    let rows = orc_core::state::trackers_for(&state, "id").unwrap().trackers;
    let urls: Vec<&str> = rows.iter().map(|r| r.url.as_str()).collect();
    assert_eq!(urls, vec!["** DHT **", "** PeX **", "** LSD **", "x://one", "x://two", "x://three"]);
    assert_eq!(get_torrent(&state, "id").unwrap().name, "hinted");
}

#[test]
fn existing_files_are_recognised_in_engine_failures() {
    assert!(is_file_exists_error("File exists (os error 17)"));
    assert!(is_file_exists_error("the path ALREADY EXISTS"));
    assert!(is_file_exists_error("io: EEXIST"));
    assert!(is_file_exists_error("Cannot create a file when that file already exists."));
    assert!(!is_file_exists_error("permission denied"));
    assert!(!is_file_exists_error(""));
    assert!(!is_file_exists_error("file exist"));
}

#[test]
fn kill_switch_patch_is_stored() {
    let mut state = new_state_at("/d".to_string(), 0);
    add(&mut state, "id-1", 1, HASH_A, &[]);
    let ks = patch_kill_switch_at(
        &mut state,
        PatchKillSwitchRequest { enabled: Some(true), scope: Some(KillSwitchScope::AppLevel), grace_period_sec: Some(5), triggers: None },
        &vpn(true),
        77,
    );
    assert!(ks.enabled);
    assert_eq!(ks.enforcement_state, KillSwitchState::Armed);
    assert_eq!(ks.last_enforcement_ms, Some(77));
    assert_eq!(ks.scope, KillSwitchScope::AppLevel);
    assert_eq!(ks.grace_period_sec, 5);
    let stored = get_kill_switch(&state);
    assert!(stored.enabled);
    assert_eq!(stored.enforcement_state, KillSwitchState::Armed);
    assert!(get_torrent(&state, "id-1").unwrap().running);
    let off = patch_kill_switch_at(
        &mut state,
        PatchKillSwitchRequest { enabled: Some(false), scope: None, grace_period_sec: None, triggers: None },
        &vpn(true),
        88,
    );
    assert_eq!(off.enforcement_state, KillSwitchState::Disarmed);
    assert!(get_torrent(&state, "id-1").unwrap().running);
}

#[test]
fn kill_switch_enabled_without_the_vpn_is_disarmed() {
    let mut state = new_state_at("/d".to_string(), 0);
    add(&mut state, "id-1", 1, HASH_A, &[]);
    let before = get_kill_switch(&state);
    assert!(!before.enabled);
    assert_eq!(before.enforcement_state, KillSwitchState::Disarmed);
    let ks = patch_kill_switch_at(
        &mut state,
        PatchKillSwitchRequest { enabled: Some(true), scope: None, grace_period_sec: None, triggers: None },
        &vpn(false),
        5,
    );
    assert!(ks.enabled);
    assert_eq!(ks.enforcement_state, KillSwitchState::Disarmed);
    assert_eq!(ks.last_enforcement_ms, Some(5));
    let stored = get_kill_switch(&state);
    assert!(stored.enabled);
    assert_eq!(stored.enforcement_state, KillSwitchState::Disarmed);
    assert!(get_torrent(&state, "id-1").unwrap().running);
    assert_eq!(health_at(&state, 9000).uptime_sec, 9);
    let now = patch_kill_switch(
        &mut state,
        PatchKillSwitchRequest { enabled: Some(true), scope: None, grace_period_sec: None, triggers: None },
        &vpn(true),
    );
    assert_eq!(now.enforcement_state, KillSwitchState::Armed);
    assert!(now.last_enforcement_ms.unwrap() > 5);
}

#[test]
fn policy_patch_follows_the_kill_switch() {
    let mut state = new_state_at("/d".to_string(), 0);
    let mut desired = get_policy(&state).desired;
    desired.enforce_private_torrents = true;
    let p = patch_policy_at(&mut state, desired, &vpn(false), 10);
    assert_eq!(p.version, 2);
    assert_eq!(p.last_updated_ms, 10);
    assert!(p.effective.network_allowed);
    assert!(!p.effective.discovery_allowed);
    assert!(p.effective.direct_peer_allowed);
    assert_eq!(check_network_allowed(&state), Ok(()));
    patch_kill_switch_at(
        &mut state,
        PatchKillSwitchRequest { enabled: Some(true), scope: None, grace_period_sec: None, triggers: None },
        &vpn(true),
        11,
    );
    let p = patch_policy_at(&mut state, desired, &vpn(false), 12);
    assert_eq!(p.version, 3);
    assert!(!p.effective.network_allowed);
    assert_eq!(get_policy(&state).version, 3);
    assert_eq!(check_network_allowed(&state), Err(OrcError::PolicyRejected));
    let p = patch_policy_at(&mut state, desired, &vpn(true), 13);
    assert_eq!(p.version, 4);
    assert!(p.effective.network_allowed);
    assert_eq!(check_network_allowed(&state), Ok(()));
}

#[test]
fn net_posture_shows_the_kill_switch() {
    let mut state = new_state_at("/d".to_string(), 0);
    patch_kill_switch_at(
        &mut state,
        PatchKillSwitchRequest { enabled: Some(true), scope: None, grace_period_sec: None, triggers: None },
        &vpn(true),
        1,
    );
    let p = net_posture_at(&state, vpn(true), 500);
    assert_eq!(p.bind_interface, None);
    assert!(!p.leak_proof_enabled);
    assert_eq!(p.state, NetPostureState::Unconfigured);
    assert_eq!(p.last_change_ms, 500);
    assert_eq!(p.vpn_status.posture, VpnPostureState::Connected);
    assert!(p.kill_switch.enabled);
    assert_eq!(p.kill_switch.enforcement_state, KillSwitchState::Armed);
}

#[test]
fn save_path_is_taken_without_surrounding_whitespace() {
    let mut req = magnet_request(HASH_A);
    assert_eq!(orc_core::ingest::requested_save_path(&req), None);
    req.save_path = Some("  /data/t  ".to_string());
    assert_eq!(orc_core::ingest::requested_save_path(&req), Some("/data/t".to_string()));
    req.save_path = Some(" \t ".to_string());
    assert_eq!(orc_core::ingest::requested_save_path(&req), None);
}
