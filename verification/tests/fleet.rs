use chromancy::config::{DeviceConfig, FleetConfig, SyncGroupConfig};
use chromancy::fleet::answered_health_reports;
use chromancy::{SyncHealthReport, WledClient, WledError, WledFleet, WledState};

fn make_config() -> FleetConfig {
    FleetConfig {
        sync_groups: vec![
            SyncGroupConfig {
                name: "lounge".to_string(),
                leader: Some("wled-1".to_string()),
                devices: vec![
                    DeviceConfig {
                        name: "wled-1".to_string(),
                        address: "192.168.1.1".to_string(),
                        is_leader: true,
                        device_type: "DigQuad".to_string(),
                    },
                    DeviceConfig {
                        name: "wled-2".to_string(),
                        address: "192.168.1.2".to_string(),
                        is_leader: false,
                        device_type: "DigUno".to_string(),
                    },
                ],
            },
            SyncGroupConfig {
                name: "patio".to_string(),
                leader: None,
                devices: vec![DeviceConfig {
                    name: "wled-3".to_string(),
                    address: "192.168.1.3".to_string(),
                    is_leader: true,
                    device_type: "Dig2Go".to_string(),
                }],
            },
        ],
        schedule: None,
    }
}

fn make_fleet() -> WledFleet {
    WledFleet::from_config(make_config()).unwrap()
}

#[test]
fn test_list_groups() {
    let fleet = make_fleet();
    let groups = fleet.list_groups();
    assert_eq!(groups, vec!["lounge", "patio"]);
}

#[test]
fn test_get_group() {
    let fleet = make_fleet();
    assert!(fleet.get_group("lounge").is_some());
    assert!(fleet.get_group("nope").is_none());
}

#[test]
fn test_get_device() {
    let fleet = make_fleet();
    assert!(fleet.get_device("wled-1").is_some());
    assert!(fleet.get_device("wled-2").is_some());
    assert!(fleet.get_device("wled-3").is_some());
    assert!(fleet.get_device("wled-99").is_none());
}

#[test]
fn test_get_group_for_device() {
    let fleet = make_fleet();
    let group = fleet.get_group_for_device("wled-2").unwrap();
    assert_eq!(group.name, "lounge");
    let group = fleet.get_group_for_device("wled-3").unwrap();
    assert_eq!(group.name, "patio");
}

#[test]
fn test_list_all_devices() {
    let fleet = make_fleet();
    let devices = fleet.list_all_devices();
    assert_eq!(devices.len(), 3);
}

#[test]
fn test_config_validation_no_leader() {
    let mut config = make_config();
    config.sync_groups[0].devices[0].is_leader = false;
    let result = WledFleet::from_config(config);
    assert!(matches!(result, Err(WledError::ConfigError(_))));
}

#[test]
fn test_config_validation_two_leaders() {
    let mut config = make_config();
    config.sync_groups[0].devices[1].is_leader = true;
    let result = WledFleet::from_config(config);
    assert!(matches!(result, Err(WledError::ConfigError(_))));
}

// ── Further checks of the fleet model ───────────────────────────────────────

#[test]
fn fleet_status_keeps_config_order_and_totals() {
    let fleet = make_fleet();
    let lounge = WledState { on: true, brightness: 90, preset_slot: 4, ..Default::default() };
    let status = fleet.fleet_status(&vec![Some(lounge), None]);
    assert_eq!(status.groups[0].group_name, "lounge");
    assert_eq!(status.groups[0].leader_name, "wled-1");
    assert!(status.groups[0].on);
    assert_eq!(status.groups[0].brightness, 90);
    assert_eq!(status.groups[0].active_preset, 4);
    assert_eq!(status.groups[0].device_count, 2);
    assert_eq!(status.groups[1].group_name, "patio");
    assert!(!status.groups[1].on);
    assert_eq!(status.groups[1].brightness, 0);
    assert_eq!(status.groups[1].active_preset, -1);
    assert_eq!(status.groups[1].device_count, 1);
    assert_eq!(status.total_groups, 2);
    assert_eq!(status.total_devices, 3);
    assert_eq!(fleet.checked_total_devices(), Some(3));
}

#[test]
fn list_all_devices_order_and_groups() {
    let fleet = make_fleet();
    let devices = fleet.list_all_devices();
    let names: Vec<(&str, &str)> = devices.iter().map(|(d, g, _)| (*d, *g)).collect();
    assert_eq!(names, vec![("wled-1", "lounge"), ("wled-2", "lounge"), ("wled-3", "patio")]);
    assert_eq!(devices[1].2.base_url(), "http://192.168.1.2");
    assert_eq!(devices[1].2.device_name(), "wled-2");
}

#[test]
fn validation_messages_name_the_group() {
    let mut config = make_config();
    config.sync_groups[1].devices[0].is_leader = false;
    match config.validate() {
        Err(WledError::ConfigError(m)) => assert_eq!(
            m,
            "Sync group 'patio' has no leader (set is_leader = true on one device)"
        ),
        other => panic!("unexpected {:?}", other),
    }
    let mut config = make_config();
    config.sync_groups[0].devices[1].is_leader = true;
    match config.validate() {
        Err(WledError::ConfigError(m)) => {
            assert_eq!(m, "Sync group 'lounge' has 2 leaders (only one allowed)")
        }
        other => panic!("unexpected {:?}", other),
    }
    let mut config = make_config();
    config.sync_groups[1].devices.clear();
    match WledFleet::from_config(config) {
        Err(WledError::ConfigError(m)) => assert_eq!(m, "Sync group 'patio' has no devices"),
        Err(e) => panic!("unexpected {:?}", e),
        Ok(_) => panic!("expected an error"),
    }
    assert!(make_config().validate().is_ok());
}

#[test]
fn broadcast_targets_reports_first_unknown_group() {
    let fleet = make_fleet();
    let ok = fleet.broadcast_targets(&["patio", "lounge"]).unwrap();
    assert_eq!(ok.len(), 2);
    assert_eq!(ok[0].name, "patio");
    assert_eq!(ok[1].name, "lounge");
    match fleet.broadcast_targets(&["lounge", "attic", "cellar"]) {
        Err(WledError::DeviceNotFound(n)) => assert_eq!(n, "attic"),
        Err(e) => panic!("unexpected {:?}", e),
        Ok(_) => panic!("expected an error"),
    }
}

#[test]
fn duplicate_group_name_replaces_in_place() {
    let mut config = make_config();
    config.sync_groups.push(SyncGroupConfig {
        name: "lounge".to_string(),
        leader: None,
        devices: vec![DeviceConfig {
            name: "wled-9".to_string(),
            address: "http://10.0.0.9".to_string(),
            is_leader: true,
            device_type: "DigUno".to_string(),
        }],
    });
    let fleet = WledFleet::from_config(config).unwrap();
    assert_eq!(fleet.list_groups(), vec!["lounge", "patio"]);
    let lounge = fleet.get_group("lounge").unwrap();
    assert_eq!(lounge.leader_name(), "wled-9");
    assert_eq!(lounge.leader().base_url(), "http://10.0.0.9");
    // wled-1 still maps to "lounge", which no longer holds it.
    assert!(fleet.get_group_for_device("wled-1").is_some());
    assert!(fleet.get_device("wled-1").is_none());
    assert!(fleet.get_device("wled-9").is_some());
}

#[test]
fn answered_health_reports_drops_failures_in_order() {
    let report = |name: &str, healthy: bool| SyncHealthReport {
        group_name: name.to_string(),
        healthy,
        devices: vec![],
    };
    let results = vec![
        ("lounge".to_string(), Ok(report("lounge", true))),
        ("patio".to_string(), Err(WledError::Timeout)),
        ("attic".to_string(), Ok(report("attic", false))),
    ];
    let kept = answered_health_reports(results);
    assert_eq!(kept.len(), 2);
    assert_eq!(kept[0].0, "lounge");
    assert!(kept[0].1.healthy);
    assert_eq!(kept[1].0, "attic");
    assert!(!kept[1].1.healthy);
}

#[test]
fn empty_config_gives_empty_fleet() {
    let fleet = WledFleet::from_config(FleetConfig { sync_groups: vec![], schedule: None }).unwrap();
    assert!(fleet.list_groups().is_empty());
    assert!(fleet.list_all_devices().is_empty());
}

#[test]
fn fleet_from_prebuilt_clients() {
    let config = make_config();
    // Clients in the order the fleet takes them: per group, leader first.
    let clients: Vec<WledClient> = ["wled-1", "wled-2", "wled-3"]
        .iter()
        .zip(["192.168.1.1", "192.168.1.2", "192.168.1.3"].iter())
        .map(|(name, addr)| WledClient::builder(addr).device_name(name).build().unwrap())
        .collect();
    let fleet = WledFleet::with_clients(&config, clients);
    assert_eq!(fleet.list_groups(), vec!["lounge", "patio"]);
    assert_eq!(fleet.get_device("wled-2").unwrap().base_url(), "http://192.168.1.2");
    assert_eq!(fleet.get_group("patio").unwrap().leader_name(), "wled-3");
}
