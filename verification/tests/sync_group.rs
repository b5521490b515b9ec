use chromancy::sync_group::{leader_state_to_request, resolve_list_id, resync_request, NamedList};
use chromancy::{Segment, WledClient, WledError, WledState, WledSyncGroup};

fn client_for(name: &str) -> WledClient {
    WledClient::builder("127.0.0.1:9").device_name(name).build().unwrap()
}

fn make_group() -> WledSyncGroup {
    let mut g = WledSyncGroup::new("test-group", "leader-1", client_for("leader-1"), "DigQuad");
    g.add_follower("follower-1", client_for("follower-1"), "DigUno");
    g.add_follower("follower-2", client_for("follower-2"), "Dig2Go");
    g
}

fn leader_state() -> WledState {
    WledState {
        on: true,
        brightness: 200,
        preset_slot: 3,
        segments: vec![Segment {
            id: 0,
            colors: vec![vec![255, 0, 0], vec![0, 0, 0], vec![0, 0, 0]],
            ..Default::default()
        }],
        ..Default::default()
    }
}

#[test]
fn test_device_access() {
    let g = make_group();
    assert!(g.get_device("leader-1").is_some());
    assert!(g.get_device("follower-1").is_some());
    assert!(g.get_device("nope").is_none());
    assert_eq!(g.device_count(), 3);
}

#[test]
fn group_accessors_in_order() {
    let g = make_group();
    assert_eq!(g.name, "test-group");
    assert_eq!(g.leader_name(), "leader-1");
    assert_eq!(g.leader_device_type(), "DigQuad");
    assert_eq!(g.leader().device_name(), "leader-1");
    assert_eq!(g.follower_count(), 2);
    let names: Vec<&str> = g.list_devices().iter().map(|(n, _)| *n).collect();
    assert_eq!(names, vec!["leader-1", "follower-1", "follower-2"]);
    let followers: Vec<&str> = g.list_followers().iter().map(|(n, _)| *n).collect();
    assert_eq!(followers, vec!["follower-1", "follower-2"]);
    assert_eq!(g.get_follower("follower-2").unwrap().device_name(), "follower-2");
    assert!(g.get_follower("leader-1").is_none());
    assert_eq!(g.get_device("follower-2").unwrap().device_name(), "follower-2");
}

#[test]
fn effect_and_palette_names_resolve_to_positions() {
    let effects = vec!["Solid".to_string(), "Blink".to_string(), "Rainbow".to_string()];
    assert_eq!(resolve_list_id(NamedList::Effect, &effects, "Blink").unwrap(), 1);
    assert_eq!(resolve_list_id(NamedList::Effect, &effects, "Solid").unwrap(), 0);
    match resolve_list_id(NamedList::Effect, &effects, "Doesnt Exist") {
        Err(WledError::ConfigError(m)) => assert_eq!(m, "Effect 'Doesnt Exist' not found"),
        other => panic!("unexpected {:?}", other),
    }
    let palettes = vec!["Default".to_string(), "Cloud".to_string(), "Cloud".to_string()];
    assert_eq!(resolve_list_id(NamedList::Palette, &palettes, "Cloud").unwrap(), 1);
    match resolve_list_id(NamedList::Palette, &palettes, "Lava") {
        Err(WledError::ConfigError(m)) => assert_eq!(m, "Palette 'Lava' not found"),
        other => panic!("unexpected {:?}", other),
    }
}

#[test]
fn channel_zero_is_rejected_before_any_request() {
    let g = make_group();
    assert!(g.check_channel(1).is_ok());
    match g.check_channel(0) {
        Err(WledError::InvalidChannel { device, channel, max_channels }) => {
            assert_eq!(device, "leader-1");
            assert_eq!(channel, 0);
            assert_eq!(max_channels, 255);
        }
        other => panic!("unexpected {:?}", other),
    }
    let r = g.channel_color_request(0, &leader_state(), 255, 0, 0);
    assert!(matches!(r, Err(WledError::InvalidChannel { channel: 0, max_channels: 255, .. })));
}

#[test]
fn channel_color_addresses_segment_channel_minus_one() {
    let g = make_group();
    let req = g.channel_color_request(1, &leader_state(), 0, 0, 255).unwrap();
    let segs = req.segments.unwrap();
    assert_eq!(segs.len(), 1);
    assert_eq!(segs[0].id, Some(0));
    assert_eq!(segs[0].colors, Some(vec![vec![0, 0, 255], vec![0, 0, 0], vec![0, 0, 0]]));
    assert!(segs[0].effect_id.is_none());
    assert!(req.on.is_none() && req.brightness.is_none());
    match g.channel_color_request(2, &leader_state(), 1, 2, 3) {
        Err(WledError::InvalidChannel { device, channel, max_channels }) => {
            assert_eq!(device, "leader-1");
            assert_eq!(channel, 2);
            assert_eq!(max_channels, 1);
        }
        other => panic!("unexpected {:?}", other),
    }
}

#[test]
fn health_report_detects_drift() {
    let g = make_group();
    let report = g.health_report(3, &vec![Some(3), Some(99)]);
    assert_eq!(report.group_name, "test-group");
    assert!(!report.healthy);
    assert_eq!(report.devices[0].device_name, "follower-1");
    assert!(report.devices[0].is_healthy);
    assert_eq!(report.devices[1].device_name, "follower-2");
    assert!(!report.devices[1].is_healthy);
    assert_eq!(report.devices[1].device_preset, 99);
    assert_eq!(report.devices[1].leader_preset, 3);
    let unreadable = g.health_report(3, &vec![Some(3), None]);
    assert!(!unreadable.healthy);
    assert_eq!(unreadable.devices[1].device_preset, -1);
    let all = g.health_report(3, &vec![Some(3), Some(3)]);
    assert!(all.healthy);
    let lone = WledSyncGroup::new("g", "l", client_for("l"), "DigUno");
    assert!(lone.health_report(7, &vec![]).healthy);
}

#[test]
fn resync_uses_preset_when_leader_has_one() {
    let req = resync_request(&leader_state());
    assert_eq!(req.preset_slot, Some(3));
    assert!(req.segments.is_none() && req.on.is_none());
}

#[test]
fn resync_pushes_full_state_without_preset() {
    let mut state = leader_state();
    state.preset_slot = -1;
    state.transition = 7;
    state.segments.push(Segment {
        id: 1,
        on: true,
        brightness: 40,
        colors: vec![vec![1, 2, 3, 4]],
        effect_id: 9,
        effect_speed: 10,
        effect_intensity: 11,
        palette_id: 12,
        ..Default::default()
    });
    let req = resync_request(&state);
    assert!(req.preset_slot.is_none());
    assert_eq!(req.on, Some(true));
    assert_eq!(req.brightness, Some(200));
    assert_eq!(req.transition, Some(7));
    let segs = req.segments.unwrap();
    assert_eq!(segs.len(), 2);
    assert_eq!(segs[0].id, Some(0));
    assert_eq!(segs[0].colors, Some(vec![vec![255, 0, 0], vec![0, 0, 0], vec![0, 0, 0]]));
    assert_eq!(segs[1].id, Some(1));
    assert_eq!(segs[1].on, Some(true));
    assert_eq!(segs[1].brightness, Some(40));
    assert_eq!(segs[1].colors, Some(vec![vec![1, 2, 3, 4]]));
    assert_eq!(segs[1].effect_id, Some(9));
    assert_eq!(segs[1].effect_speed, Some(10));
    assert_eq!(segs[1].effect_intensity, Some(11));
    assert_eq!(segs[1].palette_id, Some(12));
    assert!(segs[1].start.is_none() && segs[1].stop.is_none());
    let direct = leader_state_to_request(&state);
    assert_eq!(direct.segments.unwrap().len(), 2);
}

#[test]
fn segment_requests_keep_the_segment_ids() {
    let state = WledState {
        on: true,
        brightness: 200,
        preset_slot: -1,
        segments: vec![
            Segment { id: 0, ..Default::default() },
            Segment { id: 2, ..Default::default() },
        ],
        ..Default::default()
    };
    let r = leader_state_to_request(&state);
    assert!(r.preset_slot.is_none());
    let ids: Vec<Option<u8>> = r.segments.unwrap().iter().map(|q| q.id).collect();
    assert_eq!(ids, vec![Some(0), Some(2)]);
}

#[test]
fn group_name_getter_matches_field() {
    let g = make_group();
    assert_eq!(g.name(), "test-group");
    assert_eq!(g.name(), g.name.as_str());
}
