use chromancy::error::{combine_failures, FailureScope};
use chromancy::types::{
    default_128_u8, default_1_u8, default_60_u8, default_brightness, default_neg_one_i16,
    default_neg_one_i32, default_true,
};
use chromancy::{DuskScheduleConfig, NtpConfig, NtpServer, TimerEntry, WledError, WledStateRequest};

#[test]
fn ntp_server_text() {
    assert_eq!(NtpServer::hostname("pool.ntp.org").as_str(), "pool.ntp.org");
    assert_eq!(NtpServer::ip([216, 239, 35, 0]).as_str(), "216.239.35.0");
    assert_eq!(NtpServer::ip([0, 0, 0, 0]).as_str(), "0.0.0.0");
    assert_eq!(NtpServer::ip([255, 10, 1, 99]).as_str(), "255.10.1.99");
    assert_eq!(NtpServer::default(), NtpServer::Hostname("pool.ntp.org".to_string()));
    assert_eq!(NtpConfig::default().server.as_str(), "pool.ntp.org");
}

#[test]
fn dusk_schedule_timers() {
    let config = DuskScheduleConfig { preset_slot: 3, off_hour: 0, off_minute: 30, enabled: true };
    assert_eq!(
        config.timers(),
        vec![
            TimerEntry { enabled: true, hour: 255, minute: 0, macro_id: 3, days_of_week: 127 },
            TimerEntry { enabled: true, hour: 0, minute: 30, macro_id: 0, days_of_week: 127 },
        ]
    );
    let off = DuskScheduleConfig { preset_slot: 8, off_hour: 23, off_minute: 5, enabled: false };
    let t = off.timers();
    assert!(!t[0].enabled && !t[1].enabled);
    assert_eq!(t[0].macro_id, 8);
    assert_eq!((t[1].hour, t[1].minute), (23, 5));
}

#[test]
fn field_defaults() {
    assert_eq!(default_brightness(), 128);
    assert_eq!(default_neg_one_i32(), -1);
    assert_eq!(default_neg_one_i16(), -1);
    assert!(default_true());
    assert_eq!(default_1_u8(), 1);
    assert_eq!(default_60_u8(), 60);
    assert_eq!(default_128_u8(), 128);
}

#[test]
fn single_field_requests() {
    let r = WledStateRequest::power(false);
    assert_eq!(r.on, Some(false));
    assert!(r.brightness.is_none() && r.segments.is_none() && r.preset_slot.is_none());
    assert_eq!(WledStateRequest::brightness(100).brightness, Some(100));
    assert_eq!(WledStateRequest::transition(15).transition, Some(15));
    assert_eq!(WledStateRequest::activate_preset(2).preset_slot, Some(2));
    let save = WledStateRequest::save_preset(7, "My Preset");
    assert_eq!(save.preset_save_slot, Some(7));
    assert_eq!(save.preset_name.as_deref(), Some("My Preset"));
    assert!(save.preset_slot.is_none());
    assert_eq!(WledStateRequest::delete_preset(4).preset_delete_slot, Some(4));
    let empty = WledStateRequest::empty();
    assert!(empty.on.is_none() && empty.return_state.is_none());
}

#[test]
fn segment_zero_requests() {
    let c = WledStateRequest::color(255, 0, 0);
    let s = c.segments.unwrap();
    assert_eq!(s.len(), 1);
    assert_eq!(s[0].id, Some(0));
    assert_eq!(s[0].colors, Some(vec![vec![255, 0, 0], vec![0, 0, 0], vec![0, 0, 0]]));
    let e = WledStateRequest::effect(5).segments.unwrap();
    assert_eq!((e[0].id, e[0].effect_id, e[0].palette_id), (Some(0), Some(5), None));
    let p = WledStateRequest::palette(3).segments.unwrap();
    assert_eq!((p[0].id, p[0].palette_id, p[0].effect_id), (Some(0), Some(3), None));
    let ch = WledStateRequest::segment_color(2, 1, 2, 3).segments.unwrap();
    assert_eq!(ch[0].id, Some(2));
}

#[test]
fn error_messages() {
    let cases = vec![
        (
            WledError::Network { device: "lamp".into(), source: "connection refused".into() },
            "Network error for device 'lamp': connection refused",
        ),
        (
            WledError::Api { device: "lamp".into(), status: 500, message: "boom".into() },
            "API error for device 'lamp': HTTP 500 - boom",
        ),
        (WledError::DeviceNotFound("attic".into()), "Device not found: 'attic'"),
        (WledError::PresetNotFound("Party".into()), "Preset not found: 'Party'"),
        (
            WledError::InvalidChannel { device: "lamp".into(), channel: 9, max_channels: 4 },
            "Invalid channel 9 for device 'lamp': max is 4",
        ),
        (WledError::ConfigError("bad".into()), "Config error: bad"),
        (WledError::Timeout, "Request timed out"),
        (WledError::Json("eof".into()), "JSON error: eof"),
    ];
    for (e, text) in cases {
        assert_eq!(e.message(), text);
    }
}

#[test]
fn failures_are_combined() {
    assert!(combine_failures(FailureScope::Broadcast, &vec![]).is_ok());
    let fs = vec![
        ("lounge".to_string(), WledError::PresetNotFound("Red".into())),
        ("patio".to_string(), WledError::Timeout),
    ];
    match combine_failures(FailureScope::Broadcast, &fs) {
        Err(WledError::ConfigError(m)) => assert_eq!(
            m,
            "Broadcast failed for 2 group(s): lounge: Preset not found: 'Red', patio: Request timed out"
        ),
        other => panic!("unexpected {:?}", other),
    }
    match combine_failures(FailureScope::Resync, &fs[1..].to_vec()) {
        Err(WledError::ConfigError(m)) => {
            assert_eq!(m, "force_resync failed for 1 device(s): patio: Request timed out")
        }
        other => panic!("unexpected {:?}", other),
    }
}
