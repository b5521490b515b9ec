use chromancy::client::{
    fresh_names, is_retriable, is_success_status, jittered_delay_ms, parse_raw_method, ping_outcome,
    presets_fallback, resolve_preset, retry_after, transport_error,
};
use chromancy::{CachedList, Endpoint, PresetInfo, RawMethod, WledClient, WledError};
use std::collections::HashMap;

#[test]
fn test_builder_rejects_bad_timeout() {
    let result = WledClient::builder("192.168.1.1")
        .device_name("living-room")
        .build();
    assert!(result.is_ok());
}

#[test]
fn test_builder_adds_http_prefix() {
    let client = WledClient::new("192.168.1.100").unwrap();
    assert_eq!(client.device_name(), "192.168.1.100");
}

#[test]
fn test_device_name_override() {
    let client = WledClient::builder("192.168.1.100")
        .device_name("kitchen")
        .build()
        .unwrap();
    assert_eq!(client.device_name(), "kitchen");
}

#[test]
fn base_url_gets_scheme_only_when_missing() {
    assert_eq!(WledClient::new("192.168.1.100").unwrap().base_url(), "http://192.168.1.100");
    assert_eq!(WledClient::new("http://wled.local").unwrap().base_url(), "http://wled.local");
    assert_eq!(WledClient::new("https://wled.local").unwrap().base_url(), "https://wled.local");
    assert_eq!(WledClient::new("httpd").unwrap().base_url(), "http://httpd");
    let c = WledClient::builder("10.0.0.2")
        .timeout(std::time::Duration::from_millis(50))
        .build()
        .unwrap();
    assert_eq!(c.url(Endpoint::State), "http://10.0.0.2/json/state");
    assert_eq!(c.url_for_path("/win"), "http://10.0.0.2/win");
}

#[test]
fn endpoint_paths() {
    assert_eq!(Endpoint::State.path(), "/json/state");
    assert_eq!(Endpoint::Info.path(), "/json/info");
    assert_eq!(Endpoint::Full.path(), "/json");
    assert_eq!(Endpoint::Effects.path(), "/json/effects");
    assert_eq!(Endpoint::Palettes.path(), "/json/palettes");
    assert_eq!(Endpoint::PaletteColors(5).path(), "/json/palettes?v=1&cb=5");
    assert_eq!(Endpoint::PaletteColors(1234).path(), "/json/palettes?v=1&cb=1234");
    assert_eq!(Endpoint::Presets.path(), "/json/presets");
    assert_eq!(Endpoint::PresetsFile.path(), "/presets.json");
    assert_eq!(Endpoint::Config.path(), "/json/cfg");
}

#[test]
fn retriable_errors() {
    let net = WledError::Network { device: "d".into(), source: "reset".into() };
    assert!(is_retriable(&net));
    assert!(is_retriable(&WledError::Timeout));
    let api = |status| WledError::Api { device: "d".into(), status, message: String::new() };
    assert!(is_retriable(&api(500)));
    assert!(is_retriable(&api(599)));
    assert!(!is_retriable(&api(400)));
    assert!(!is_retriable(&api(600)));
    assert!(!is_retriable(&WledError::PresetNotFound("x".into())));
}

#[test]
fn retry_happens_once_with_jitter() {
    let d = retry_after(1, &WledError::Timeout).unwrap();
    assert!((500..700).contains(&d));
    assert_eq!(retry_after(2, &WledError::Timeout), None);
    let bad = WledError::Api { device: "d".into(), status: 400, message: "Bad Request".into() };
    assert_eq!(retry_after(1, &bad), None);
    assert_eq!(jittered_delay_ms(0), 500);
    assert_eq!(jittered_delay_ms(199), 699);
    assert_eq!(jittered_delay_ms(200), 500);
    assert_eq!(jittered_delay_ms(1234), 534);
}

#[test]
fn status_and_transport_errors() {
    assert!(is_success_status(200));
    assert!(is_success_status(299));
    assert!(!is_success_status(199));
    assert!(!is_success_status(300));
    assert!(!is_success_status(501));
    assert!(matches!(transport_error("d", true, "x".into()), WledError::Timeout));
    match transport_error("lamp", false, "refused".into()) {
        WledError::Network { device, source } => {
            assert_eq!(device, "lamp");
            assert_eq!(source, "refused");
        }
        e => panic!("unexpected {:?}", e),
    }
}

#[test]
fn ping_maps_outcomes() {
    assert!(matches!(ping_outcome::<()>(Ok(())), Ok(true)));
    assert!(matches!(ping_outcome::<()>(Err(WledError::Timeout)), Ok(false)));
    let net = WledError::Network { device: "d".into(), source: "x".into() };
    assert!(matches!(ping_outcome::<()>(Err(net)), Ok(false)));
    let api = WledError::Api { device: "d".into(), status: 404, message: String::new() };
    assert!(matches!(ping_outcome::<()>(Err(api)), Err(WledError::Api { status: 404, .. })));
}

#[test]
fn presets_fall_back_on_501_only() {
    let api = |status| WledError::Api { device: "d".into(), status, message: String::new() };
    assert!(presets_fallback(&api(501)));
    assert!(!presets_fallback(&api(500)));
    assert!(!presets_fallback(&WledError::Timeout));
}

#[test]
fn presets_resolve_by_name() {
    let mut presets = HashMap::new();
    presets.insert(3, PresetInfo { name: "Party Mode".to_string(), ..Default::default() });
    presets.insert(7, PresetInfo { name: "Warm White".to_string(), ..Default::default() });
    assert_eq!(resolve_preset(&presets, "Party Mode").unwrap(), 3);
    assert_eq!(resolve_preset(&presets, "Warm White").unwrap(), 7);
    match resolve_preset(&presets, "Nonexistent") {
        Err(WledError::PresetNotFound(n)) => assert_eq!(n, "Nonexistent"),
        other => panic!("unexpected {:?}", other),
    }
}

#[test]
fn raw_methods_in_any_case() {
    assert_eq!(parse_raw_method("GET").unwrap(), RawMethod::Get);
    assert_eq!(parse_raw_method("get").unwrap(), RawMethod::Get);
    assert_eq!(parse_raw_method("Post").unwrap(), RawMethod::Post);
    match parse_raw_method("delete") {
        Err(WledError::ConfigError(m)) => assert_eq!(m, "Unsupported method: DELETE"),
        other => panic!("unexpected {:?}", other),
    }
}

#[test]
fn cache_is_valid_for_an_hour() {
    let c = CachedList::new(vec!["Solid".to_string(), "Blink".to_string()], 1_000);
    assert_eq!(c.names(), &vec!["Solid".to_string(), "Blink".to_string()]);
    assert!(c.is_valid(1_000));
    assert!(c.is_valid(1_000 + 3_599_999));
    assert!(!c.is_valid(1_000 + 3_600_000));
    assert!(c.is_valid(0));
}

#[test]
fn cache_cell_serves_only_fresh_lists() {
    let empty: Option<CachedList> = None;
    assert!(fresh_names(&empty, 5).is_none());
    let cell = Some(CachedList::new(vec!["Default".to_string()], 10));
    assert_eq!(fresh_names(&cell, 10 + 3_599_999), Some(&vec!["Default".to_string()]));
    assert!(fresh_names(&cell, 10 + 3_600_000).is_none());
}

#[test]
fn http_layer_errors_map_to_network_with_their_text() {
    let e = reqwest::Client::new().get("not a url").build().unwrap_err();
    assert!(!e.is_timeout());
    let client = WledClient::builder("192.168.1.5").device_name("porch").build().unwrap();
    match client.map_err(&e) {
        WledError::Network { device, source } => {
            assert_eq!(device, "porch");
            assert_eq!(source, e.to_string());
        }
        other => panic!("unexpected {:?}", other),
    }
}
