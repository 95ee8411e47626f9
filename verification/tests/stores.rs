use cameraman::store::{
    activate_config, active_config, delete_camera, delete_config, events_newest_first, find_camera,
    is_masked, mask_config_key, mask_key, record_event, register_reporting_camera, resolve_api_key,
    save_camera, save_config, AiConfig, Camera, ProcessedEvent, EVENT_CACHE_LIMIT,
};

fn camera(id: &str, name: &str) -> Camera {
    Camera { id: id.to_string(), name: name.to_string(), location: None, created_at: Some(1) }
}

fn config(id: u128, key: Option<&str>, active: bool) -> AiConfig {
    AiConfig {
        id,
        name: format!("cfg {}", id),
        provider_type: "gemini".to_string(),
        api_key: key.map(|k| k.to_string()),
        model_name: None,
        is_active: active,
        created_at: Some(7),
    }
}

fn event(id: u128) -> ProcessedEvent {
    ProcessedEvent {
        id,
        camera_id: None,
        image_path: format!("{}.jpg", id),
        raw_ai_text: None,
        is_plate_valid: None,
        detected_plate_text: None,
        vehicle_class: None,
        district: None,
        metro_prefix: None,
        plate_number: None,
        created_at: None,
    }
}

#[test]
fn saving_a_camera_updates_or_registers_it() {
    let mut cams = vec![camera("a", "A"), camera("b", "B")];
    let mut updated = camera("b", "Gate");
    updated.location = Some("North".to_string());
    updated.created_at = Some(99);
    save_camera(&mut cams, updated);
    assert_eq!(cams.len(), 2);
    assert_eq!(cams[1].name, "Gate");
    assert_eq!(cams[1].location.as_deref(), Some("North"));
    assert_eq!(cams[1].created_at, Some(1)); // registration time is kept
    save_camera(&mut cams, camera("c", "C"));
    assert_eq!(cams.len(), 3);
    assert_eq!(find_camera(&cams, "c"), Some(2));
    assert_eq!(find_camera(&cams, "z"), None);
}

#[test]
fn deleting_a_camera_removes_it_only() {
    let mut cams = vec![camera("a", "A"), camera("b", "B"), camera("a", "A2")];
    delete_camera(&mut cams, "a");
    assert_eq!(cams.len(), 1);
    assert_eq!(cams[0].id, "b");
    delete_camera(&mut cams, "zz");
    assert_eq!(cams.len(), 1);
}

#[test]
fn a_reporting_camera_is_registered_once() {
    let mut cams = vec![camera("default-cam", "Default Camera")];
    register_reporting_camera(&mut cams, "gate-1", Some(5));
    assert_eq!(cams.len(), 2);
    assert_eq!(cams[1].name, "Auto Cam: gate-1");
    assert_eq!(cams[1].location, None);
    assert_eq!(cams[1].created_at, Some(5));
    register_reporting_camera(&mut cams, "gate-1", Some(6));
    assert_eq!(cams.len(), 2);
    register_reporting_camera(&mut cams, "default-cam", Some(6));
    assert_eq!(cams.len(), 2);
}

#[test]
fn activating_a_config_deactivates_the_others() {
    let mut cfgs = vec![config(1, None, true), config(2, None, false), config(3, None, false)];
    activate_config(&mut cfgs, 2);
    let active: Vec<bool> = cfgs.iter().map(|c| c.is_active).collect();
    assert_eq!(active, vec![false, true, false]);
    assert_eq!(active_config(&cfgs).unwrap().id, 2);
    activate_config(&mut cfgs, 42);
    assert!(active_config(&cfgs).is_none());
}

#[test]
fn saving_an_active_config_makes_it_the_one_used() {
    let mut cfgs = vec![config(1, Some("k1"), true), config(2, Some("k2"), false)];
    let mut new2 = config(2, Some("k2-new"), true);
    new2.name = "renamed".to_string();
    new2.created_at = Some(100);
    save_config(&mut cfgs, new2);
    assert_eq!(cfgs.len(), 2);
    assert!(!cfgs[0].is_active);
    let used = active_config(&cfgs).unwrap();
    assert_eq!(used.id, 2);
    assert_eq!(used.name, "renamed");
    assert_eq!(used.api_key.as_deref(), Some("k2-new"));
    assert_eq!(used.created_at, Some(7)); // creation time is kept
    save_config(&mut cfgs, config(3, None, false));
    assert_eq!(cfgs.len(), 3);
    assert_eq!(active_config(&cfgs).unwrap().id, 2);
}

#[test]
fn deleting_a_config_removes_it() {
    let mut cfgs = vec![config(1, None, true), config(2, None, false)];
    delete_config(&mut cfgs, 1);
    assert_eq!(cfgs.len(), 1);
    assert_eq!(cfgs[0].id, 2);
}

#[test]
fn keys_are_masked_for_display() {
    assert_eq!(mask_key(&"sk-1234567890".to_string()), "sk-123...[masked]");
    assert_eq!(mask_key(&"abcdef".to_string()), "...[masked]");
    assert_eq!(mask_key(&"".to_string()), "...[masked]");
    let mut c = config(1, Some("AIzaSyExample"), true);
    mask_config_key(&mut c);
    assert_eq!(c.api_key.as_deref(), Some("AIzaSy...[masked]"));
    let mut c = config(2, None, true);
    mask_config_key(&mut c);
    assert_eq!(c.api_key, None);
}

#[test]
fn masked_keys_keep_the_stored_key() {
    assert!(is_masked(&Some("abc...[masked]".to_string())));
    assert!(is_masked(&Some("****".to_string())));
    assert!(!is_masked(&Some("plain".to_string())));
    assert!(!is_masked(&None));
    let stored = vec![config(1, Some("secret-key-1"), true)];
    let shown = mask_key(&"secret-key-1".to_string());
    assert_eq!(resolve_api_key(Some(shown.clone()), 1, &stored).as_deref(), Some("secret-key-1"));
    // an unknown id keeps the submitted text
    assert_eq!(resolve_api_key(Some(shown.clone()), 9, &stored), Some(shown));
    assert_eq!(resolve_api_key(Some("new".to_string()), 1, &stored).as_deref(), Some("new"));
}

#[test]
fn the_event_log_keeps_the_newest_events() {
    let mut events: Vec<ProcessedEvent> = Vec::new();
    for i in 0..(EVENT_CACHE_LIMIT as u128 + 5) {
        record_event(&mut events, event(i));
        assert!(events.len() <= EVENT_CACHE_LIMIT);
        assert_eq!(events.last().unwrap().id, i);
    }
    assert_eq!(events.len(), EVENT_CACHE_LIMIT);
    assert_eq!(events[0].id, 5);
    let listed = events_newest_first(&events);
    assert_eq!(listed[0].id, EVENT_CACHE_LIMIT as u128 + 4);
    assert_eq!(listed[listed.len() - 1].id, 5);
}

#[test]
fn registration_times_keep_nanoseconds() {
    let mut cams: Vec<Camera> = Vec::new();
    let t: i128 = 1_700_000_000_123_456_789;
    register_reporting_camera(&mut cams, "gate-9", Some(t));
    assert_eq!(cams[0].created_at, Some(t));
    assert_eq!(cams[0].name, "Auto Cam: gate-9");
}
