use cameraman::config::Config;
use cameraman::error::AppError;
use cameraman::event::{event_from_analysis, plate_fields};
use cameraman::payload::{
    decode_camera_image, field_role, payload_kind, require_image, resolve_camera_id, strip_data_uri,
    FieldRole, PayloadKind,
};
use cameraman::plate::validate_plate;
use cameraman::provider::{
    compose_cctv_prompt, gemini_image_data, kind_of_lowercase, minimax_image_url, module_key_text,
    prompt_instructions, prompt_modules, provider_for_config, schema_modules, provider_kind, reply_text, select_provider, upstream_status_error, MockProvider, PromptModule, ProviderChoice,
    ProviderKind,
};
use cameraman::store::AiConfig;
use cameraman::text::{lines_trimmed, split_words, trim_chars};

fn config_with(provider: &str, gemini: Option<&str>, minimax: Option<&str>) -> Config {
    Config::from_env_values(
        None,
        None,
        Some(provider.to_string()),
        gemini.map(|s| s.to_string()),
        minimax.map(|s| s.to_string()),
        None,
        None,
    )
}

#[test]
fn configuration_defaults_and_port_parsing() {
    let c = Config::from_env_values(None, None, None, None, None, None, None);
    assert_eq!(c.host, "0.0.0.0");
    assert_eq!(c.port, 8080);
    assert_eq!(c.ai_provider, "gemini");
    assert_eq!(c.upload_dir, "./uploads");
    assert_eq!(c.database_url, None);
    let port = |p: &str| {
        Config::from_env_values(None, Some(p.to_string()), None, None, None, None, None).port
    };
    assert_eq!(port("3000"), 3000);
    assert_eq!(port("+81"), 81);
    assert_eq!(port("65535"), 65535);
    assert_eq!(port("65536"), 8080);
    assert_eq!(port("-1"), 8080);
    assert_eq!(port(""), 8080);
    assert_eq!(port("80a"), 8080);
    assert_eq!(port("+"), 8080);
    assert_eq!(port("0065535"), 65535);
    assert_eq!(port("99999999999999999999"), 8080);
    assert_eq!(port(" 80"), 8080);
    assert_eq!(port("٣"), 8080);
    let c = Config::from_env_values(
        Some("127.0.0.1".to_string()),
        None,
        Some("mock".to_string()),
        None,
        None,
        Some("/tmp/up".to_string()),
        Some("postgres://db".to_string()),
    );
    assert_eq!(c.host, "127.0.0.1");
    assert_eq!(c.upload_dir, "/tmp/up");
    assert_eq!(c.database_url.as_deref(), Some("postgres://db"));
}

#[test]
fn errors_have_messages_and_statuses() {
    let cases = vec![
        (AppError::Config("x".to_string()), "Configuration error: x", 500),
        (AppError::Io("x".to_string()), "IO error: x", 500),
        (AppError::Multipart("x".to_string()), "Multipart error: x", 400),
        (AppError::Network("x".to_string()), "Network error: x", 502),
        (AppError::Serialization("x".to_string()), "Serialization error: x", 500),
        (AppError::AiProvider("x".to_string()), "AI Provider error: x", 502),
        (AppError::InvalidPayload("x".to_string()), "Invalid payload error: x", 400),
        (AppError::Database("x".to_string()), "Database error: x", 500),
    ];
    for (e, msg, status) in cases {
        assert_eq!(e.message(), msg);
        assert_eq!(e.status_code(), status);
        assert_eq!(e.detail_text(), "x");
    }
}

#[test]
fn providers_are_selected_by_name() {
    assert_eq!(provider_kind("GEMINI"), ProviderKind::Gemini);
    assert_eq!(provider_kind("MiniMax"), ProviderKind::Minimax);
    assert_eq!(kind_of_lowercase("mock"), ProviderKind::Mock);
    assert_eq!(kind_of_lowercase("Mock"), ProviderKind::Other);
    assert_eq!(
        select_provider(&config_with("Gemini", Some("g"), None), None),
        Ok(ProviderChoice::Gemini { api_key: "g".to_string() })
    );
    assert_eq!(
        select_provider(&config_with("gemini", None, None), None),
        Err(AppError::Config("GEMINI_API_KEY environment variable is not set".to_string()))
    );
    assert_eq!(
        select_provider(&config_with("minimax", None, Some("m")), None),
        Ok(ProviderChoice::Minimax { api_key: "m".to_string(), model_name: "MiniMax-M3".to_string() })
    );
    assert_eq!(
        select_provider(&config_with("minimax", None, Some("m")), Some("abab".to_string())),
        Ok(ProviderChoice::Minimax { api_key: "m".to_string(), model_name: "abab".to_string() })
    );
    assert_eq!(
        select_provider(&config_with("minimax", None, None), None),
        Err(AppError::Config("MINIMAX_API_KEY environment variable is not set".to_string()))
    );
    assert_eq!(select_provider(&config_with("MOCK", None, None), None), Ok(ProviderChoice::Mock));
    assert_eq!(
        select_provider(&config_with("OpenAI", None, None), None),
        Err(AppError::Config(
            "Unsupported AI provider: 'openai'. Valid options are 'gemini', 'minimax', 'mock'.".to_string()
        ))
    );
}

#[test]
fn stored_configs_pick_the_provider() {
    let cfg = |provider: &str, key: Option<&str>, model: Option<&str>| AiConfig {
        id: 1,
        name: "c".to_string(),
        provider_type: provider.to_string(),
        api_key: key.map(|s| s.to_string()),
        model_name: model.map(|s| s.to_string()),
        is_active: true,
        created_at: None,
    };
    assert_eq!(provider_for_config(None), None);
    assert_eq!(
        provider_for_config(Some(cfg("Gemini", None, None))),
        Some(ProviderChoice::Gemini { api_key: "".to_string() })
    );
    assert_eq!(
        provider_for_config(Some(cfg("minimax", Some("k"), None))),
        Some(ProviderChoice::Minimax { api_key: "k".to_string(), model_name: "MiniMax-M3".to_string() })
    );
    assert_eq!(provider_for_config(Some(cfg("mock", None, None))), Some(ProviderChoice::Mock));
    assert_eq!(provider_for_config(Some(cfg("other", None, None))), None);
}

#[test]
fn the_mock_provider_reads_a_valid_plate() {
    let reply = MockProvider::new().analyze_image(&[1, 2, 3]).unwrap();
    assert_eq!(reply, "ঢাকা মেট্রো ঘ\n১২-৩৪৫৬");
    let plate = validate_plate(&reply).unwrap();
    assert_eq!(plate.district, "ঢাকা");
    assert_eq!(plate.plate_number, "১২-৩৪৫৬");
}

#[test]
fn the_prompt_covers_the_enabled_modules() {
    assert_eq!(prompt_modules(&vec![]), vec![PromptModule::Anpr]);
    assert_eq!(
        prompt_modules(&vec!["PPE_Detection".to_string(), "nonsense".to_string(), "heat_map".to_string()]),
        vec![PromptModule::PpeDetection, PromptModule::HeatMap]
    );
    assert_eq!(module_key_text(PromptModule::SmdPlus), "smd_plus");
    let instructions = prompt_instructions(&vec![PromptModule::CrowdDistribution]);
    assert_eq!(
        instructions,
        "- **crowd_distribution**: Analyze crowd density and distribution in the area.\n"
    );
    let prompt = compose_cctv_prompt("I\n", "{}");
    assert!(prompt.starts_with("You are an advanced CCTV AI vision processor. Analyze the provided image according to these active modules:\n\nI\n\nYou MUST respond ONLY"));
    assert!(prompt.ends_with("The JSON must match this schema:\n\n{}"));
}

#[test]
fn the_prompt_lines_follow_the_enabled_names() {
    let modules = prompt_modules(&vec!["ANPR".to_string(), "Heat_Map".to_string(), "anpr".to_string()]);
    assert_eq!(modules, vec![PromptModule::Anpr, PromptModule::HeatMap, PromptModule::Anpr]);
    let lines = prompt_instructions(&modules);
    let parts: Vec<&str> = lines.split_inclusive('\n').collect();
    assert_eq!(parts.len(), 3);
    assert!(parts[0].starts_with("- **anpr**:"));
    assert!(parts[1].starts_with("- **heat_map**:"));
    assert!(parts[2].starts_with("- **anpr**:"));
    let default_lines = prompt_instructions(&prompt_modules(&vec![]));
    assert!(default_lines.starts_with("- **anpr**: Extract the Bangladeshi vehicle license plate"));
    assert_eq!(default_lines.matches("- **").count(), 1);
}

#[test]
fn webhook_requests_are_read_by_content_type() {
    assert_eq!(payload_kind("application/json; charset=utf-8"), Ok(PayloadKind::Json));
    assert_eq!(payload_kind("multipart/form-data; boundary=x"), Ok(PayloadKind::Multipart));
    assert_eq!(
        payload_kind("text/plain"),
        Err(AppError::InvalidPayload(
            "Unsupported Content-Type. Must be application/json or multipart/form-data".to_string()
        ))
    );
    assert_eq!(field_role("image"), FieldRole::Image);
    assert_eq!(field_role("file"), FieldRole::Image);
    assert_eq!(field_role("camera_id"), FieldRole::CameraId);
    assert_eq!(field_role(""), FieldRole::Ignored);
    assert_eq!(require_image(Some(vec![1])), Ok(vec![1]));
    assert_eq!(
        require_image(None),
        Err(AppError::InvalidPayload("Missing 'image' or 'file' field in multipart data".to_string()))
    );
    assert_eq!(resolve_camera_id(None), "default-cam");
    assert_eq!(resolve_camera_id(Some("cam-7".to_string())), "cam-7");
}

#[test]
fn inline_images_are_decoded() {
    assert_eq!(strip_data_uri("data:image/jpeg;base64,AAEC"), "AAEC");
    assert_eq!(strip_data_uri("AAEC"), "AAEC");
    assert_eq!(decode_camera_image("data:image/jpeg;base64,AAEC").unwrap(), vec![0u8, 1, 2]);
    assert_eq!(decode_camera_image("  aGk  ").unwrap(), b"hi".to_vec());
    assert_eq!(decode_camera_image("aGk=").unwrap(), b"hi".to_vec());
    match decode_camera_image("***") {
        Err(AppError::InvalidPayload(m)) => assert!(m.starts_with("Failed to decode base64 image: ")),
        other => panic!("unexpected {:?}", other),
    }
}

#[test]
fn sent_images_decode_to_their_bytes() {
    let bytes: Vec<u8> = (0u8..=255).chain([7u8, 0, 200]).collect();
    let data = gemini_image_data(&bytes);
    assert_eq!(data.len() % 4, 0);
    assert_eq!(decode_camera_image(&data).unwrap(), bytes);
    assert_eq!(decode_camera_image(data.trim_end_matches('=')).unwrap(), bytes);
    assert_eq!(decode_camera_image(&format!(" \n\t{}  ", data)).unwrap(), bytes);
    let url = minimax_image_url(&bytes);
    assert_eq!(url, format!("data:image/jpeg;base64,{}", data));
    assert_eq!(decode_camera_image(&format!("  {}\n", url)).unwrap(), bytes);
    assert_eq!(gemini_image_data(b"hi"), "aGk=");
    assert_eq!(decode_camera_image(&gemini_image_data(b"")).unwrap(), Vec::<u8>::new());
}

#[test]
fn schema_keys_name_each_module_once() {
    let modules = prompt_modules(&vec!["anpr".to_string(), "HEAT_MAP".to_string(), "ANPR".to_string()]);
    assert_eq!(schema_modules(&modules), vec![PromptModule::Anpr, PromptModule::HeatMap]);
    assert_eq!(schema_modules(&vec![]), Vec::<PromptModule>::new());
}

#[test]
fn events_record_the_plate_reading() {
    let e = event_from_analysis(
        7,
        "cam".to_string(),
        "7.jpg".to_string(),
        "ঢাকা মেট্রো ঘ\n১২-৩৪৫৬".to_string(),
        Some(3),
    )
    .unwrap();
    assert_eq!(e.id, 7);
    assert_eq!(e.camera_id.as_deref(), Some("cam"));
    assert_eq!(e.is_plate_valid, Some(true));
    assert_eq!(e.detected_plate_text.as_deref(), Some("ঢাকা মেট্রো ঘ\n১২-৩৪৫৬"));
    assert_eq!(e.vehicle_class.as_deref(), Some("ঘ"));
    assert_eq!(e.district.as_deref(), Some("ঢাকা"));
    assert_eq!(e.metro_prefix, Some(true));
    assert_eq!(e.plate_number.as_deref(), Some("১২-৩৪৫৬"));
    assert_eq!(e.created_at, Some(3));
    let e = event_from_analysis(8, "cam".to_string(), "8.jpg".to_string(), "nothing".to_string(), None)
        .unwrap();
    assert_eq!(e.is_plate_valid, Some(false));
    assert_eq!(e.plate_number, None);
    assert_eq!(e.raw_ai_text.as_deref(), Some("nothing"));
    assert!(event_from_analysis(9, "c".to_string(), "9.jpg".to_string(), "aঢাকা\n১২-৩৪৫৬".to_string(), None).is_none());
    let f = plate_fields(Err("no".to_string()));
    assert_eq!(f.is_valid, Some(false));
    assert_eq!(f.district, None);
}

#[test]
fn text_is_split_into_trimmed_lines_and_words() {
    let chars: Vec<char> = " a b \r\n\n c\n".chars().collect();
    let lines = lines_trimmed(&chars);
    let lines: Vec<String> = lines.iter().map(|l| l.iter().collect()).collect();
    assert_eq!(lines, vec!["a b".to_string(), "".to_string(), "c".to_string()]);
    let words = split_words(&" x\u{3000}yz  w ".chars().collect::<Vec<char>>());
    let words: Vec<String> = words.iter().map(|w| w.iter().collect()).collect();
    assert_eq!(words, vec!["x", "yz", "w"]);
    let t: String = trim_chars(&"\t hi \u{a0}".chars().collect::<Vec<char>>()).iter().collect();
    assert_eq!(t, "hi");
}

#[test]
fn provider_replies_and_failures() {
    assert_eq!(
        upstream_status_error("Gemini", "404 Not Found", "nope"),
        AppError::AiProvider("Gemini API returned error status 404 Not Found: nope".to_string())
    );
    assert_eq!(reply_text("Minimax", Some("ok".to_string())), Ok("ok".to_string()));
    assert_eq!(
        reply_text("Minimax", None),
        Err(AppError::AiProvider("Failed to parse response text from Minimax API response".to_string()))
    );
}
