use cameraman::legacy::{
    answer_text, gemini_key_configured, is_image_part, placeholder_ai_response, summarize_analysis, AiResponse,
    GeminiReply, ReplyCandidate, ReplyContent, ReplyPart,
};
use cameraman::plate_check::{legacy_plate_verdict, validate_bangla_license_plate};

#[test]
fn test_valid_plate() {
    assert!(validate_bangla_license_plate("ঢাকা মেট্রো-গ ১২-৩৪৫৬"));
    assert!(validate_bangla_license_plate("চট্ট মেট্রো-খ ১১-২২৩৩"));
}

#[test]
fn test_invalid_plate() {
    assert!(!validate_bangla_license_plate("ঢাকা মেট্রো-গ ১২-৩৪৫")); // 5 digits
    assert!(!validate_bangla_license_plate("ফেক মেট্রো-গ ১২-৩৪৫৬")); // invalid district
}

#[test]
fn legacy_check_needs_each_part() {
    assert!(!validate_bangla_license_plate(""));
    assert!(!validate_bangla_license_plate("   "));
    assert!(validate_bangla_license_plate("  ঢাকা মেট্রো-গ ১২৩৪৫৬  "));
    // class letter glued to the district is not separated
    assert!(!validate_bangla_license_plate("ঢাকাগ ১২-৩৪৫৬"));
    assert!(validate_bangla_license_plate("সিলেট হ\n১১-২২৩৩"));
}

#[test]
fn legacy_verdict_combines_the_searches() {
    assert!(legacy_plate_verdict(" ঢাকা x ", true, true));
    assert!(!legacy_plate_verdict(" ঢাকা x ", false, true));
    assert!(!legacy_plate_verdict("ফেক", true, true));
    assert!(!legacy_plate_verdict("   ", true, true));
}

#[test]
fn legacy_upload_decisions() {
    assert!(!gemini_key_configured(""));
    assert!(!gemini_key_configured("your_gemini_api_key"));
    assert!(gemini_key_configured("abc"));
    let p = placeholder_ai_response();
    assert_eq!(p.description, "Dummy AI Description (API Key not set)");
    assert_eq!(p.license_plate.as_deref(), Some("ঢাকা মেট্রো-গ ১২-৩৪৫৬"));
    assert!(is_image_part("image", ""));
    assert!(is_image_part("photo", "image/png"));
    assert!(!is_image_part("doc", "text/plain"));
    let (d, plate, valid) = summarize_analysis(Some(p));
    assert_eq!(d, "Dummy AI Description (API Key not set)");
    assert!(plate.is_some());
    assert!(valid);
    let (d, plate, valid) = summarize_analysis(Some(AiResponse { description: "car".to_string(), license_plate: None }));
    assert_eq!(d, "car");
    assert!(plate.is_none());
    assert!(!valid);
    let (d, plate, valid) = summarize_analysis(None);
    assert_eq!(d, "");
    assert!(plate.is_none() && !valid);
}

#[test]
fn the_answer_is_the_first_part_of_the_first_candidate() {
    let part = |t: Option<&str>| ReplyPart { text: t.map(|s| s.to_string()) };
    let reply = GeminiReply {
        candidates: Some(vec![
            ReplyCandidate {
                content: Some(ReplyContent { parts: Some(vec![part(Some("{\"description\":\"car\"}")), part(Some("other"))]) }),
            },
            ReplyCandidate { content: Some(ReplyContent { parts: Some(vec![part(Some("second"))]) }) },
        ]),
    };
    assert_eq!(answer_text(&reply), "{\"description\":\"car\"}");
    assert_eq!(answer_text(&GeminiReply { candidates: None }), "{}");
    assert_eq!(answer_text(&GeminiReply { candidates: Some(vec![]) }), "{}");
    let no_text = GeminiReply {
        candidates: Some(vec![ReplyCandidate { content: Some(ReplyContent { parts: Some(vec![part(None)]) }) }]),
    };
    assert_eq!(answer_text(&no_text), "{}");
    let no_parts = GeminiReply { candidates: Some(vec![ReplyCandidate { content: Some(ReplyContent { parts: None }) }]) };
    assert_eq!(answer_text(&no_parts), "{}");
    assert_eq!(answer_text(&GeminiReply { candidates: Some(vec![ReplyCandidate { content: None }]) }), "{}");
}
