use cameraman::plate::{
    correct_district, finish_plate, levenshtein_distance, normalize_digits, try_validate_plate,
    validate_plate,
};

#[test]
fn test_normalize_digits() {
    assert_eq!(normalize_digits("12-3456"), "১২-৩৪৫৬");
    assert_eq!(normalize_digits("ABC 987"), "ABC ৯৮৭");
}

#[test]
fn test_levenshtein_distance() {
    assert_eq!(levenshtein_distance("ঢাকা", "ঢাকা"), 0);
    assert_eq!(levenshtein_distance("ঢাকা", "ডাকা"), 1);
    assert_eq!(levenshtein_distance("ঢাকা", "সিলেট"), 5);
}

#[test]
fn test_correct_district() {
    assert_eq!(correct_district("ঢাকা"), Some("ঢাকা"));
    assert_eq!(correct_district("ডাকা"), Some("ঢাকা")); // Spelling tolerance
    assert_eq!(correct_district("চট্টগ্রাম"), Some("চট্ট")); // Normalization
    assert_eq!(correct_district("চট্ট"), Some("চট্ট"));
}

#[test]
fn test_validate_plate_success() {
    let text = "LICENSE_PLATE:\nঢাকা মেট্রো ঘ\n১২-৩৪৫৬\n\nCONTEXT: Black sedan";
    let res = validate_plate(text).unwrap();
    assert_eq!(res.district, "ঢাকা");
    assert!(res.metro);
    assert_eq!(res.class_letter, 'ঘ');
    assert_eq!(res.plate_number, "১২-৩৪৫৬");

    let text_no_metro = "LICENSE_PLATE:\nসিলেট হ\n১১-২২৩৩";
    let res_no_metro = validate_plate(text_no_metro).unwrap();
    assert_eq!(res_no_metro.district, "সিলেট");
    assert!(!res_no_metro.metro);
    assert_eq!(res_no_metro.class_letter, 'হ');
    assert_eq!(res_no_metro.plate_number, "১১-২২৩৩");
}

#[test]
fn test_validate_plate_noisy_and_english() {
    let text = "Plate identified:\nডাকা মেট্রো ঘ\n12-3456\nVehicle: Car";
    let res = validate_plate(text).unwrap();
    assert_eq!(res.district, "ঢাকা");
    assert!(res.metro);
    assert_eq!(res.class_letter, 'ঘ');
    assert_eq!(res.plate_number, "১২-৩৪৫৬");
}

#[test]
fn test_validate_plate_merged() {
    let text = "ঢাকামেট্রোঘ\n১২-৩৪৫৬";
    let res = validate_plate(text).unwrap();
    assert_eq!(res.district, "ঢাকা");
    assert!(res.metro);
    assert_eq!(res.class_letter, 'ঘ');
    assert_eq!(res.plate_number, "১২-৩৪৫৬");
}

#[test]
fn normalize_digits_keeps_other_characters_and_is_idempotent() {
    assert_eq!(normalize_digits(""), "");
    assert_eq!(normalize_digits("০1২3"), "০১২৩");
    let once = normalize_digits("Dhaka 0123456789");
    assert_eq!(once, "Dhaka ০১২৩৪৫৬৭৮৯");
    assert_eq!(normalize_digits(&once), once);
}

#[test]
fn levenshtein_is_symmetric_and_bounded() {
    assert_eq!(levenshtein_distance("", ""), 0);
    assert_eq!(levenshtein_distance("", "abc"), 3);
    assert_eq!(levenshtein_distance("kitten", "sitting"), 3);
    assert_eq!(levenshtein_distance("sitting", "kitten"), 3);
    assert_eq!(levenshtein_distance("flaw", "lawn"), 2);
    assert!(levenshtein_distance("abcd", "x") <= 4);
    assert!(levenshtein_distance("abcd", "x") >= 3);
    // triangle inequality on a concrete triple
    let (a, b, c) = ("ঢাকা", "ডাকা", "ডাকাত");
    assert!(levenshtein_distance(a, c) <= levenshtein_distance(a, b) + levenshtein_distance(b, c));
    assert_eq!(levenshtein_distance(a, c), 2);
}

#[test]
fn correct_district_maps_variants_and_rejects_far_names() {
    assert_eq!(correct_district("রাজবাড়ি"), Some("রাজবাড়ী"));
    assert_eq!(correct_district("ব্রাহ্মণবাড়ীয়া"), Some("ব্রাহ্মণবাড়িয়া"));
    assert_eq!(correct_district("সিলেট"), Some("সিলেট"));
    assert_eq!(correct_district("ফেক"), None);
    assert_eq!(correct_district(""), None);
    // correcting a corrected name gives it back
    let d = correct_district("ডাকা").unwrap();
    assert_eq!(correct_district(d), Some(d));
}

#[test]
fn validate_plate_reports_missing_lines() {
    assert_eq!(
        validate_plate("no plate here").unwrap_err(),
        "Could not find valid license plate bottom line (XX-XXXX in Bengali digits)"
    );
    assert_eq!(
        validate_plate("১২-৩৪৫৬").unwrap_err(),
        "Could not find valid license plate top line (District, Class Letter, optional Metro)"
    );
    assert_eq!(
        validate_plate("ঢাকা মেট্রো\n১২-৩৪৫৬").unwrap_err(),
        "Could not find valid license plate top line (District, Class Letter, optional Metro)"
    );
}

#[test]
fn validate_plate_formats_the_plate() {
    let res = validate_plate("ঢাকা মেট্রো ঘ\n১২ — ৩৪৫৬").unwrap();
    assert_eq!(res.top_line, "ঢাকা মেট্রো ঘ");
    assert_eq!(res.bottom_line, "১২-৩৪৫৬");
    assert_eq!(res.plate_number, "১২-৩৪৫৬");
    assert_eq!(res.raw_text, "ঢাকা মেট্রো ঘ\n১২ — ৩৪৫৬");

    let res = validate_plate("চট্টগ্রাম খ\n১১ ২২৩৩").unwrap();
    assert_eq!(res.top_line, "চট্ট খ");
    assert_eq!(res.district, "চট্ট");
    assert!(!res.metro);
}

#[test]
fn validate_plate_reads_glued_metro_word() {
    let res = validate_plate("ঢাকা মেট্রোগ\n১২-৩৪৫৬").unwrap();
    assert_eq!(res.district, "ঢাকা");
    assert!(res.metro);
    assert_eq!(res.class_letter, 'গ');

    let res = validate_plate("ঢাকামেট্রো গ\n১২-৩৪৫৬").unwrap();
    assert_eq!(res.district, "ঢাকা");
    assert!(res.metro);
    assert_eq!(res.class_letter, 'গ');
}

#[test]
fn validate_plate_ignores_digit_script() {
    let a = validate_plate("সিলেট হ\n11-2233").unwrap();
    let b = validate_plate(&normalize_digits("সিলেট হ\n11-2233")).unwrap();
    assert_eq!(a.plate_number, b.plate_number);
    assert_eq!(a.top_line, b.top_line);
    assert_eq!(a.district, b.district);
}

#[test]
fn try_validate_plate_flags_a_cut_character() {
    // a merged token whose district prefix would end inside a character
    assert_eq!(try_validate_plate("aঢাকা\n১২-৩৪৫৬"), None);
    assert!(try_validate_plate("ঢাকা ঘ\n১২-৩৪৫৬").unwrap().is_ok());
}

#[test]
fn finish_plate_uses_the_given_bottom_line() {
    let res = finish_plate("ঢাকা ঘ\nwhatever", 1, "১২", "৩৪৫৬").unwrap().unwrap();
    assert_eq!(res.bottom_line, "১২-৩৪৫৬");
    assert_eq!(res.top_line, "ঢাকা ঘ");
    let err = finish_plate("ঢাকা ঘ", 0, "১২", "৩৪৫৬").unwrap().unwrap_err();
    assert_eq!(err, "Could not find valid license plate top line (District, Class Letter, optional Metro)");
}

#[test]
fn merged_top_lines_read_like_spaced_ones() {
    for (district, class) in [("ঢাকা", 'ঘ'), ("সিলেট", 'হ'), ("চট্ট", 'খ'), ("রাজবাড়ী", 'ক'), ("গোপালগঞ্জ", 'ম')] {
        let spaced = validate_plate(&format!("{} মেট্রো {}\n১২-৩৪৫৬", district, class)).unwrap();
        let merged = validate_plate(&format!("{}মেট্রো{}\n১২-৩৪৫৬", district, class)).unwrap();
        assert_eq!(merged.district, spaced.district);
        assert_eq!(merged.top_line, spaced.top_line);
        assert!(merged.metro && spaced.metro);
        assert_eq!(merged.class_letter, class);
        assert_eq!(merged.plate_number, spaced.plate_number);
    }
    // The merged "চট্টগ্রাম" first matches "চট্ট", so its remainder reads as a class letter.
    let merged = validate_plate("চট্টগ্রামমেট্রোঘ\n১২-৩৪৫৬").unwrap();
    assert_eq!(merged.district, "চট্ট");
    assert!(!merged.metro);
    assert_eq!(merged.class_letter, 'গ');
}

#[test]
fn bottom_lines_take_whitespace_and_one_dash() {
    for text in ["ঢাকা মেট্রো ঘ\n১২ - ৩৪৫৬", "ঢাকা মেট্রো ঘ\n১২ ৩৪৫৬", "ঢাকা মেট্রো ঘ\n১২—৩৪৫৬", "ঢাকা মেট্রো ঘ\nNo. ১২–৩৪৫৬৭"] {
        let p = validate_plate(text).unwrap();
        assert_eq!(p.plate_number, "১২-৩৪৫৬");
    }
    assert!(validate_plate("ঢাকা মেট্রো ঘ\n১২--৩৪৫৬").is_err());
    assert!(validate_plate("ঢাকা মেট্রো ঘ\n১২৩৪৫৬").is_err());
    // The first match of the line is taken.
    assert_eq!(validate_plate("ঢাকা মেট্রো ঘ\n১১-২২৩৩ ৪৪-৫৫৬৬").unwrap().plate_number, "১১-২২৩৩");
}

#[test]
fn english_lines_around_the_plate_are_skipped() {
    let p = validate_plate("LICENSE PLATE\nঢাকা মেট্রো ঘ\n১২-৩৪৫৬\nCar").unwrap();
    assert_eq!(p.district, "ঢাকা");
    assert_eq!(p.class_letter, 'ঘ');
}
