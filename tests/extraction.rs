use venue_enrichment::extraction::{
    clean_phone_number, content_preview, extract_meta_tag, extract_with_css_selector,
    extract_with_regex, extract_with_text_search, filter_and_normalize, html_preview,
    merge_structured, still_missing, wants_structured, DataExtractor, ExtractionError,
    MergePolicy,
};
use venue_enrichment::field_map::FieldMap;
use venue_enrichment::response::ScrapingInstruction;

fn map(pairs: &[(&str, &str)]) -> FieldMap {
    let mut m = FieldMap::new();
    for (k, v) in pairs {
        m.insert(k.to_string(), v.to_string());
    }
    m
}

fn instruction(field: &str, method: &str, pattern: &str) -> ScrapingInstruction {
    ScrapingInstruction {
        field: field.to_string(),
        method: method.to_string(),
        pattern: pattern.to_string(),
        priority: 1,
        reasoning: "r".to_string(),
    }
}

#[test]
fn test_data_extractor_email() {
    let extractor = DataExtractor::new();
    let html = r#"<html><body>Contact us at info@venue.com</body></html>"#;
    let data = extractor.extract_basic_data(html);

    assert_eq!(data.get("email"), Some(&"info@venue.com".to_string()));
}

#[test]
fn test_data_extractor_phone() {
    let extractor = DataExtractor::new();
    let html = r#"<html><body>Call us at (555) 123-4567</body></html>"#;
    let data = extractor.extract_basic_data(html);

    assert!(data.contains_key("phone"));
}

#[test]
fn basic_data_reads_social_links_and_meta_tags() {
    let extractor = DataExtractor::new();
    let html = r#"<html><head><meta property="og:description" content=" The best room "><meta name="description" content="fallback"><meta property="og:image" content="https://hall.com/logo.png"></head><body>See https://www.facebook.com/thehall and https://x.com/the_hall and https://instagram.com/the.hall</body></html>"#;
    let data = extractor.extract_basic_data(html);
    assert_eq!(data.get("description"), Some(&"The best room".to_string()));
    assert_eq!(data.get("logo_url"), Some(&"https://hall.com/logo.png".to_string()));
    assert_eq!(data.get("facebook_url"), Some(&"https://www.facebook.com/thehall".to_string()));
    assert_eq!(data.get("twitter_url"), Some(&"https://x.com/the_hall".to_string()));
    assert_eq!(data.get("instagram_url"), Some(&"https://instagram.com/the.hall".to_string()));
    assert!(!data.contains_key("email"));
}

#[test]
fn meta_tag_falls_back_to_lower_case_name() {
    let html = r#"<html><head><meta name="description" content="Lower"></head></html>"#;
    assert_eq!(extract_meta_tag(html, "DESCRIPTION"), Some("Lower".to_string()));
    assert_eq!(extract_meta_tag(html, "keywords"), None);
}

#[test]
fn regex_errors_and_matches() {
    assert_eq!(extract_with_regex("abc 123", "[0-9]+"), Ok(Some("123".to_string())));
    assert_eq!(extract_with_regex("abc", "[0-9]+"), Ok(None));
    assert_eq!(extract_with_regex("abc", "(unclosed"), Err(ExtractionError::BadPattern));
}

#[test]
fn css_selector_text() {
    let html = "<html><body><p class='c'>  Call 555  </p><p class='e'> </p></body></html>";
    assert_eq!(extract_with_css_selector(html, "p.c"), Ok(Some("Call 555".to_string())));
    assert_eq!(extract_with_css_selector(html, "p.e"), Ok(None));
    assert_eq!(extract_with_css_selector(html, "h1"), Ok(None));
    assert_eq!(extract_with_css_selector(html, "p[[["), Err(ExtractionError::BadSelector));
}

#[test]
fn text_search_finds_line() {
    let text = "Welcome\n  Box office: CALL 555-0100 \nBye";
    assert_eq!(extract_with_text_search(text, "call"), Some("Box office: CALL 555-0100".to_string()));
    assert_eq!(extract_with_text_search(text, "fax"), None);
}

#[test]
fn phone_cleaning() {
    assert_eq!(clean_phone_number("  ( 555 )  123-4567 "), "(555) 123-4567");
    assert_eq!(clean_phone_number(" 12345 "), " 12345 ");
}

#[test]
fn instructions_run_by_method() {
    let extractor = DataExtractor::new();
    let html = "<html><head><meta name='author' content='Hall Co'></head><body><h1>The Hall</h1>\nTickets: box@hall.com\n</body></html>";
    let ins = vec![
        instruction("email", "regex", "[a-z]+@[a-z]+\\.com"),
        instruction("description", "css_selector", "h1"),
        instruction("ideal_performer_profile", "meta_tag", "author"),
        instruction("phone", "text_search", "tickets"),
        instruction("website", "xpath", "//a"),
        instruction("logo_url", "llm_extract", "x"),
    ];
    let m = extractor.extract_with_instructions(html, &ins).unwrap();
    assert_eq!(m.get("email"), Some(&"box@hall.com".to_string()));
    assert_eq!(m.get("description"), Some(&"The Hall".to_string()));
    assert_eq!(m.get("ideal_performer_profile"), Some(&"Hall Co".to_string()));
    assert_eq!(m.get("phone"), Some(&"Tickets: box@hall.com".to_string()));
    assert_eq!(m.len(), 4);
}

#[test]
fn bad_instruction_fails_attempt() {
    let extractor = DataExtractor::new();
    let ins = vec![instruction("email", "regex", "x"), instruction("phone", "regex", "(")];
    assert_eq!(
        extractor.extract_with_instructions("x", &ins).err(),
        Some(ExtractionError::BadPattern)
    );
}

#[test]
fn field_filters_reject_implausible_values() {
    let found = map(&[
        ("email", "bad"),
        ("phone", "12345"),
        ("website", "ftp://x.com"),
        ("description", "   "),
    ]);
    let kept = filter_and_normalize(&found, "https://hall.com/contact");
    assert_eq!(kept.len(), 0);
}

#[test]
fn field_filters_keep_and_normalize() {
    let found = map(&[
        ("email", " info@hall.com "),
        ("phone", "(555) 123-4567"),
        ("website", "https://hall.com"),
        ("logo_url", "https://cdn.hall.com/logo.png"),
        ("facebook_url", "not a url"),
        ("description", "Live music"),
    ]);
    let kept = filter_and_normalize(&found, "https://hall.com/contact");
    assert_eq!(kept.get("email"), Some(&"info@hall.com".to_string()));
    assert_eq!(kept.get("phone"), Some(&"(555) 123-4567".to_string()));
    assert_eq!(kept.get("website"), Some(&"https://hall.com".to_string()));
    assert_eq!(kept.get("logo_url"), Some(&"https://cdn.hall.com/logo.png".to_string()));
    assert!(!kept.contains_key("facebook_url"));
    assert_eq!(kept.get("description"), Some(&"Live music".to_string()));
}

#[test]
fn merge_policies() {
    let found = map(&[("email", "a@hall.com"), ("phone", "5551234567")]);
    let ai = map(&[("email", "b@hall.com"), ("website", "https://hall.com"), ("description", "d")]);
    let replaced = merge_structured(&found, &ai, MergePolicy::ReplaceWhenLarger);
    assert_eq!(replaced.len(), 3);
    assert!(!replaced.contains_key("phone"));
    let merged = merge_structured(&found, &ai, MergePolicy::AlwaysMerge);
    assert_eq!(merged.len(), 4);
    assert_eq!(merged.get("email"), Some(&"b@hall.com".to_string()));
    assert_eq!(merged.get("phone"), Some(&"5551234567".to_string()));
    let small = map(&[("email", "c@hall.com")]);
    let tie = merge_structured(&found, &small, MergePolicy::ReplaceWhenLarger);
    assert_eq!(tie.len(), 2);
    assert_eq!(tie.get("email"), Some(&"c@hall.com".to_string()));
}

#[test]
fn still_missing_and_structured_trigger() {
    let missing = vec!["email".to_string(), "phone".to_string(), "website".to_string()];
    let found = map(&[("phone", "5551234567")]);
    assert_eq!(still_missing(&missing, &found), vec!["email", "website"]);
    assert!(!wants_structured(&found, 2));
    assert!(wants_structured(&found, 3));
    assert!(wants_structured(&FieldMap::new(), 0));
}

#[test]
fn previews() {
    let long = "é".repeat(5001);
    let p = html_preview(&long);
    assert!(p.ends_with("...[truncated]"));
    assert_eq!(p.chars().count(), 5000 + 14);
    assert_eq!(html_preview("short"), "short");
    assert_eq!(content_preview(&"a".repeat(1500)).len(), 1000);
    assert_eq!(content_preview("abc"), "abc");
}
