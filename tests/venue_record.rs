use venue_enrichment::field_map::FieldMap;
use venue_enrichment::pipeline::{dry_run_venue, summarize};
use venue_enrichment::venue::{Field, Venue, VenueInput, VenueProblem};

#[test]
fn main_test_venue_creation() {
    let venue = Venue::new("Test Venue".to_string());
    assert_eq!(venue.name, "Test Venue");
    assert!(!venue.is_complete());
}

#[test]
fn models_test_venue_creation() {
    let venue = Venue::new("Test Venue".to_string());
    assert_eq!(venue.name, "Test Venue");
    assert!(venue.description.is_none());
    assert!(venue.provenance.is_some());
}

#[test]
fn test_set_field_with_source() {
    let mut venue = Venue::new("Test Venue".to_string());
    venue.set_field_with_source("email", "test@example.com".to_string(), "website".to_string());

    assert_eq!(venue.email, Some("test@example.com".to_string()));
    assert_eq!(venue.provenance.unwrap().get("email"), Some(&"website".to_string()));
}

#[test]
fn test_missing_fields() {
    let venue = Venue::new("Test Venue".to_string());
    let missing = venue.missing_fields();
    assert!(!missing.is_empty());
    assert!(missing.contains(&"description".to_string()));
}

#[test]
fn test_venue_validation() {
    let venue = Venue::new("Test Venue".to_string());
    assert!(venue.validate().is_ok());

    let mut invalid_venue = venue.clone();
    invalid_venue.name = "".to_string();
    assert!(invalid_venue.validate().is_err());
}

#[test]
fn set_field_never_overwrites() {
    let mut venue = Venue::new("Hall".to_string());
    venue.set_field_with_source("phone", "555-123-4567".to_string(), "https://a.com".to_string());
    venue.set_field_with_source("phone", "999-999-9999".to_string(), "https://b.com".to_string());
    assert_eq!(venue.phone, Some("555-123-4567".to_string()));
    assert_eq!(
        venue.provenance.as_ref().unwrap().get("phone"),
        Some(&"https://a.com".to_string())
    );
}

#[test]
fn set_unknown_field_changes_nothing() {
    let mut venue = Venue::new("Hall".to_string());
    venue.set_field_with_source("address", "1 Main St".to_string(), "https://a.com".to_string());
    assert_eq!(venue.missing_fields().len(), 9);
    assert_eq!(venue.provenance.as_ref().unwrap().len(), 0);
}

#[test]
fn missing_fields_in_field_order() {
    let mut venue = Venue::new("Hall".to_string());
    venue.set_field_with_source("email", "a@b.com".to_string(), "s".to_string());
    venue.set_field_with_source("logo_url", "https://x.com/l.png".to_string(), "s".to_string());
    assert_eq!(
        venue.missing_fields(),
        vec![
            "description",
            "phone",
            "website",
            "facebook_url",
            "twitter_url",
            "instagram_url",
            "ideal_performer_profile"
        ]
    );
}

#[test]
fn validation_problems() {
    let mut v = Venue::new("  ".to_string());
    assert_eq!(v.validate(), Err(VenueProblem::EmptyName));
    v.name = "Hall".to_string();
    v.email = Some("a@b".to_string());
    assert_eq!(v.validate(), Err(VenueProblem::BadEmail));
    v.email = Some("a@b.c".to_string());
    assert_eq!(v.validate(), Ok(()));
    v.website = Some("ftp://x.com".to_string());
    assert_eq!(v.validate(), Err(VenueProblem::BadWebsite));
    v.website = Some("https://x.com".to_string());
    assert_eq!(v.validate(), Ok(()));
}

#[test]
fn fill_from_keeps_set_fields() {
    let mut venue = Venue::new("Hall".to_string());
    venue.set_field_with_source("email", "old@x.com".to_string(), "first".to_string());
    let mut found = FieldMap::new();
    found.insert("email".to_string(), "new@x.com".to_string());
    found.insert("phone".to_string(), "555 123 4567".to_string());
    found.insert("address".to_string(), "1 Main St".to_string());
    venue.fill_from(&found, "second");
    assert_eq!(venue.email, Some("old@x.com".to_string()));
    assert_eq!(venue.phone, Some("555 123 4567".to_string()));
    let p = venue.provenance.as_ref().unwrap();
    assert_eq!(p.get("email"), Some(&"first".to_string()));
    assert_eq!(p.get("phone"), Some(&"second".to_string()));
    assert_eq!(p.len(), 2);
}

#[test]
fn field_names_round_trip() {
    for i in 0..9 {
        let f = Field::at(i);
        assert_eq!(Field::from_name(&f.name()), Some(f));
    }
    assert_eq!(Field::from_name("address"), None);
}

#[test]
fn dry_run_sets_only_description() {
    let input = VenueInput { name: "Hall".to_string(), context: None };
    let v = dry_run_venue(&input);
    assert_eq!(v.description, Some("Mock description".to_string()));
    assert_eq!(v.missing_fields().len(), 8);
    assert_eq!(
        v.provenance.as_ref().unwrap().get("description"),
        Some(&"dry_run".to_string())
    );
}

#[test]
fn summary_counts() {
    let a = Venue::new("A".to_string());
    let mut b = Venue::new("B".to_string());
    b.set_field_with_source("description", "Live music".to_string(), "s".to_string());
    b.set_field_with_source("email", "b@b.com".to_string(), "s".to_string());
    assert_eq!(summarize(&vec![a, b]), (2, 1, 2));
}

#[test]
fn default_venue_is_empty() {
    let v = Venue::default();
    assert_eq!(v.name, "");
    assert_eq!(v.missing_fields().len(), 9);
}

#[test]
fn field_map_insert_replaces_in_place() {
    let mut m = FieldMap::new();
    m.insert("a".to_string(), "1".to_string());
    m.insert("b".to_string(), "2".to_string());
    m.insert("a".to_string(), "3".to_string());
    assert_eq!(m.len(), 2);
    assert_eq!(m.key_at(0), "a");
    assert_eq!(m.value_at(0), "3");
    assert_eq!(m.get("b"), Some(&"2".to_string()));
    assert!(!m.contains_key("c"));
    let mut n = FieldMap::new();
    n.insert("b".to_string(), "9".to_string());
    n.insert("c".to_string(), "4".to_string());
    m.extend(&n);
    assert_eq!(m.get("b"), Some(&"9".to_string()));
    assert_eq!(m.get("c"), Some(&"4".to_string()));
    assert_eq!(m.len(), 3);
}
