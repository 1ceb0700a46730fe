use venue_enrichment::ranking::{filter_blocked, rank_candidates, sort_ranked, RankedSource, SearchResult};
use venue_enrichment::search::{build_search_request, classify_search_status, SearchFailure};
use venue_enrichment::selection::{select_sources, source_infos, sources_to_scrape, SelectionError};
use venue_enrichment::urls::{is_blocked_host, is_blocked_url, normalize_url, validate_url, UrlError};
use venue_enrichment::venue::VenueInput;

fn result(url: &str) -> SearchResult {
    SearchResult {
        id: None,
        url: url.to_string(),
        title: None,
        text: None,
        published_date: None,
        author: None,
        summary: None,
        image: None,
        favicon: None,
    }
}

fn ranked(url: &str, score: i64) -> RankedSource {
    RankedSource { result: result(url), score }
}

#[test]
fn test_is_blocked_url() {
    let blocklist = vec!["facebook.com".to_string(), "twitter.com".to_string()];

    assert!(is_blocked_url("https://facebook.com/venue", &blocklist));
    assert!(is_blocked_url("https://www.facebook.com/venue", &blocklist));
    assert!(!is_blocked_url("https://example.com", &blocklist));
}

#[test]
fn blocklist_matches_subdomains_not_substrings() {
    let blocklist = vec!["facebook.com".to_string()];
    assert!(is_blocked_host("sub.facebook.com", &blocklist));
    assert!(is_blocked_host("facebook.com", &blocklist));
    assert!(!is_blocked_host("facebook.com.evil.com", &blocklist));
    assert!(!is_blocked_host("notfacebook.com", &blocklist));
    assert!(is_blocked_url("https://sub.facebook.com/page", &blocklist));
    assert!(!is_blocked_url("https://facebook.com.evil.com/page", &blocklist));
    assert!(!is_blocked_url("not a url", &blocklist));
}

#[test]
fn filter_keeps_order() {
    let rs = vec![result("https://a.com"), result("https://m.facebook.com/x"), result("https://b.com")];
    let kept = filter_blocked(&rs, &vec!["facebook.com".to_string()]);
    let urls: Vec<&str> = kept.iter().map(|r| r.url.as_str()).collect();
    assert_eq!(urls, vec!["https://a.com", "https://b.com"]);
}

#[test]
fn ranking_sorts_by_score_descending() {
    let v = vec![ranked("A", 900_000), ranked("B", 950_000), ranked("C", 500_000)];
    let s = sort_ranked(v);
    let urls: Vec<&str> = s.iter().map(|r| r.result.url.as_str()).collect();
    assert_eq!(urls, vec!["B", "A", "C"]);
}

#[test]
fn ranking_sort_is_stable() {
    let v = vec![ranked("A", 5), ranked("B", 7), ranked("C", 5), ranked("D", 7)];
    let s = sort_ranked(v);
    let urls: Vec<&str> = s.iter().map(|r| r.result.url.as_str()).collect();
    assert_eq!(urls, vec!["B", "D", "A", "C"]);
}

#[test]
fn ranking_response_with_one_incomplete_block() {
    let candidates = vec![result("https://a.com"), result("https://b.com")];
    let text = "<source>\n<url>https://a.com</url>\n<score>0.7</score>\n<reasoning>ok</reasoning>\n</source>\n<source>\n<url>https://b.com</url>\n<reasoning>missing score</reasoning>\n</source>";
    let r = rank_candidates(&candidates, text);
    assert_eq!(r.len(), 1);
    assert_eq!(r[0].result.url, "https://a.com");
    assert_eq!(r[0].score, 700_000);
}

#[test]
fn ranking_drops_unknown_urls_and_orders() {
    let candidates = vec![result("https://a.com"), result("https://b.com")];
    let text = "<source>\n<url>https://a.com</url>\n<score>0.2</score>\n</source>\n<source>\n<url>https://zzz.com</url>\n<score>0.99</score>\n</source>\n<source>\n<url>https://b.com</url>\n<score>0.6</score>\n</source>";
    let r = rank_candidates(&candidates, text);
    let urls: Vec<&str> = r.iter().map(|x| x.result.url.as_str()).collect();
    assert_eq!(urls, vec!["https://b.com", "https://a.com"]);
}

#[test]
fn test_validate_url() {
    assert!(validate_url("https://example.com"));
    assert!(validate_url("http://venue.com/contact"));
    assert!(!validate_url("not-a-url"));
}

#[test]
fn test_normalize_url() {
    assert_eq!(normalize_url("https://example.com", None).unwrap(), "https://example.com");

    assert_eq!(normalize_url("example.com", None).unwrap(), "https://example.com");

    assert_eq!(
        normalize_url("/contact", Some("https://example.com")).unwrap(),
        "https://example.com/contact"
    );
}

#[test]
fn normalize_scheme_relative_and_errors() {
    assert_eq!(normalize_url("//cdn.x.com/y", None).unwrap(), "https://cdn.x.com/y");
    assert_eq!(normalize_url("/contact", None), Err(UrlError::RelativeWithoutBase));
    assert_eq!(normalize_url("/contact", Some("not a url")), Err(UrlError::CannotJoin));
    assert_eq!(
        normalize_url("/a/b", Some("https://example.com/x/y")).unwrap(),
        "https://example.com/a/b"
    );
}

#[test]
fn selection_reads_urls_or_fails() {
    let ok = select_sources("<source>https://a.com</source>\n<source>https://b.com</source>").unwrap();
    assert_eq!(ok, vec!["https://a.com", "https://b.com"]);
    assert_eq!(select_sources("I cannot decide"), Err(SelectionError::NoSourcesListed));
}

#[test]
fn at_most_three_sources_scraped() {
    let sel: Vec<String> = (0..5).map(|i| format!("https://s{}.com", i)).collect();
    assert_eq!(sources_to_scrape(&sel), vec!["https://s0.com", "https://s1.com", "https://s2.com"]);
    assert_eq!(sources_to_scrape(&sel[..1].to_vec()), vec!["https://s0.com"]);
}

#[test]
fn source_infos_show_top_five() {
    let mut v: Vec<RankedSource> = (0..7).map(|i| ranked(&format!("https://s{}.com", i), 10 - i)).collect();
    v[0].result.title = Some("Hall".to_string());
    v[0].result.text = Some("x".repeat(250));
    v[1].result.text = Some("short".to_string());
    let infos = source_infos(&v);
    assert_eq!(infos.len(), 5);
    assert_eq!(infos[0].title, "Hall");
    assert_eq!(infos[1].title, "No title");
    assert_eq!(infos[0].text_preview, Some(format!("{}...", "x".repeat(200))));
    assert_eq!(infos[1].text_preview, Some("short".to_string()));
    assert_eq!(infos[2].text_preview, None);
    assert_eq!(infos[4].score, 6);
}

#[test]
fn search_request_for_venue() {
    let with_context = VenueInput { name: "The Hall".to_string(), context: Some("Austin TX".to_string()) };
    let r = build_search_request(&with_context);
    assert_eq!(r.query, "music venue concert hall \"The Hall Austin TX\" contact information");
    assert_eq!(r.search_type.as_deref(), Some("neural"));
    assert_eq!(r.category.as_deref(), Some("company"));
    assert_eq!(r.num_results, Some(10));
    assert_eq!(r.context, Some(true));
    assert_eq!(r.moderation, Some(true));
    let bare = VenueInput { name: "The Hall".to_string(), context: None };
    assert_eq!(build_search_request(&bare).query, "music venue concert hall \"The Hall\" contact information");
}

#[test]
fn search_status_classes() {
    assert_eq!(classify_search_status(401), SearchFailure::Unauthorized);
    assert_eq!(classify_search_status(403), SearchFailure::Forbidden);
    assert_eq!(classify_search_status(429), SearchFailure::RateLimited);
    assert_eq!(classify_search_status(400), SearchFailure::BadRequest);
    assert_eq!(classify_search_status(503), SearchFailure::ServerError);
    assert_eq!(classify_search_status(404), SearchFailure::Other);
}

#[test]
fn absolute_links_of_any_scheme_stay() {
    assert_eq!(normalize_url("mailto:box@hall.com", None).unwrap(), "mailto:box@hall.com");
    assert_eq!(
        normalize_url("ftp://x.com/a", Some("https://hall.com")).unwrap(),
        "ftp://x.com/a"
    );
}
