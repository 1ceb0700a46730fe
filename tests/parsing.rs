use venue_enrichment::number::{parse_i32, parse_score};
use venue_enrichment::response::{
    parse_instructions, parse_listed_urls, parse_scored_sources, parse_tagged_fields,
};
use venue_enrichment::text::{chars_of, split_trimmed_lines};

fn cs(s: &str) -> Vec<char> {
    s.chars().collect()
}

#[test]
fn score_values() {
    assert_eq!(parse_score(&cs("0.95")), Some(950_000));
    assert_eq!(parse_score(&cs("1")), Some(1_000_000));
    assert_eq!(parse_score(&cs(".5")), Some(500_000));
    assert_eq!(parse_score(&cs("5.")), Some(5_000_000));
    assert_eq!(parse_score(&cs("-0.25")), Some(-250_000));
    assert_eq!(parse_score(&cs("+2.1234567")), Some(2_123_456));
    assert_eq!(parse_score(&cs("")), None);
    assert_eq!(parse_score(&cs(".")), None);
    assert_eq!(parse_score(&cs("high")), None);
    assert_eq!(parse_score(&cs("1.2.3")), None);
    assert_eq!(parse_score(&cs("10000000000000")), None);
}

#[test]
fn i32_values() {
    assert_eq!(parse_i32(&cs("42")), Some(42));
    assert_eq!(parse_i32(&cs("-7")), Some(-7));
    assert_eq!(parse_i32(&cs("+3")), Some(3));
    assert_eq!(parse_i32(&cs("2147483647")), Some(i32::MAX));
    assert_eq!(parse_i32(&cs("-2147483648")), Some(i32::MIN));
    assert_eq!(parse_i32(&cs("2147483648")), None);
    assert_eq!(parse_i32(&cs("-")), None);
    assert_eq!(parse_i32(&cs("1 2")), None);
}

#[test]
fn lines_are_trimmed() {
    let ls = split_trimmed_lines(&chars_of("  a \r\n\n b\n"));
    let got: Vec<String> = ls.iter().map(|l| l.iter().collect()).collect();
    assert_eq!(got, vec!["a", "", "b"]);
    assert!(split_trimmed_lines(&chars_of("")).is_empty());
}

#[test]
fn ranking_blocks_in_order() {
    let text = "<rankings>\n<source>\n<url>https://a.com</url>\n<score>0.9</score>\n<reasoning>Official site</reasoning>\n</source>\n<source>\n  <url> https://b.com </url>\n<score>0.4</score>\n</source>\n</rankings>";
    let r = parse_scored_sources(text);
    assert_eq!(r.len(), 2);
    assert_eq!(r[0].url, "https://a.com");
    assert_eq!(r[0].score, 900_000);
    assert_eq!(r[0].reasoning, Some("Official site".to_string()));
    assert_eq!(r[1].url, "https://b.com");
    assert_eq!(r[1].score, 400_000);
    assert_eq!(r[1].reasoning, None);
}

#[test]
fn ranking_block_missing_score_is_dropped() {
    let text = "<source>\n<url>https://a.com</url>\n<score>0.8</score>\n</source>\n<source>\n<url>https://b.com</url>\n<reasoning>no score</reasoning>\n</source>";
    let r = parse_scored_sources(text);
    assert_eq!(r.len(), 1);
    assert_eq!(r[0].url, "https://a.com");
}

#[test]
fn ranking_block_with_unreadable_score_is_dropped() {
    let text = "<source>\n<url>https://a.com</url>\n<score>very high</score>\n</source>";
    assert!(parse_scored_sources(text).is_empty());
}

#[test]
fn later_subtag_wins_within_block() {
    let text = "<source>\n<url>https://a.com</url>\n<url>https://c.com</url>\n<score>0.5</score>\n</source>";
    let r = parse_scored_sources(text);
    assert_eq!(r.len(), 1);
    assert_eq!(r[0].url, "https://c.com");
}

#[test]
fn unclosed_block_runs_to_end() {
    let text = "noise\n<source>\n<url>https://a.com</url>\nmore noise\n<score>1</score>";
    let r = parse_scored_sources(text);
    assert_eq!(r.len(), 1);
    assert_eq!(r[0].score, 1_000_000);
}

#[test]
fn instruction_blocks() {
    let text = "<instructions>\n<instruction>\n<field>email</field>\n<method>regex</method>\n<pattern>[a-z]+@[a-z]+\\.com</pattern>\n<priority>2</priority>\n<reasoning>Contact line</reasoning>\n</instruction>\n<instruction>\n<field>phone</field>\n<method>text_search</method>\n<pattern>Call</pattern>\n</instruction>\n<instruction>\n<field>logo_url</field>\n<pattern>img</pattern>\n</instruction>\n<instruction>\n<field>website</field>\n<method>xpath</method>\n<pattern>//a</pattern>\n<priority>-1</priority>\n</instruction>\n</instructions>";
    let r = parse_instructions(text);
    assert_eq!(r.len(), 3);
    assert_eq!(r[0].field, "email");
    assert_eq!(r[0].method, "regex");
    assert_eq!(r[0].pattern, "[a-z]+@[a-z]+\\.com");
    assert_eq!(r[0].priority, 2);
    assert_eq!(r[0].reasoning, "Contact line");
    assert_eq!(r[1].priority, 1);
    assert_eq!(r[1].reasoning, "No reasoning provided");
    assert_eq!(r[2].method, "xpath");
    assert_eq!(r[2].priority, u32::MAX);
}

#[test]
fn listed_urls() {
    let text = "<sources>\n<source>https://a.com</source>\n<source>  </source>\n  <source> https://b.com/contact </source>\n<source>https://c.com\n</sources>";
    assert_eq!(parse_listed_urls(text), vec!["https://a.com", "https://b.com/contact"]);
    assert!(parse_listed_urls("nothing here").is_empty());
}

#[test]
fn tagged_fields() {
    let text = "<venue_data>\n<email>info@hall.com</email>\n<phone> </phone>\n<description>A <b>great</b> room</description>\n</email>\n<website>https://hall.com</website>\n<email>booking@hall.com</email>\n<broken>value\n</venue_data>";
    let m = parse_tagged_fields(text);
    assert_eq!(m.get("email"), Some(&"booking@hall.com".to_string()));
    assert_eq!(m.get("description"), Some(&"A <b>great</b> room".to_string()));
    assert_eq!(m.get("website"), Some(&"https://hall.com".to_string()));
    assert!(!m.contains_key("phone"));
    assert!(!m.contains_key("broken"));
    assert!(!m.contains_key("venue_data"));
    assert_eq!(m.len(), 3);
}
