use venue_enrichment::accounts::{BookingStatus, Environment, PerformerCategory, TicketRange};
use venue_enrichment::config::{request_headers, AgentConfig, Blocklist, ScrapingConfig};
use venue_enrichment::extraction::{DataExtractor, MergePolicy};
use venue_enrichment::llm::{
    build_messages, first_choice_text, next_step, AttemptOutcome, LLMChoice, LLMMessage,
    LLMResponse, LlmError, RetryStep,
};
use venue_enrichment::pipeline::{Action, CallFailed, Event, RunSettings, Stage, StageError, VenueRun};
use venue_enrichment::ranking::SearchResult;
use venue_enrichment::venue::VenueInput;

fn settings() -> RunSettings {
    RunSettings {
        extractor: DataExtractor::new(),
        blocklist: Blocklist::default_blocklist().domains,
        policy: MergePolicy::ReplaceWhenLarger,
    }
}

fn result(url: &str) -> SearchResult {
    SearchResult {
        id: None,
        url: url.to_string(),
        title: Some("T".to_string()),
        text: None,
        published_date: None,
        author: None,
        summary: None,
        image: None,
        favicon: None,
    }
}

fn input() -> VenueInput {
    VenueInput { name: "Test Venue".to_string(), context: None }
}

#[test]
fn empty_search_emits_bare_venue() {
    let (mut run, first) = VenueRun::start(&input());
    assert!(matches!(first, Action::Search(_)));
    let a = run.step(Event::SearchDone(Ok(vec![])), &settings());
    assert!(matches!(a, Action::Emit(Ok(()))));
    assert_eq!(run.stage, Stage::Skipped);
    assert_eq!(run.venue.name, "Test Venue");
    assert_eq!(run.venue.missing_fields().len(), 9);
    assert_eq!(run.venue.provenance.as_ref().unwrap().len(), 0);
}

#[test]
fn failed_search_drops_venue() {
    let (mut run, _) = VenueRun::start(&input());
    let a = run.step(Event::SearchDone(Err(CallFailed)), &settings());
    assert!(matches!(a, Action::Drop(StageError::SearchFailed)));
    assert_eq!(run.stage, Stage::Skipped);
}

#[test]
fn all_blocked_results_emit_bare_venue() {
    let (mut run, _) = VenueRun::start(&input());
    let a = run.step(Event::SearchDone(Ok(vec![result("https://www.facebook.com/hall")])), &settings());
    assert!(matches!(a, Action::Emit(_)));
    assert_eq!(run.stage, Stage::Skipped);
}

#[test]
fn degenerate_selection_drops_venue() {
    let s = settings();
    let (mut run, _) = VenueRun::start(&input());
    let a = run.step(Event::SearchDone(Ok(vec![result("https://hall.com")])), &s);
    assert!(matches!(a, Action::Rank { .. }));
    let a = run.step(
        Event::RankDone(Ok("<source>\n<url>https://hall.com</url>\n<score>0.9</score>\n</source>".to_string())),
        &s,
    );
    match a {
        Action::Select { sources, missing, .. } => {
            assert_eq!(sources.len(), 1);
            assert_eq!(missing.len(), 9);
        }
        _ => panic!("expected a selection request"),
    }
    let a = run.step(Event::SelectDone(Ok("no idea".to_string())), &s);
    assert!(matches!(a, Action::Drop(StageError::NoSourcesSelected)));
}

#[test]
fn full_run_fills_fields_from_sources() {
    let s = settings();
    let (mut run, _) = VenueRun::start(&input());
    run.step(Event::SearchDone(Ok(vec![result("https://hall.com"), result("https://other.com")])), &s);
    run.step(
        Event::RankDone(Ok("<source>\n<url>https://hall.com</url>\n<score>0.9</score>\n</source>\n<source>\n<url>https://other.com</url>\n<score>0.3</score>\n</source>".to_string())),
        &s,
    );
    let a = run.step(
        Event::SelectDone(Ok("<source>https://hall.com</source>\n<source>https://other.com</source>".to_string())),
        &s,
    );
    match a {
        Action::Fetch { url, pause_ms } => {
            assert_eq!(url, "https://hall.com");
            assert_eq!(pause_ms, 0);
        }
        _ => panic!("expected a fetch"),
    }
    let page = "<html><body>Write to info@hall.com or call (555) 123-4567</body></html>".to_string();
    let a = run.step(Event::PageFetched(Ok(page)), &s);
    assert!(matches!(a, Action::AskInstructions { .. }));
    let a = run.step(Event::InstructionsDone(Err(CallFailed)), &s);
    assert!(matches!(a, Action::AskStructured { .. }));
    let a = run.step(
        Event::StructuredDone(Ok("<description>Live music</description>\n<email>other@hall.com</email>".to_string())),
        &s,
    );
    match a {
        Action::Fetch { url, pause_ms } => {
            assert_eq!(url, "https://other.com");
            assert_eq!(pause_ms, 500);
        }
        _ => panic!("expected the second fetch"),
    }
    assert_eq!(run.stage, Stage::Scraping(1));
    assert_eq!(run.venue.email, Some("other@hall.com".to_string()));
    assert_eq!(run.venue.phone, Some("(555) 123-4567".to_string()));
    assert_eq!(run.venue.description, Some("Live music".to_string()));
    let a = run.step(Event::PageFetched(Err(CallFailed)), &s);
    assert!(matches!(a, Action::Emit(Ok(()))));
    assert_eq!(run.stage, Stage::Done);
    assert_eq!(
        run.venue.provenance.as_ref().unwrap().get("email"),
        Some(&"https://hall.com".to_string())
    );
}

#[test]
fn out_of_turn_event_does_nothing() {
    let (mut run, _) = VenueRun::start(&input());
    let a = run.step(Event::RankDone(Ok(String::new())), &settings());
    assert!(matches!(a, Action::Nothing));
    assert_eq!(run.stage, Stage::Init);
}

#[test]
fn three_transport_failures_end_the_call() {
    assert!(matches!(next_step(0, AttemptOutcome::Transport), RetryStep::RetryAfter(2)));
    assert!(matches!(next_step(1, AttemptOutcome::Transport), RetryStep::RetryAfter(4)));
    assert!(matches!(next_step(2, AttemptOutcome::Transport), RetryStep::Fail(LlmError::Exhausted)));
}

#[test]
fn error_status_is_retried_but_bad_body_is_not() {
    assert!(matches!(next_step(0, AttemptOutcome::Status(503)), RetryStep::RetryAfter(2)));
    assert!(matches!(next_step(0, AttemptOutcome::Malformed), RetryStep::Fail(LlmError::MalformedBody)));
    assert!(matches!(next_step(1, AttemptOutcome::Empty), RetryStep::Fail(LlmError::NoChoices)));
    match next_step(1, AttemptOutcome::Completed("ok".to_string())) {
        RetryStep::Done(t) => assert_eq!(t, "ok"),
        _ => panic!("expected the completion"),
    }
}

#[test]
fn messages_and_first_choice() {
    let m = build_messages("Rank these");
    assert_eq!(m.len(), 2);
    assert_eq!(m[0].role, "system");
    assert_eq!(m[1].role, "user");
    assert_eq!(m[1].content, "Rank these");
    let resp = LLMResponse {
        choices: vec![LLMChoice {
            message: LLMMessage { role: "assistant".to_string(), content: "<x/>".to_string() },
            finish_reason: None,
            index: 0,
        }],
        usage: None,
    };
    assert_eq!(first_choice_text(&resp), Ok("<x/>".to_string()));
    let empty = LLMResponse { choices: vec![], usage: None };
    assert_eq!(first_choice_text(&empty), Err(LlmError::NoChoices));
}

#[test]
fn defaults() {
    let b = Blocklist::default_blocklist();
    assert_eq!(b.domains[0], "facebook.com");
    assert_eq!(b.domains.len(), 6);
    let sc = ScrapingConfig::default_scraping();
    assert_eq!(sc.user_agents.len(), 3);
    assert_eq!(sc.user_agent_at(1), &sc.user_agents[1]);
    assert_eq!(sc.user_agent_at(9), &sc.user_agents[0]);
    assert!(sc.user_agents.contains(sc.choose_user_agent()));
    let h = request_headers(&sc.user_agents[0]);
    assert_eq!(h[0].0, "User-Agent");
    assert_eq!(h[5].1, "keep-alive");
    let a = AgentConfig::default_agent();
    assert_eq!((a.retry_attempts, a.retry_delay_seconds), (3, 2));
}

#[test]
fn environments_and_categories() {
    assert_eq!(Environment::Stage.as_str(), "stage");
    assert_eq!(Environment::Production.as_str(), "production");
    assert_eq!(Environment::parse("PRODUCTION"), Some(Environment::Production));
    assert_eq!(Environment::parse("dev"), None);
    assert_eq!(
        PerformerCategory::HometownHero.ticket_price_range(),
        TicketRange { min: 2000, max: 4000 }
    );
    assert_eq!(
        PerformerCategory::default().ticket_price_range(),
        TicketRange { min: 0, max: 1000 }
    );
    assert_eq!(BookingStatus::default(), BookingStatus::Confirmed);
}
