use serde_json::Value;
use venue_enrichment::prompts::{PromptTemplate, TemplateEngine, TemplateError};

fn json(text: &str) -> Value {
    serde_json::from_str(text).unwrap()
}

#[test]
fn test_template_validation() {
    let template = PromptTemplate::new(
        "test".to_string(),
        "Hello {{ name }}!".to_string(),
        json(r#"{"type": "object", "properties": {"name": {"type": "string", "minLength": 1}}, "required": ["name"]}"#),
    );

    let valid_input = json(r#"{"name": "World"}"#);
    assert!(template.validate_input(&valid_input).is_ok());

    let invalid_input = json("{}");
    assert!(template.validate_input(&invalid_input).is_err());
}

#[test]
fn test_template_engine() {
    let mut engine = TemplateEngine::new();

    let template = PromptTemplate::new(
        "greeting".to_string(),
        "Hello {{ name }}!".to_string(),
        json(r#"{"type": "object", "properties": {"name": {"type": "string"}}, "required": ["name"]}"#),
    );

    engine.add_template(template).expect("Failed to add template");

    let result = engine
        .render_template("greeting", &json(r#"{"name": "World"}"#))
        .expect("Failed to render template");

    assert_eq!(result, "Hello World!");
}

#[test]
fn template_errors() {
    let mut engine = TemplateEngine::new();
    assert_eq!(engine.render_template("missing", &json("{}")), Err(TemplateError::NotFound));
    let broken = PromptTemplate::new("b".to_string(), "{% if %}".to_string(), json("{}"));
    assert_eq!(engine.add_template(broken), Err(TemplateError::Render));
    let strict = PromptTemplate::new(
        "s".to_string(),
        "{{ n }}".to_string(),
        json(r#"{"type": "object", "required": ["n"]}"#),
    );
    engine.add_template(strict).unwrap();
    assert_eq!(engine.render_template("s", &json("{}")), Err(TemplateError::InvalidInput));
    assert_eq!(engine.render_template("s", &json(r#"{"n": 3}"#)), Ok("3".to_string()));
}

#[test]
fn default_templates_register_and_check_input() {
    let mut engine = TemplateEngine::new();
    engine
        .load_default_templates(
            "Rank {{ venue_name }}".to_string(),
            "Find {{ missing_fields | join(', ') }}".to_string(),
            "Extract from {{ source_url }}".to_string(),
            "Choose for {{ venue_name }}".to_string(),
        )
        .unwrap();
    assert_eq!(
        engine.render_template("rank_sources", &json(r#"{"venue_name": "Hall", "search_results": "[]"}"#)),
        Ok("Rank Hall".to_string())
    );
    assert_eq!(
        engine.render_template("rank_sources", &json(r#"{"venue_name": "", "search_results": "[]"}"#)),
        Err(TemplateError::InvalidInput)
    );
    assert_eq!(
        engine.render_template(
            "scraping_instructions",
            &json(r#"{"venue_name": "Hall", "missing_fields": ["email", "phone"], "source_url": "https://hall.com"}"#)
        ),
        Ok("Find email, phone".to_string())
    );
    assert_eq!(
        engine.render_template(
            "structured_extraction",
            &json(r#"{"venue_name": "Hall", "source_url": "https://hall.com", "html_preview": "<p>", "target_fields": []}"#)
        ),
        Err(TemplateError::InvalidInput)
    );
}
