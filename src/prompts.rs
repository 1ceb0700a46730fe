//! Prompt templates: named Jinja sources, each with a JSON schema that its
//! input must meet before it is rendered. Each source is kept as text and
//! compiled again at every render, so no compiled form outlives its text.
use vstd::prelude::*;

verus! {

broadcast use vstd::string::group_string_axioms;

#[verifier::external_type_specification]
#[verifier::external_body]
pub struct ExJsonValue(serde_json::Value);

/// Whether `text` parses as JSON.
pub uninterp spec fn json_parses(text: Seq<char>) -> bool;

/// Whether the Jinja source compiles, blocks trimmed and left-stripped.
pub uninterp spec fn jinja_ok(source: Seq<char>) -> bool;

/// Relies on `jsonschema::validator_for` and `Validator::is_valid`: whether
/// `input` meets `schema`; a schema that does not compile admits nothing.
#[verifier::external_body]
fn schema_admits(schema: &serde_json::Value, input: &serde_json::Value) -> bool {
    match jsonschema::validator_for(schema) {
        Ok(v) => v.is_valid(input),
        Err(_) => false,
    }
}

/// Relies on `minijinja::Environment::template_from_str`, with blocks
/// trimmed and left-stripped: whether the source compiles.
#[verifier::external_body]
fn jinja_compiles(source: &str) -> (r: bool)
    ensures
        r == jinja_ok(source@),
{
    let mut env = minijinja::Environment::new();
    env.set_trim_blocks(true);
    env.set_lstrip_blocks(true);
    env.template_from_str(source).is_ok()
}

/// Relies on `minijinja::Environment::template_from_str` and
/// `Template::render`, with blocks trimmed and left-stripped: the rendered
/// text, or `None` where compiling or rendering fails.
#[verifier::external_body]
fn jinja_render(source: &str, input: &serde_json::Value) -> Option<String> {
    let mut env = minijinja::Environment::new();
    env.set_trim_blocks(true);
    env.set_lstrip_blocks(true);
    match env.template_from_str(source) {
        Ok(t) => t.render(minijinja::Value::from_serialize(input)).ok(),
        Err(_) => None,
    }
}

/// Relies on `serde_json::from_str`: the JSON value that `text` holds, if it parses.
#[verifier::external_body]
fn parse_json(text: &str) -> (r: Option<serde_json::Value>)
    ensures
        r is Some <==> json_parses(text@),
{
    serde_json::from_str(text).ok()
}

/// Why a prompt could not be had.
#[derive(Clone, Copy, Debug, PartialEq, Eq, Structural)]
pub enum TemplateError {
    /// No template has that name.
    NotFound,
    /// The input does not meet the template's schema.
    InvalidInput,
    /// The source does not compile, or rendering failed.
    Render,
    /// A schema text is not JSON.
    BadSchema,
}

/// A named template and the schema of its input.
#[derive(Debug)]
pub struct PromptTemplate {
    pub name: String,
    pub template: String,
    pub schema: serde_json::Value,
}

impl PromptTemplate {
    pub fn new(name: String, template: String, schema: serde_json::Value) -> (r: PromptTemplate)
        ensures
            r.name@ == name@,
            r.template@ == template@,
            r.schema == schema,
    {
        PromptTemplate { name, template, schema }
    }

    /// Checks `input` against the schema.
    pub fn validate_input(&self, input: &serde_json::Value) -> (r: Result<(), TemplateError>)
        ensures
            r is Err ==> r == Err::<(), TemplateError>(TemplateError::InvalidInput),
    {
        if schema_admits(&self.schema, input) {
            Ok(())
        } else {
            Err(TemplateError::InvalidInput)
        }
    }

    /// Renders the template on `input`, once it meets the schema.
    pub fn render(&self, input: &serde_json::Value) -> (r: Result<String, TemplateError>)
        ensures
            r is Err ==> r == Err::<String, TemplateError>(TemplateError::InvalidInput) || r
                == Err::<String, TemplateError>(TemplateError::Render),
    {
        match self.validate_input(input) {
            Err(e) => Err(e),
            Ok(()) => match jinja_render(self.template.as_str(), input) {
                Some(s) => Ok(s),
                None => Err(TemplateError::Render),
            },
        }
    }
}

/// The names of a sequence of templates.
pub open spec fn template_names(v: Seq<PromptTemplate>) -> Seq<Seq<char>> {
    v.map_values(|t: PromptTemplate| t.name@)
}

/// The registered templates, at most one per name.
pub struct TemplateEngine {
    templates: Vec<PromptTemplate>,
}

impl TemplateEngine {
    /// The names of the registered templates, in the order they came.
    pub closed spec fn names(&self) -> Seq<Seq<char>> {
        template_names(self.templates@)
    }

    /// An engine with no template.
    pub fn new() -> (r: TemplateEngine)
        ensures
            r.names() == Seq::<Seq<char>>::empty(),
    {
        let r = TemplateEngine { templates: Vec::new() };
        proof {
            assert(r.names() =~= Seq::<Seq<char>>::empty());
        }
        r
    }

    fn index_of(&self, name: &String) -> (r: Option<usize>)
        ensures
            r is Some ==> r->0 < self.names().len() && self.names()[r->0 as int] == name@,
            r is None ==> !self.names().contains(name@),
    {
        let mut i: usize = 0;
        while i < self.templates.len()
            invariant
                i <= self.templates.len(),
                self.names().len() == self.templates.len(),
                forall|j: int| 0 <= j < i ==> self.names()[j] != name@,
            decreases self.templates.len() - i,
        {
            proof {
                assert(self.names()[i as int] == self.templates@[i as int].name@);
            }
            if self.templates[i].name == *name {
                return Some(i);
            }
            i = i + 1;
        }
        None
    }

    /// Registers a template once its source compiles; one of the same name
    /// is replaced in its place.
    pub fn add_template(&mut self, template: PromptTemplate) -> (r: Result<(), TemplateError>)
        ensures
            r is Ok <==> jinja_ok(template.template@),
            r is Err ==> (r == Err::<(), TemplateError>(TemplateError::Render)
                && final(self).names() == old(self).names()),
            (r is Ok && old(self).names().contains(template.name@)) ==> (final(self).names()
                == old(self).names()),
            (r is Ok && !old(self).names().contains(template.name@)) ==> (final(self).names()
                == old(self).names().push(template.name@)),
    {
        if !jinja_compiles(template.template.as_str()) {
            return Err(TemplateError::Render);
        }
        let ghost name = template.name@;
        let ghost before = self.templates@;
        match self.index_of(&template.name) {
            Some(i) => {
                self.templates.set(i, template);
                proof {
                    assert(self.names() =~= template_names(before));
                }
            },
            None => {
                self.templates.push(template);
                proof {
                    assert(self.names() =~= template_names(before).push(name));
                }
            },
        }
        Ok(())
    }

    /// Renders the template named `name` on `input`: an unknown name is an
    /// error; otherwise the input must meet the schema, and the source render.
    pub fn render_template(&self, name: &str, input: &serde_json::Value) -> (r: Result<
        String,
        TemplateError,
    >)
        ensures
            !self.names().contains(name@) <==> r == Err::<String, TemplateError>(
                TemplateError::NotFound,
            ),
    {
        let key = String::from_str(name);
        match self.index_of(&key) {
            None => Err(TemplateError::NotFound),
            Some(i) => self.templates[i].render(input),
        }
    }

    /// Registers the pipeline's four prompts from their sources, in the
    /// order ranking, instructions, structured extraction, source choice.
    pub fn load_default_templates(
        &mut self,
        rank_sources: String,
        scraping_instructions: String,
        structured_extraction: String,
        best_sources: String,
    ) -> (r: Result<(), TemplateError>)
        ensures
            r is Ok <==> (json_parses(RANK_SOURCES_SCHEMA@) && json_parses(
                SCRAPING_INSTRUCTIONS_SCHEMA@,
            ) && json_parses(STRUCTURED_EXTRACTION_SCHEMA@) && json_parses(BEST_SOURCES_SCHEMA@)
                && jinja_ok(rank_sources@) && jinja_ok(scraping_instructions@) && jinja_ok(
                structured_extraction@,
            ) && jinja_ok(best_sources@)),
            r is Ok ==> final(self).names().contains("rank_sources"@),
            r is Ok ==> final(self).names().contains("scraping_instructions"@),
            r is Ok ==> final(self).names().contains("structured_extraction"@),
            r is Ok ==> final(self).names().contains("best_sources"@),
    {
        let s1 = match parse_json(RANK_SOURCES_SCHEMA) {
            Some(v) => v,
            None => {
                return Err(TemplateError::BadSchema);
            },
        };
        let s2 = match parse_json(SCRAPING_INSTRUCTIONS_SCHEMA) {
            Some(v) => v,
            None => {
                return Err(TemplateError::BadSchema);
            },
        };
        let s3 = match parse_json(STRUCTURED_EXTRACTION_SCHEMA) {
            Some(v) => v,
            None => {
                return Err(TemplateError::BadSchema);
            },
        };
        let s4 = match parse_json(BEST_SOURCES_SCHEMA) {
            Some(v) => v,
            None => {
                return Err(TemplateError::BadSchema);
            },
        };
        let ghost start = self.names();
        self.add_template(PromptTemplate::new(String::from_str("rank_sources"), rank_sources, s1))?;
        let ghost n1 = self.names();
        self.add_template(
            PromptTemplate::new(String::from_str("scraping_instructions"), scraping_instructions, s2),
        )?;
        let ghost n2 = self.names();
        self.add_template(
            PromptTemplate::new(String::from_str("structured_extraction"), structured_extraction, s3),
        )?;
        let ghost n3 = self.names();
        self.add_template(PromptTemplate::new(String::from_str("best_sources"), best_sources, s4))?;
        proof {
            assert(n1.contains("rank_sources"@)) by {
                if !start.contains("rank_sources"@) {
                    assert(n1[n1.len() - 1] == "rank_sources"@);
                }
            }
            assert(n2.contains("scraping_instructions"@)) by {
                if !n1.contains("scraping_instructions"@) {
                    assert(n2[n2.len() - 1] == "scraping_instructions"@);
                }
            }
            assert(n3.contains("structured_extraction"@)) by {
                if !n2.contains("structured_extraction"@) {
                    assert(n3[n3.len() - 1] == "structured_extraction"@);
                }
            }
            assert(self.names().contains("best_sources"@)) by {
                if !n3.contains("best_sources"@) {
                    assert(self.names()[self.names().len() - 1] == "best_sources"@);
                }
            }
            assert forall|n: Seq<char>| n1.contains(n) implies #[trigger] self.names().contains(n) by {
                let k = choose|k: int| 0 <= k < n1.len() && n1[k] == n;
                if !n1.contains("scraping_instructions"@) {
                    assert(n2[k] == n);
                } else {
                    assert(n2[k] == n);
                }
                if !n2.contains("structured_extraction"@) {
                    assert(n3[k] == n);
                } else {
                    assert(n3[k] == n);
                }
                assert(self.names()[k] == n);
            }
            assert forall|n: Seq<char>| n2.contains(n) implies #[trigger] self.names().contains(n) by {
                let k = choose|k: int| 0 <= k < n2.len() && n2[k] == n;
                assert(n3[k] == n);
                assert(self.names()[k] == n);
            }
            assert forall|n: Seq<char>| n3.contains(n) implies #[trigger] self.names().contains(n) by {
                let k = choose|k: int| 0 <= k < n3.len() && n3[k] == n;
                assert(self.names()[k] == n);
            }
        }
        Ok(())
    }
}

/// The input of the ranking prompt: the venue's name and its search results as JSON text.
pub const RANK_SOURCES_SCHEMA: &'static str = "{\"type\":\"object\",\"properties\":{\"venue_name\":{\"type\":\"string\",\"minLength\":1},\"search_results\":{\"type\":\"string\",\"minLength\":1}},\"required\":[\"venue_name\",\"search_results\"]}";

/// The input of the instructions prompt: the venue's name, the missing
/// fields (at least one), the page's URL and an optional preview.
pub const SCRAPING_INSTRUCTIONS_SCHEMA: &'static str = "{\"type\":\"object\",\"properties\":{\"venue_name\":{\"type\":\"string\",\"minLength\":1},\"missing_fields\":{\"type\":\"array\",\"items\":{\"type\":\"string\"},\"minItems\":1},\"source_url\":{\"type\":\"string\",\"format\":\"uri\"},\"content_preview\":{\"type\":[\"string\",\"null\"]}},\"required\":[\"venue_name\",\"missing_fields\",\"source_url\"]}";

/// The input of the structured-extraction prompt: the venue's name, the
/// page's URL, its preview and the target fields (at least one).
pub const STRUCTURED_EXTRACTION_SCHEMA: &'static str = "{\"type\":\"object\",\"properties\":{\"venue_name\":{\"type\":\"string\",\"minLength\":1},\"source_url\":{\"type\":\"string\",\"format\":\"uri\"},\"html_preview\":{\"type\":\"string\",\"minLength\":1},\"target_fields\":{\"type\":\"array\",\"items\":{\"type\":\"string\"},\"minItems\":1}},\"required\":[\"venue_name\",\"source_url\",\"html_preview\",\"target_fields\"]}";

/// The input of the source-choice prompt: the venue's name, what is shown of
/// the candidates as JSON text, and the missing fields.
pub const BEST_SOURCES_SCHEMA: &'static str = "{\"type\":\"object\",\"properties\":{\"venue_name\":{\"type\":\"string\",\"minLength\":1},\"sources_info\":{\"type\":\"string\",\"minLength\":1},\"missing_fields\":{\"type\":\"array\",\"items\":{\"type\":\"string\"}}},\"required\":[\"venue_name\",\"sources_info\",\"missing_fields\"]}";

} // verus!
