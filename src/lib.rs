//! Venue enrichment: the verified core of a pipeline that turns a bare venue
//! name into a structured record, by ranking web sources, reading tagged
//! model output and page content, and filtering what it extracts.
pub mod accounts;
pub mod config;
pub mod extraction;
pub mod field_map;
pub mod llm;
pub mod number;
pub mod pipeline;
pub mod prompts;
pub mod ranking;
pub mod response;
pub mod search;
pub mod selection;
pub mod text;
pub mod urls;
pub mod venue;
