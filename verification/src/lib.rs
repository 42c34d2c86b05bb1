//! Document model, processing pipeline and rendering for converting the text
//! of PDF pages into Markdown, HTML and JSON.
pub mod text;
pub mod schema;
pub mod document;
pub mod providers;
pub mod error;
pub mod config;
pub mod context;
pub mod job;
pub mod processors;
pub mod json;
pub mod renderers;
pub mod builder;
pub mod predictors;
pub mod converter;
pub mod app_state;
pub mod diff;
pub mod feedback;
pub mod ui;
pub mod jobs;
pub mod laws;
pub mod format_laws;
