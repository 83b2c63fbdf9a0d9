pub mod cli;
pub mod config;
pub mod engine;
pub mod event;
pub mod knowledge;
pub mod parser;
pub mod report;
pub mod sandbox;
pub mod template;
pub mod tools;
pub mod types;

pub use self::config::{default_report_template, report_placeholders};
pub use self::types::AppConfig;
