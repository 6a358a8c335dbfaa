//! Wyvern CLI library: extension registry, argv matching, template
//! expansion, skill catalog, near-miss diagnostics and structured errors.

pub mod text;
pub mod ids;
pub mod json;
pub mod registry;
pub mod errors;
pub mod extends;
pub mod loader;
pub mod matching;
pub mod envelope;
pub mod emit;
pub mod template;
pub mod skill_args;
pub mod catalog;
pub mod expand;
pub mod diagnostics;
pub mod commands;
pub mod frontmatter;
pub mod wizard;
pub mod preexec;
pub mod workflow;
pub mod cli;
pub mod allowlist;
pub mod invocation;
pub mod page_walk;
pub mod viewer;
pub mod share_resolve;
pub mod host_report;
pub mod wizard_paths;
pub mod examples;
pub mod json_text;
pub mod chain;
