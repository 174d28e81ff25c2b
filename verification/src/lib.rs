//! Core library of the Crucible multi-agent review engine: finding
//! clustering and consensus, diff parsing, prompt construction, task packs and
//! report synthesis, each stated and proved with Verus.
pub mod text;
pub mod order;
pub mod config;
pub mod report;
pub mod reference;
pub mod pr_review;
pub mod progress;
pub mod coordinator;
pub mod tracker;
pub mod synthesis;
pub mod task_pack;
pub mod analysis;
pub mod context;
pub mod consensus;
pub mod plugin;
pub mod doctor;
pub mod cli_agent;
pub mod rounds;
pub mod summary;
pub mod plan;
pub mod builtin_packs;
pub mod review_report;
pub mod issue_list;
pub mod cli_args;
pub mod github;
pub mod event_log;
pub mod task_prompts;
pub mod answers;
pub mod paths;
pub mod transcript;
pub mod task_context;
pub mod agent_prompts;
pub mod hook;
pub mod pack_catalog;
pub mod env_expand;
pub mod precheck;
pub mod errors;
pub mod review_flow;
pub mod replies;
pub mod references;
pub mod syntax;
pub mod history;
