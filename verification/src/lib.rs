//! Profile management for Codex CLI accounts: saved logins, their usage, the
//! ranking that picks the next one, and the messages around them.
pub mod auth;
pub mod cli;
pub mod common;
pub mod config;
pub mod desktop;
pub mod everycode;
pub mod ide_reload;
pub mod identity;
pub mod listing;
pub mod migrate;
pub mod num;
pub mod outcomes;
pub mod priority;
pub mod priority_group;
pub mod priority_table;
pub mod profile_store;
pub mod relay;
pub mod requirements;
pub mod service;
pub mod strmap;
pub mod text;
pub mod ui;
pub mod updates;
pub mod usage;
pub mod usage_order;

pub use auth::{
    extract_email_and_plan, format_plan, is_api_key_profile, is_free_plan, is_profile_ready,
    profile_error, read_tokens, require_identity, token_account_id, tokens_from_api_key, AuthFile,
    Tokens,
};
