//! The rules behind a server-authoritative AI chat service.

pub mod addresses;
pub mod agent;
pub mod agent_events;
pub mod anthropic_stream;
pub mod auth;
pub mod compaction;
pub mod config;
pub mod content;
pub mod conversation;
pub mod crypto;
pub mod decimal;
pub mod dictionary;
pub mod dictionary_rows;
pub mod error;
pub mod json;
pub mod letters;
pub mod models;
pub mod names;
pub mod pages;
pub mod payloads;
pub mod picking;
pub mod provider_config;
pub mod provider_errors;
pub mod provider_stream;
pub mod providers;
pub mod replies;
pub mod request_shape;
pub mod respond;
pub mod search;
pub mod stream;
pub mod text;
pub mod thinking;
pub mod timestamps;
pub mod turns;
pub mod web_calls;
pub mod web_search;
pub mod web_tools;
