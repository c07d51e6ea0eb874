//! Verified core of the Mahakala agent: access control, full-text search,
//! command handling, authentication, auditing and their supporting text logic.

pub mod keyed;
pub mod json;
pub mod error;
pub mod text;
pub mod agent;
pub mod clock;
pub mod rbac;
pub mod cli;
pub mod constants;
pub mod semantic_memory;
pub mod wechat;
pub mod auth;
pub mod audit;
pub mod sentences;
pub mod postings;
pub mod fts_search;
pub mod store;
pub mod serverless;
pub mod memory_prompt;
pub mod community_skills;
pub mod i18n;
pub mod config;
pub mod delegation;
pub mod plugins;
pub mod skills;
pub mod terminal;
pub mod multiagent;
pub mod cron;
pub mod workspace;
pub mod gateways;
pub mod gateway;
pub mod mcp;
pub mod voice;
pub mod image;
pub mod browser;
pub mod upload;
pub mod learning;
pub mod memory;
pub mod honcho;
pub mod rl_environment;
pub mod tools;
