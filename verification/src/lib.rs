//! Verified core of an autonomous coding agent and its web console:
//! text utilities, conversation history management, failure analysis,
//! event buffers, analytics, API-key handling, VM queue policy and more.

pub mod text;
pub mod failure;
pub mod chat;
pub mod history;
pub mod protocol;
pub mod models;
pub mod patch;
pub mod prompts;
pub mod runner;
pub mod analytics;
pub mod buffers;
pub mod debug_log;
pub mod events;
pub mod api_key;
pub mod auth;
pub mod vm_policy;
pub mod vm;
pub mod vm_queue;
pub mod self_debug;
pub mod strategy;
pub mod vm_plans;
pub mod dispatch;
pub mod starter;
pub mod paths;
pub mod slug;
pub mod ui_cache;
pub mod languages;
pub mod session;
pub mod metrics;
pub mod vm_exec;
pub mod accounts;
pub mod account_actions;
pub mod console;
pub mod vm_health;
pub mod debug_packet;
pub mod session_loop;
pub mod vm_handlers;
