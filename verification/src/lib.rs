use vstd::prelude::*;

pub mod text;
pub mod error;
mod ext;
pub mod level;
pub mod filter;
pub mod record;
pub mod rustlog;
pub mod journald;
pub mod rolling;
pub mod str;
pub mod kv;
pub mod layout;
pub mod diagnostic;
pub mod append_async;
pub mod logger;
pub mod starter_log;
pub mod gcl;
pub mod json;
pub mod text_layout;
pub mod span_event;
pub mod bridge_log;
pub mod task_local;
