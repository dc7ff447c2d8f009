//! Verified core of the deadass game-event companion: event model, trigger
//! configuration, event diffing, gating and the small parsers around them.

pub mod event;
pub mod text;
pub mod trigger;
pub mod shock;
pub mod config;
pub mod monitor;
pub mod poller;
pub mod dedup;
pub mod haptics;
pub mod offsets;
pub mod schema;
pub mod game;
pub mod updater;
pub mod openshock;
pub mod toys;
pub mod ui;
pub mod pipeline;
pub mod bridge;
pub mod sender;
pub mod mem;
pub mod discovery;
pub mod config_watch;
pub mod commands;
pub mod log_tail;
pub mod dispatch;
pub mod injector;
pub mod debug_log;
