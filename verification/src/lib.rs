//! Lightweight process orchestration for local projects: configuration
//! model and validation, service planning, hook placeholders, listings,
//! runtime event formatting and the dashboard state machine.

pub mod text;
pub mod cli;
pub mod error;
pub mod lex;
pub mod name_map;
pub mod paths;
pub mod config;
pub mod placeholders;
pub mod graph;
pub mod planning;
pub mod executables;
pub mod run_request;
pub mod listing;
pub mod presets;
pub mod runtime_state;
pub mod events;
pub mod management;
pub mod hook_run;
pub mod stop;
pub mod process;
pub mod restart;
pub mod single_run;
pub mod validation;
pub mod dashboard;
pub mod watch;
pub mod watch_runtime;
pub mod file_log;
pub mod start;
pub mod output;
