//! Account switching, check-in scheduling and usage bookkeeping for WorkBuddy
//! and CodeBuddy clients.
//!
//! Every function here works on plain values and states what it returns; file,
//! network, process and clock access stay with the caller.
pub mod text;
pub mod json;
pub mod numbers;
pub mod textmap;
pub mod paths;
pub mod clock;
pub mod variant;
pub mod account;
pub mod config;
pub mod auth_file;
pub mod log_scan;
pub mod limits;
pub mod export_import;
pub mod ids;
pub mod refresh;
pub mod oauth;
pub mod credit_usage;
pub mod statistics;
pub mod credits;
pub mod official_usage;
pub mod dedup;
pub mod checkin;
pub mod codebuddy_cli;
pub mod cli_process;
pub mod codebuddy_cn_ide;
pub mod store_laws;
pub mod token_laws;
pub mod base_laws;
pub mod client_laws;
pub mod limit_laws;
pub mod log_laws;
pub mod session_laws;
pub mod setup_laws;
pub mod official_laws;
pub mod statistics_laws;
pub mod credit_laws;
pub mod checkin_laws;
