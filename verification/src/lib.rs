pub mod cmd;
pub mod config;
pub mod error;
pub mod git;
pub mod identity;
pub mod orchestrator;
pub mod path;
pub mod platform;
pub mod profile;
pub mod reference;
pub mod rules;
pub mod strutil;
pub mod weburl;
