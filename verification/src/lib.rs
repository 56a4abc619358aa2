pub mod actions;
pub mod classify;
pub mod config;
pub mod decimal;
pub mod geometry;
pub mod patterns;
pub mod report;
pub mod rules;
pub mod session;
pub mod strutil;
pub mod toml_values;
