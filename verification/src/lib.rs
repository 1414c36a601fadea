//! Verified core of a terminal browser and launcher for DNS-SD services.
pub mod command_file;
pub mod error;
pub mod table;
pub mod text;
pub mod service;
pub mod plumber;
pub mod filter;
pub mod discovery;
pub mod cli;
pub mod config;
pub mod ui;
pub mod laws;
