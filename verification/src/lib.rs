//! Core logic of the CHAMP local web stack: service states, port selection,
//! `.htaccess` compatibility, Caddyfile generation, runtime catalog handling
//! and the HTTPS preview tunnel state.

pub mod text;
pub mod service;
pub mod htaccess;
pub mod caddyfile;
pub mod ports;
pub mod packages;
pub mod catalog;
pub mod settings;
pub mod constants;
pub mod error;
pub mod locator;
pub mod manager;
pub mod launch;
pub mod tunnel;
pub mod downloader;
pub mod commands;
pub mod platform;
pub mod db_tool;
pub mod php_config;
pub mod metrics;
