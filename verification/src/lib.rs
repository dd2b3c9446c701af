//! RACKLOG inventory service: the verified core.

pub mod identity;
pub mod text;
pub mod crypto;
pub mod audit;
pub mod csv;
pub mod numbers;
pub mod errors;
pub mod import;
pub mod forecast;
pub mod vision;
pub mod config;
pub mod middleware;
pub mod throttle;
pub mod sessions;
pub mod password;
pub mod accounts;
pub mod events;
pub mod admin;
pub mod pagination;
pub mod sku;
pub mod trackers;
pub mod models;
pub mod mcp;
pub mod seed;
pub mod web;
