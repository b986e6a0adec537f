//! The sheets of a spreadsheet as JSON: routing, caching, throttling, coalescing and shaping.
pub mod cache;
pub mod clock;
pub mod config;
pub mod error;
pub mod google;
pub mod inflight;
pub mod json;
pub mod percent;
pub mod reply;
pub mod retention;
pub mod route;
pub mod rows;
pub mod service;
pub mod store;
pub mod text;
pub mod throttle;
pub mod upstream;
