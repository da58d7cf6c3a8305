//! A bounded, time-limited cache of responses for a caching reverse proxy,
//! and the decisions that the proxy takes for each request.

pub mod cache;
pub mod clock;
pub mod config;
pub mod dispatch;
pub mod laws;
pub mod model;
pub mod response;
pub mod schedule;
pub mod state;
pub mod text;
