//! Endpoint usage agent: foreground-session tracking, network counter
//! differencing, batch assembly and chunking, the durable batch queue and the
//! upload decision engine, each stated and proved with Verus.

pub mod auth;
pub mod config;
pub mod models;
pub mod network;
pub mod manager;
pub mod sessions;
pub mod status;
pub mod storage;
pub mod text;
pub mod uploader;
