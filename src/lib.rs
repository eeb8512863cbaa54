//! A crawl-scheduling engine: a token-bucket rate limiter, a FIFO frontier of
//! pending URLs with a visited set, the retry and classification rules of the
//! fetcher, and the decisions of the engine loop; with the collaborators it relies
//! on: URL validation, link extraction from HTML, and robots.txt parsing.
//!
//! Network I/O, sleeping and worker threads are left to the caller, which hands the
//! library plain values (the current second, a response's status and body) and
//! performs the actions it decides.
pub mod config;
pub mod engine;
pub mod error;
pub mod fetch;
pub mod limiter;
pub mod parser;
pub mod robot;
pub mod state;
pub mod storage;
pub mod task;
pub mod text;
pub mod utils;
pub mod validator;
pub mod weburl;
