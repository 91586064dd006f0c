//! What end-to-end runs of the daemon need beside a browser: pages and the
//! servers behind them, command sequences, and the reading of what comes back.

pub mod clicks;
pub mod commands;
pub mod data_url;
pub mod frames;
pub mod http;
pub mod literal;
pub mod markup;
pub mod media;
pub mod pages;
pub mod profile;
pub mod replies;
pub mod scenario;
pub mod scripts;
pub mod servers;
pub mod stream;
pub mod template;
