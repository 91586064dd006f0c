//! The decisions of a browser daemon: how it reads commands and answers them,
//! when it gives up waiting for work, which files it leaves and takes away; and
//! the pages, commands and scenarios that end-to-end runs of it are made of.

pub mod address;
pub mod connection;
pub mod e2e;
pub mod idle;
pub mod json;
pub mod lifecycle;
pub mod protocol;
pub mod scan;
pub mod server;
pub mod sharing;
pub mod state;
pub mod text;
