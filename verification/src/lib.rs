//! Fast Chromium automation: the logic of a command line client and of the
//! daemon that drives a browser over the DevTools protocol.
pub mod args;
pub mod browser;
pub mod client;
pub mod codec;
pub mod daemon;
pub mod error;
pub mod frame;
pub mod json;
pub mod laws;
pub mod page;
pub mod request;
pub mod script;
pub mod session;
pub mod startup;
pub mod text;
