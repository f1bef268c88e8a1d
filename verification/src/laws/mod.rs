//! What the library promises, stated apart from how it is computed.
pub mod browsers;
pub mod command_line;
pub mod documents;
pub mod failures;
pub mod frames;
pub mod jobs;
pub mod messages;
pub mod names;
pub mod pages;
pub mod requests;
pub mod scripts;
pub mod starts;
pub mod texts;
