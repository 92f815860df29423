//! Profile selection for a prompt launcher: a configuration names profiles and
//! gives each a list of directory patterns; the first profile with a pattern
//! that matches the working directory is chosen.

pub mod config;
pub mod document;
pub mod error;
pub mod expand;
pub mod launch;
pub mod matcher;
pub mod profile;
pub mod resolve;
