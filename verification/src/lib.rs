//! looptask: a config-first runner of engineering loops. This library holds
//! the project model, loop validation and planning, celld cell naming,
//! GitHub repository rules, and email-code authentication.
use vstd::prelude::*;

pub mod auth;
pub mod celld;
pub mod config;
pub mod error;
pub mod github;
pub mod loop_catalog;
pub mod models;
pub mod persistence;
pub mod server;
pub mod text;
pub mod urls;

pub use config::{Config, ProjectConfig};
pub use error::{Error, Result};

verus! {

} // verus!
