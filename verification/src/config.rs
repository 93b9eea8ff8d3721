//! The application's settings.
use vstd::prelude::*;

verus! {

/// Settings read at start: debug mode, and where the database is.
#[derive(Debug, PartialEq)]
pub struct ApplicationConfig {
    pub debug: bool,
    pub database_url: String,
}

} // verus!
