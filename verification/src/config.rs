//! Application and database configuration records with fixed defaults.

use vstd::prelude::*;
use vstd::string::StringExecFns;

verus! {

/// Top-level application settings.
#[derive(Debug, PartialEq)]
pub struct AppConfig {
    pub app_name: String,
    pub version: String,
    pub debug: bool,
}

impl AppConfig {
    /// The stock configuration the application starts from.
    pub fn new() -> (r: AppConfig)
        ensures
            r.app_name@ == "Rust学习应用"@,
            r.version@ == "1.0.0"@,
            r.debug == true,
    {
        AppConfig {
            app_name: String::from_str("Rust学习应用"),
            version: String::from_str("1.0.0"),
            debug: true,
        }
    }
}

/// Connection settings for the database.
#[derive(Debug, PartialEq)]
pub struct DatabaseConfig {
    pub host: String,
    pub port: u16,
    pub database: String,
    pub username: String,
}

impl Default for DatabaseConfig {
    /// The local development defaults.
    fn default() -> (r: DatabaseConfig)
        ensures
            r.host@ == "localhost"@,
            r.port == 5432,
            r.database@ == "myapp"@,
            r.username@ == "user"@,
    {
        DatabaseConfig {
            host: String::from_str("localhost"),
            port: 5432,
            database: String::from_str("myapp"),
            username: String::from_str("user"),
        }
    }
}

} // verus!
