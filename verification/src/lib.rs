//! ghdepup: keeps dependency versions up to date from the tags that projects
//! publish on GitHub.
//!
//! The library holds the logic: the configuration keys, the list of
//! dependencies in a configuration, the versions found in tags, the choice of
//! the best version, and the text that is written back.
pub mod depkey;
pub mod text;
pub mod version;
pub mod table;
pub mod dep;
pub mod tags;
pub mod config;
pub mod update;
pub mod laws;
pub mod request;
