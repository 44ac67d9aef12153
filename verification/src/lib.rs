//! Locating, probing and ranking Java runtimes, and the settings record that
//! remembers them.
//!
//! Everything here works on plain values: the text a runtime printed, the
//! listing of a directory, the value of an environment variable. Gathering
//! those values from the host is left to the caller.

pub mod console;
pub mod discovery;
pub mod keywords;
pub mod locator;
pub mod plan;
pub mod platform;
pub mod probe;
pub mod scan;
pub mod settings;
pub mod text;
pub mod traversal;
pub mod version;
