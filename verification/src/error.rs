//! Failures of the durable configuration stores.

use vstd::prelude::*;

verus! {

/// What can go wrong when a settings or window-geometry store is opened or
/// written: the backing file could not be read, could not be written, or
/// failed in some other way.
#[derive(Debug, Clone, Copy, PartialEq, Eq, Structural)]
pub enum SettingsError {
    ReadFromDisk,
    WriteToDisk,
    Unknown,
}

impl SettingsError {
    /// A human-readable description of the failure.
    pub fn message(&self) -> (r: &'static str)
        ensures
            r@ == match *self {
                SettingsError::ReadFromDisk => "Failed to open and read config file on disk."@,
                SettingsError::WriteToDisk => "Failed to write config file to disk."@,
                SettingsError::Unknown => "Unknown error."@,
            },
    {
        match *self {
            SettingsError::ReadFromDisk => "Failed to open and read config file on disk.",
            SettingsError::WriteToDisk => "Failed to write config file to disk.",
            SettingsError::Unknown => "Unknown error.",
        }
    }
}

} // verus!
