//! The persisted configuration record. Reading and writing the document is
//! done by the host; the record and its rules live here.
use vstd::prelude::*;

verus! {

/// The largest spindle speed that a fresh configuration allows.
pub const DEFAULT_MAX_SPINDLE_SPEED: u32 = 1000;

/// The configuration document, field for field.
#[derive(Clone, Copy, Debug, PartialEq, Eq, Structural)]
pub struct Configuration {
    pub max_spindle_speed: u32,
}

impl Default for Configuration {
    fn default() -> (r: Self)
        ensures
            r.max_spindle_speed == DEFAULT_MAX_SPINDLE_SPEED,
    {
        Configuration { max_spindle_speed: DEFAULT_MAX_SPINDLE_SPEED }
    }
}

impl Configuration {
    pub fn get_max_spindle_speed(&self) -> (r: u32)
        ensures
            r == self.max_spindle_speed,
    {
        self.max_spindle_speed
    }

    /// Replaces the largest spindle speed; nothing else changes.
    pub fn set_max_spindle_speed(&mut self, speed: u32)
        ensures
            *final(self) == (Configuration { max_spindle_speed: speed, ..*old(self) }),
    {
        self.max_spindle_speed = speed;
    }
}

/// A value that was set is the value that is read back.
pub proof fn lemma_set_then_get(c: Configuration, speed: u32)
    ensures
        (Configuration { max_spindle_speed: speed, ..c }).max_spindle_speed == speed,
{
}

/// Why the configuration could not be read or written.
#[derive(Clone, Copy, Debug, PartialEq, Eq, Structural)]
pub enum ConfigError {
    /// The document could not be read.
    Unavailable,
    /// The document is not a valid configuration.
    Corrupt,
    /// The document could not be written.
    WriteFailed,
}

} // verus!
