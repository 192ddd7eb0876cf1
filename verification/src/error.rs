//! Error kinds shared across the library. Each variant carries a human
//! message and, where it applies, the offending path.

use vstd::prelude::*;

verus! {

/// What went wrong during detection, planning, apply, revert or status.
#[derive(Debug)]
pub enum Error {
    /// A sysfs/procfs read failed for a reason other than absence.
    SysfsRead { path: String },
    /// A sysfs/procfs write failed.
    SysfsWrite { path: String },
    /// A value read from the given path could not be parsed.
    Parse { path: String, detail: String },
    /// Hardware detection failed.
    Detection(String),
    /// The operation needs root privileges.
    NotRoot { operation: String },
    /// A conflicting power-management service is active.
    ConflictingService(String),
    /// The journal (state file) could not be read, written or parsed.
    State(String),
    /// A bootloader configuration could not be located or edited.
    Bootloader(String),
    /// Anything else.
    Other(String),
}

impl Error {
    /// True for the bootloader-configuration error kind.
    pub fn is_bootloader(&self) -> (r: bool)
        ensures
            r == self is Bootloader,
    {
        match self {
            Error::Bootloader(_) => true,
            _ => false,
        }
    }
}

} // verus!
