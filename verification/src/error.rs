//! The ways in which selecting and locating a profile can fail.

use vstd::prelude::*;

verus! {

/// A failure that ends the run: none of them is recovered from.
#[derive(Debug)]
pub enum ProfileError {
    /// No executable of the wanted name is on the search path, the launcher
    /// itself left aside.
    ExecutableNotFound,
    /// The profiles file is there but cannot be read, is not TOML, or does not
    /// hold a list of profile records.
    ConfigParse,
    /// A pattern, after expansion, is not a regular expression.
    InvalidPattern { pattern: String },
    /// A profile was selected but the directory of profile files is missing.
    ProfilesDirectoryMissing,
}

} // verus!
