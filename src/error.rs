use vstd::prelude::*;

verus! {

/// Why an operation on themes or on the configuration failed.
#[derive(Debug, Clone, Copy, PartialEq, Eq, Structural)]
pub enum ThemeError {
    /// No theme of that name in either source, or a missing file.
    NotFound,
    /// A theme document or the configuration document is malformed, or a
    /// color does not parse.
    Parse,
    /// A file or directory could not be read or written.
    Io,
    /// The external apply command failed after the configuration was saved.
    ExternalCommand,
}

} // verus!
