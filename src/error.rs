use vstd::prelude::*;

verus! {

/// What an operation of the store can fail with.
#[derive(Debug)]
pub enum StoreError {
    /// The host's base directory value is unset or empty.
    ConfigMissing,
    /// A file system operation failed; the text names what was attempted.
    Io(String),
    /// Text that had to be JSON could not be read as such.
    Parse(String),
    /// A file that was asked for does not exist.
    NotFound,
}

} // verus!
