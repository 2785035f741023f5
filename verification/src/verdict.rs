//! The outcome of scanning one payload.

use vstd::prelude::*;

verus! {

/// What scanning one payload for an import found.
#[derive(Clone, Copy, Debug, PartialEq, Eq, Structural)]
pub enum ScanVerdict {
    /// The module declares the import.
    Found,
    /// The module was decoded up to its end and does not declare the import.
    NotFound,
    /// The payload is not a module, or its decoding failed.
    NotAModule,
}

impl ScanVerdict {
    /// Whether this verdict shows the import.
    pub open spec fn shows_import(self) -> bool {
        self == ScanVerdict::Found
    }

    /// Whether this verdict shows the import: only `Found` does.
    pub fn demonstrates(self) -> (b: bool)
        ensures
            b == self.shows_import(),
    {
        match self {
            ScanVerdict::Found => true,
            ScanVerdict::NotFound => false,
            ScanVerdict::NotAModule => false,
        }
    }
}

} // verus!
