//! The states of a scan and the steps between them.
//!
//! A scan starts in `Start`, expects the module header, then walks the
//! sections in `Scanning` until it reaches one of three final states. A final
//! state is never left again.

use vstd::prelude::*;
use crate::import::{Import, ImportPair, ImportQuery};
use crate::verdict::ScanVerdict;

verus! {

/// The flavour of binary that a header announces.
#[derive(Clone, Copy, Debug, PartialEq, Eq, Structural)]
pub enum Encoding {
    /// A core module.
    Module,
    /// A component, which bundles modules and is not scanned.
    Component,
}

/// The state of a scan.
#[derive(Clone, Copy, Debug, PartialEq, Eq, Structural)]
pub enum ScanState {
    /// Nothing has been decoded yet; the header must come first.
    Start,
    /// The header announced a module; sections are being walked.
    Scanning,
    /// An import equal to the query was decoded.
    Matched,
    /// The end of the module was reached without a match.
    Exhausted,
    /// The payload is not a module, or its decoding failed.
    Malformed,
}

impl ScanState {
    /// Whether the scan is over in this state.
    pub open spec fn is_final(self) -> bool {
        self is Matched || self is Exhausted || self is Malformed
    }

    /// The state after a header that announces `encoding`.
    pub open spec fn after_header(self, encoding: Encoding) -> ScanState {
        match self {
            ScanState::Start | ScanState::Scanning => if encoding == Encoding::Module {
                ScanState::Scanning
            } else {
                ScanState::Malformed
            },
            _ => self,
        }
    }

    /// The state after the start of a section, whatever its kind.
    pub open spec fn after_section(self) -> ScanState {
        match self {
            ScanState::Start => ScanState::Malformed,
            _ => self,
        }
    }

    /// The state after the entry `import` of an import section, when the scan
    /// looks for `query`.
    pub open spec fn after_import(self, import: ImportPair, query: ImportPair) -> ScanState {
        match self {
            ScanState::Start => ScanState::Malformed,
            ScanState::Scanning => if import == query {
                ScanState::Matched
            } else {
                ScanState::Scanning
            },
            _ => self,
        }
    }

    /// The state after the end marker of the module.
    pub open spec fn after_end(self) -> ScanState {
        match self {
            ScanState::Start => ScanState::Malformed,
            ScanState::Scanning => ScanState::Exhausted,
            _ => self,
        }
    }

    /// The state after a decoding failure.
    pub open spec fn after_failure(self) -> ScanState {
        match self {
            ScanState::Start | ScanState::Scanning => ScanState::Malformed,
            _ => self,
        }
    }

    /// The verdict of a scan that stops in this state. A scan that stops
    /// before a final state ran out of input, which is a failure.
    pub open spec fn verdict(self) -> ScanVerdict {
        match self {
            ScanState::Matched => ScanVerdict::Found,
            ScanState::Exhausted => ScanVerdict::NotFound,
            _ => ScanVerdict::NotAModule,
        }
    }

    /// Whether the scan is over in this state.
    pub fn finished(self) -> (done: bool)
        ensures
            done == self.is_final(),
    {
        match self {
            ScanState::Start | ScanState::Scanning => false,
            _ => true,
        }
    }

    /// Takes the step for a header that announces `encoding`: a module header
    /// starts or continues the walk, any other encoding ends the scan as
    /// `Malformed`.
    pub fn on_header(self, encoding: Encoding) -> (next: ScanState)
        ensures
            next == self.after_header(encoding),
    {
        match self {
            ScanState::Start | ScanState::Scanning => match encoding {
                Encoding::Module => ScanState::Scanning,
                Encoding::Component => ScanState::Malformed,
            },
            _ => self,
        }
    }

    /// Takes the step for the start of a section: before the header it ends
    /// the scan as `Malformed`, otherwise the section is passed over.
    pub fn on_section(self) -> (next: ScanState)
        ensures
            next == self.after_section(),
    {
        match self {
            ScanState::Start => ScanState::Malformed,
            _ => self,
        }
    }

    /// Takes the step for one decoded import entry: a match ends the scan as
    /// `Matched`, any other entry leaves the walk where it is.
    pub fn on_import(self, import: &Import, query: &ImportQuery) -> (next: ScanState)
        ensures
            next == self.after_import(import@, query@),
    {
        match self {
            ScanState::Start => ScanState::Malformed,
            ScanState::Scanning => if query.matches(import) {
                ScanState::Matched
            } else {
                ScanState::Scanning
            },
            _ => self,
        }
    }

    /// Takes the step for the end marker: a walk under way ends as
    /// `Exhausted`.
    pub fn on_end(self) -> (next: ScanState)
        ensures
            next == self.after_end(),
    {
        match self {
            ScanState::Start => ScanState::Malformed,
            ScanState::Scanning => ScanState::Exhausted,
            _ => self,
        }
    }

    /// Takes the step for a decoding failure: a scan that is not over ends as
    /// `Malformed`.
    pub fn on_failure(self) -> (next: ScanState)
        ensures
            next == self.after_failure(),
    {
        match self {
            ScanState::Start | ScanState::Scanning => ScanState::Malformed,
            _ => self,
        }
    }

    /// The verdict of a scan that stops in this state.
    pub fn to_verdict(self) -> (v: ScanVerdict)
        ensures
            v == self.verdict(),
    {
        match self {
            ScanState::Matched => ScanVerdict::Found,
            ScanState::Exhausted => ScanVerdict::NotFound,
            _ => ScanVerdict::NotAModule,
        }
    }
}

} // verus!
