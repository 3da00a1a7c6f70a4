//! The error type reported when a table mutation cannot complete.

use vstd::prelude::*;
use vstd::string::StringExecFns;

verus! {

/// What went wrong inside a table operation. There is a single kind:
/// a removal (or other bounds-checked mutation) addressed a row that is
/// not there.
#[derive(Debug, Clone, Copy, PartialEq, Eq, Structural)]
pub enum TableErrorKind {
    CouldNotRemove,
}

/// The name of an error kind, as the kind's textual form shows it.
pub open spec fn spec_kind_name(kind: TableErrorKind) -> Seq<char> {
    match kind {
        TableErrorKind::CouldNotRemove => "CouldNotRemove"@,
    }
}

impl TableErrorKind {
    /// The kind's name, e.g. `"CouldNotRemove"`.
    pub fn to_string(&self) -> (s: String)
        ensures
            s@ == spec_kind_name(*self),
    {
        match self {
            TableErrorKind::CouldNotRemove => String::from_str("CouldNotRemove"),
        }
    }
}

/// An error carrying its kind and a human-readable message.
#[derive(Debug)]
pub struct TableError {
    pub kind: TableErrorKind,
    pub message: String,
}

impl TableError {
    /// The bare message, the error's display form.
    pub fn to_string(&self) -> (s: String)
        ensures
            s@ == self.message@,
    {
        self.message.clone()
    }

    /// `"<kind>: <message>"`, the error's debug form.
    pub fn debug_string(&self) -> (s: String)
        ensures
            s@ == spec_kind_name(self.kind) + ": "@ + self.message@,
    {
        let mut s = self.kind.to_string();
        s.append(": ");
        s.append(self.message.as_str());
        s
    }
}

} // verus!
