use vstd::prelude::*;

verus! {

/// The class of an input/output failure reported by a backend.
#[derive(Clone, Copy, Debug, PartialEq, Eq, Structural)]
pub enum ErrorKind {
    NotFound,
    PermissionDenied,
    InvalidInput,
    Busy,
    Other,
}

/// A failure reported by a backend when it reads or writes a control.
#[derive(Clone, Debug)]
pub struct IoError {
    pub kind: ErrorKind,
    pub message: String,
}

impl IoError {
    /// A copy of this error.
    pub fn duplicate(&self) -> (r: IoError)
        ensures
            r == *self,
    {
        IoError { kind: self.kind, message: self.message.clone() }
    }
}

/// The errors of the orchestration layer.
#[derive(Clone, Debug)]
pub enum VideoSourceError {
    /// No discovered source has the identity string `attempted`;
    /// `available` lists the identity strings that were discovered.
    NotFound { attempted: String, available: Vec<String> },
    /// A single control write failed in the backend.
    Io(IoError),
    /// Writing the control `name` (id `id`) failed with `cause`.
    Control { name: String, id: u64, cause: IoError },
}

} // verus!
