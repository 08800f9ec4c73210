use vstd::prelude::*;
use vstd::string::StringExecFns;

verus! {

/// The kinds of failure that the operations report.
#[derive(PartialEq, Eq, Structural, Clone, Copy, Debug)]
pub enum ErrorKind {
    PathNotFound,
    NotADirectory,
    InvalidPath,
    IoFailure,
    WatcherInitFailure,
    LockFailure,
}

/// A failure and its human-readable description.
#[derive(Debug)]
pub struct Failure {
    pub kind: ErrorKind,
    pub message: String,
}

impl View for Failure {
    type V = (ErrorKind, Seq<char>);

    open spec fn view(&self) -> (ErrorKind, Seq<char>) {
        (self.kind, self.message@)
    }
}

/// A failure whose message is `context` followed by `detail`.
pub fn failure(kind: ErrorKind, context: &str, detail: &str) -> (r: Failure)
    ensures
        r@ == (kind, context@ + detail@),
{
    let message = String::from_str(context).concat(detail);
    Failure { kind, message }
}

} // verus!
