//! Stable codes by which errors are classified in logs and metrics.

use vstd::prelude::*;

verus! {

/// A stable code of one class of errors.
#[derive(Clone, Copy, Debug)]
pub struct ErrorCode {
    pub code: &'static str,
}

impl View for ErrorCode {
    type V = Seq<char>;

    open spec fn view(&self) -> Seq<char> {
        self.code@
    }
}

} // verus!
