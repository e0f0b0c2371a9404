//! The result of driving a computation one step.

use vstd::prelude::*;

verus! {

/// One pull on an asynchronous computation either yields its value now or
/// reports that the computation is not ready to proceed yet.
#[derive(Clone, Copy, Debug, PartialEq, Eq)]
pub enum Poll<T> {
    /// The computation produced a value.
    Ready(T),
    /// The computation is suspended; it must be pulled again later.
    Pending,
}

impl<T> Poll<T> {
    /// Whether this poll produced a value.
    pub open spec fn spec_is_ready(&self) -> bool {
        self is Ready
    }

    #[verifier::when_used_as_spec(spec_is_ready)]
    pub fn is_ready(&self) -> (r: bool)
        ensures
            r == self.spec_is_ready(),
    {
        match self {
            Poll::Ready(_) => true,
            Poll::Pending => false,
        }
    }
}

} // verus!
