//! The library's error type.
use crate::text::owned;
use vstd::prelude::*;

verus! {

/// An error with a user-facing message.
#[derive(Debug, Clone)]
pub enum MeError {
    Message(String),
}

impl MeError {
    /// An error carrying `value` as its message.
    pub fn message(value: &str) -> (r: MeError)
        ensures
            r matches MeError::Message(m) && m@ == value@,
    {
        MeError::Message(owned(value))
    }

    /// The message, as `Display` prints it.
    pub fn text(&self) -> (r: String)
        ensures
            self matches MeError::Message(m) && r@ == m@,
    {
        match self {
            MeError::Message(m) => m.clone(),
        }
    }
}

/// Whether any error in a cause chain is a broken pipe; the caller lists,
/// for each cause, whether it is an I/O error of kind `BrokenPipe`.
pub fn is_broken_pipe(causes: &[bool]) -> (r: bool)
    ensures
        r == exists|i: int| 0 <= i < causes@.len() && causes@[i],
{
    let mut i: usize = 0;
    while i < causes.len()
        invariant
            i <= causes.len(),
            forall|j: int| 0 <= j < i ==> !causes@[j],
        decreases causes.len() - i,
    {
        if causes[i] {
            return true;
        }
        i += 1;
    }
    false
}

} // verus!
