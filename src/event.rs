//! What a watcher reports about its file.
use vstd::prelude::*;

verus! {

/// A change event on a watched target: the content changed, or the target
/// stayed inaccessible past its grace period.
#[derive(Clone, Debug)]
pub enum Fstate<T> {
    Changed(T),
    NotFound(T),
}

/// The kind of a change event, before it is attached to its target.
#[derive(Clone, Copy, Debug, PartialEq, Eq, Structural)]
pub enum Notice {
    Changed,
    NotFound,
}

impl Notice {
    /// The event of this kind on `target`.
    pub fn into_event<T>(self, target: T) -> (r: Fstate<T>)
        ensures
            r == (match self {
                Notice::Changed => Fstate::Changed(target),
                Notice::NotFound => Fstate::NotFound(target),
            }),
    {
        match self {
            Notice::Changed => Fstate::Changed(target),
            Notice::NotFound => Fstate::NotFound(target),
        }
    }
}

} // verus!
