//! Common I/O vocabulary for the non-blocking socket types.

use vstd::prelude::*;

verus! {

/// The outcome of a non-blocking operation: either it made progress, or it
/// would have had to block and did nothing.
#[derive(Clone, Copy, Debug)]
pub enum NonBlock<T> {
    /// The operation completed with this value.
    Ready(T),
    /// The operation would block; nothing was done.
    WouldBlock,
}

impl<T> NonBlock<T> {
    /// True on the would-block outcome.
    pub fn is_would_block(&self) -> (r: bool)
        ensures
            r == (*self is WouldBlock),
    {
        match *self {
            NonBlock::Ready(_) => false,
            NonBlock::WouldBlock => true,
        }
    }
}

/// Anything that yields a kernel file descriptor for registration.
pub trait IoHandle {
    /// The descriptor, for specification purposes.
    spec fn view_fd(&self) -> i32;

    /// The descriptor this handle stands for.
    fn desc(&self) -> (r: i32)
        ensures
            r == self.view_fd(),
    ;
}

} // verus!
