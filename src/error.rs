use vstd::prelude::*;

verus! {

/// Why a decode step failed, with the absolute offset in the input at which
/// the failing step started.
#[derive(Debug, Clone, Copy, PartialEq, Eq, Structural)]
pub enum DecodeError {
    /// Fewer than `needed` bytes remain at `offset`.
    Incomplete { needed: usize, offset: usize },
    /// The four bytes at `offset` are not the expected tag.
    TagMismatch { offset: usize },
    /// The flag word at `offset` has a bit outside the recognised set.
    InvalidFlags { offset: usize },
    /// The text payload starting at `offset` has no NUL byte, or the bytes
    /// before it are not UTF-8.
    InvalidEncoding { offset: usize },
    /// The array payload starting at `offset` is not a whole number of elements.
    ArrayLengthMismatch { offset: usize },
}

} // verus!
