//! The one way in which a size computation can fail.

use vstd::prelude::*;

verus! {

/// Failure of a size computation.
#[derive(Clone, Copy, Debug, PartialEq, Eq, Structural)]
pub enum SizerError {
    /// A size does not fit in the machine's word.
    Overflow,
}

} // verus!
